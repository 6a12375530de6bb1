//! RT-12: the socket tables of `/proc/net/tcp*` and `/proc/net/udp*`: line
//! parsing, connection selection, and the listening/state summary.
use std::collections::BTreeSet;
use vstd::prelude::*;
use vstd::std_specs::btree::increasing_seq;

use crate::collector::{
    CollectionStatus, ProbeOutcome, probe_files, probe_post, status_with_unsupported,
    status_with_unsupported_spec, str_views, strings_view,
};
use crate::fs::FsRoots;
use crate::text::{
    chars_of, decimal, decimal_chars, extend_chars, lines, lines_of, parse_uint, parse_unsigned,
    seqs_of, split_char, split_of, string_of, sub_chars, utf8_len, utf8_width, lemma_utf8_len_prefix, words, words_of,
};

verus! {

/// The RT-12 collector.
pub struct Socket;

/// The files that RT-12 reads, in the order its record uses them.
pub const FILES: [&'static str; 9] = [
    "/proc/net/tcp",
    "/proc/net/tcp6",
    "/proc/net/udp",
    "/proc/net/udp6",
    "/proc/net/unix",
    "/proc/net/raw",
    "/proc/net/raw6",
    "/proc/net/snmp",
    "/proc/net/snmp6",
];

/// Inputs whose absence means the kernel lacks the feature.
pub const UNSUPPORTED_IF_MISSING: [&'static str; 0] = [];

impl Socket {
    /// Which of the RT-12 files exist under `roots`.
    pub fn probe(&self, roots: &FsRoots) -> (r: ProbeOutcome)
        ensures
            probe_post(r, *roots, str_views(FILES@), "all net socket files missing"@),
    {
        probe_files(roots, FILES.as_slice(), "all net socket files missing")
    }

    /// The status after the record was written, given what the probe found missing.
    pub fn status(&self, degraded: &Vec<String>) -> (r: CollectionStatus)
        ensures
            r@ == status_with_unsupported_spec(
                strings_view(degraded@),
                str_views(UNSUPPORTED_IF_MISSING@),
            ),
    {
        status_with_unsupported(degraded, UNSUPPORTED_IF_MISSING.as_slice())
    }
}

/// The most connections kept from one table.
pub const MAX_CONNECTIONS: usize = 200;

/// The most distinct listening ports reported.
pub const MAX_LISTENING_PORTS: usize = 500;

/// One TCP connection row.
pub struct TcpConnEntry {
    pub local_addr: String,
    pub local_port: u16,
    pub remote_addr: String,
    pub remote_port: u16,
    pub state_hex: String,
    pub uid: u32,
    pub inode: u32,
}

/// One UDP socket row.
pub struct UdpConnEntry {
    pub local_addr: String,
    pub local_port: u16,
    pub remote_addr: String,
    pub remote_port: u16,
    pub uid: u32,
    pub inode: u32,
}

/// A TCP socket in the listening state.
pub struct ListeningEntry {
    pub local_addr: String,
    pub local_port: u16,
    pub proto: String,
    pub inode: u32,
}

/// How many TCP connections are in each state.
pub struct SocketStateCounts {
    pub established: u32,
    pub close_wait: u32,
    pub time_wait: u32,
    pub listen: u32,
    pub syn_sent: u32,
    pub other: u32,
}

pub struct TcpConnView {
    pub local_addr: Seq<char>,
    pub local_port: u16,
    pub remote_addr: Seq<char>,
    pub remote_port: u16,
    pub state_hex: Seq<char>,
    pub uid: u32,
    pub inode: u32,
}

pub struct UdpConnView {
    pub local_addr: Seq<char>,
    pub local_port: u16,
    pub remote_addr: Seq<char>,
    pub remote_port: u16,
    pub uid: u32,
    pub inode: u32,
}

pub struct ListeningView {
    pub local_addr: Seq<char>,
    pub local_port: u16,
    pub proto: Seq<char>,
    pub inode: u32,
}

impl View for TcpConnEntry {
    type V = TcpConnView;

    open spec fn view(&self) -> TcpConnView {
        TcpConnView {
            local_addr: self.local_addr@,
            local_port: self.local_port,
            remote_addr: self.remote_addr@,
            remote_port: self.remote_port,
            state_hex: self.state_hex@,
            uid: self.uid,
            inode: self.inode,
        }
    }
}

impl View for UdpConnEntry {
    type V = UdpConnView;

    open spec fn view(&self) -> UdpConnView {
        UdpConnView {
            local_addr: self.local_addr@,
            local_port: self.local_port,
            remote_addr: self.remote_addr@,
            remote_port: self.remote_port,
            uid: self.uid,
            inode: self.inode,
        }
    }
}

impl View for ListeningEntry {
    type V = ListeningView;

    open spec fn view(&self) -> ListeningView {
        ListeningView {
            local_addr: self.local_addr@,
            local_port: self.local_port,
            proto: self.proto@,
            inode: self.inode,
        }
    }
}

/// The fields of one socket-table row before the addresses are rendered.
pub struct ConnFields {
    pub local_hex: Seq<char>,
    pub local_port: u16,
    pub remote_hex: Seq<char>,
    pub remote_port: u16,
    pub state_hex: Seq<char>,
    pub uid: u32,
    pub inode: u32,
}

/// `x` with its four bytes in the opposite order.
pub open spec fn swap_bytes(x: u32) -> u32 {
    ((x % 256) * 16777216 + ((x / 256) % 256) * 65536 + ((x / 65536) % 256) * 256 + x
        / 16777216) as u32
}

/// The dotted-quad text of an address whose first octet is the high byte of `a`.
pub open spec fn ipv4_text(a: u32) -> Seq<char> {
    decimal((a / 16777216) as nat) + seq!['.'] + decimal(((a / 65536) % 256) as nat) + seq!['.']
        + decimal(((a / 256) % 256) as nat) + seq!['.'] + decimal((a % 256) as nat)
}

/// Whether `text` is what the address column `hex` renders to: the text of
/// the address when `hex` is eight or more bytes that parse as a hexadecimal
/// `u32` (its bytes taken in network order, which on a big-endian machine is
/// the value itself), and `hex` unchanged otherwise.
pub open spec fn renders_addr(hex: Seq<char>, text: Seq<char>) -> bool {
    if utf8_len(hex) < 8 {
        text == hex
    } else {
        match parse_unsigned(hex, 16, u32::MAX as int) {
            None => text == hex,
            Some(a) => text == ipv4_text(swap_bytes(a as u32)) || text == ipv4_text(a as u32),
        }
    }
}

/// The fields of a `/proc/net/tcp` or `/proc/net/udp` row: at least ten
/// whitespace-separated columns, the second and third `ADDR:PORT` with a
/// hexadecimal port, the eighth the decimal uid and the tenth the decimal inode.
pub open spec fn conn_fields(line: Seq<char>) -> Option<ConnFields> {
    let parts = words_of(line);
    if parts.len() < 10 {
        None
    } else {
        let local = split_of(parts[1], ':');
        let remote = split_of(parts[2], ':');
        if local.len() != 2 || remote.len() != 2 {
            None
        } else {
            match (
                parse_unsigned(local[1], 16, u16::MAX as int),
                parse_unsigned(remote[1], 16, u16::MAX as int),
                parse_unsigned(parts[7], 10, u32::MAX as int),
                parse_unsigned(parts[9], 10, u32::MAX as int),
            ) {
                (Some(lp), Some(rp), Some(uid), Some(inode)) => Some(
                    ConnFields {
                        local_hex: local[0],
                        local_port: lp as u16,
                        remote_hex: remote[0],
                        remote_port: rp as u16,
                        state_hex: parts[3],
                        uid: uid as u32,
                        inode: inode as u32,
                    },
                ),
                _ => None,
            }
        }
    }
}

/// Whether a TCP entry is the rendering of the given row fields.
pub open spec fn tcp_renders(e: TcpConnView, f: ConnFields) -> bool {
    &&& renders_addr(f.local_hex, e.local_addr)
    &&& renders_addr(f.remote_hex, e.remote_addr)
    &&& e.local_port == f.local_port
    &&& e.remote_port == f.remote_port
    &&& e.state_hex == f.state_hex
    &&& e.uid == f.uid
    &&& e.inode == f.inode
}

/// Whether a UDP entry is the rendering of the given row fields.
pub open spec fn udp_renders(e: UdpConnView, f: ConnFields) -> bool {
    &&& renders_addr(f.local_hex, e.local_addr)
    &&& renders_addr(f.remote_hex, e.remote_addr)
    &&& e.local_port == f.local_port
    &&& e.remote_port == f.remote_port
    &&& e.uid == f.uid
    &&& e.inode == f.inode
}

/// The rows kept from `lines` after those already kept (`acc`): each row
/// that parses and has a non-zero inode, stopping once 200 are kept.
pub open spec fn select_acc(lines: Seq<Seq<char>>, acc: Seq<ConnFields>) -> Seq<ConnFields>
    decreases lines.len(),
{
    if lines.len() == 0 {
        acc
    } else {
        let acc2 = match conn_fields(lines[0]) {
            Some(f) => if f.inode != 0 {
                acc.push(f)
            } else {
                acc
            },
            None => acc,
        };
        if acc2.len() >= MAX_CONNECTIONS {
            acc2
        } else {
            select_acc(lines.drop_first(), acc2)
        }
    }
}

/// The rows kept from a whole table: its first line is the header.
pub open spec fn selected_rows(content: Seq<char>) -> Seq<ConnFields> {
    let ls = lines_of(content);
    if ls.len() == 0 {
        seq![]
    } else {
        select_acc(ls.drop_first(), seq![])
    }
}

/// Calls `u32::to_be`. Claimed: the result is `x` itself (on a big-endian
/// machine) or `x` with its four bytes reversed (on a little-endian one);
/// which of the two is left unsaid, as it depends on the machine.
#[verifier::external_body]
fn u32_to_be(x: u32) -> (r: u32)
    ensures
        r == x || r == swap_bytes(x),
{
    x.to_be()
}

fn ipv4_chars(a: u32) -> (v: Vec<char>)
    ensures
        v@ == ipv4_text(a),
{
    let mut v = decimal_chars((a / 16777216) as u64);
    v.push('.');
    let b = decimal_chars(((a / 65536) % 256) as u64);
    extend_chars(&mut v, b.as_slice());
    v.push('.');
    let c = decimal_chars(((a / 256) % 256) as u64);
    extend_chars(&mut v, c.as_slice());
    v.push('.');
    let d = decimal_chars((a % 256) as u64);
    extend_chars(&mut v, d.as_slice());
    assert(v@ =~= ipv4_text(a));
    v
}

/// Whether the UTF-8 encoding of `s` is shorter than `n` bytes.
fn utf8_shorter_than(s: &[char], n: usize) -> (r: bool)
    ensures
        r == (utf8_len(s@) < n),
{
    if n == 0 {
        return false;
    }
    let mut total: usize = 0;
    let mut i: usize = 0;
    while i < s.len()
        invariant
            i <= s@.len(),
            total == utf8_len(s@.take(i as int)),
            total < n,
        decreases s.len() - i,
    {
        assert(s@.take(i + 1).drop_last() =~= s@.take(i as int));
        let w = utf8_width(s[i]);
        if w >= n - total {
            proof {
                lemma_utf8_len_prefix(s@, i + 1);
            }
            return false;
        }
        total = total + w;
        i = i + 1;
    }
    assert(s@.take(i as int) =~= s@);
    true
}

/// Renders a hexadecimal address column as a dotted IPv4 address; a column
/// that is shorter than eight bytes or not a hexadecimal `u32` is kept as is.
pub fn hex_to_ipv4(hex: &str) -> (r: String)
    ensures
        renders_addr(hex@, r@),
{
    let h = chars_of(hex);
    string_of(hex_to_ipv4_chars(h.as_slice()).as_slice())
}

fn hex_to_ipv4_chars(h: &[char]) -> (r: Vec<char>)
    ensures
        renders_addr(h@, r@),
{
    let whole = sub_chars(h, 0, h.len());
    assert(whole@ =~= h@);
    if utf8_shorter_than(h, 8) {
        return whole;
    }
    match parse_uint(h, 16, u32::MAX as u64) {
        None => whole,
        Some(a) => {
            let b = u32_to_be(a as u32);
            ipv4_chars(b)
        },
    }
}

/// The row fields of a socket-table line, with the addresses rendered.
fn conn_parts(line: &[char]) -> (r: Option<
    (Vec<char>, u16, Vec<char>, u16, Vec<char>, u32, u32),
>)
    ensures
        r is Some <==> conn_fields(line@) is Some,
        r matches Some((la, lp, ra, rp, st, uid, inode)) ==> {
            let f = conn_fields(line@)->0;
            &&& renders_addr(f.local_hex, la@)
            &&& renders_addr(f.remote_hex, ra@)
            &&& lp == f.local_port
            &&& rp == f.remote_port
            &&& st@ == f.state_hex
            &&& uid == f.uid
            &&& inode == f.inode
        },
{
    let parts = words(line);
    assert(seqs_of(parts@).len() == parts@.len());
    if parts.len() < 10 {
        return None;
    }
    proof {
        assert(seqs_of(parts@)[1] == parts@[1]@);
        assert(seqs_of(parts@)[2] == parts@[2]@);
        assert(seqs_of(parts@)[3] == parts@[3]@);
        assert(seqs_of(parts@)[7] == parts@[7]@);
        assert(seqs_of(parts@)[9] == parts@[9]@);
    }
    let local = split_char(parts[1].as_slice(), ':');
    let remote = split_char(parts[2].as_slice(), ':');
    assert(seqs_of(local@).len() == local@.len());
    assert(seqs_of(remote@).len() == remote@.len());
    if local.len() != 2 || remote.len() != 2 {
        return None;
    }
    proof {
        assert(seqs_of(local@)[0] == local@[0]@);
        assert(seqs_of(local@)[1] == local@[1]@);
        assert(seqs_of(remote@)[0] == remote@[0]@);
        assert(seqs_of(remote@)[1] == remote@[1]@);
    }
    let lp = match parse_uint(local[1].as_slice(), 16, u16::MAX as u64) {
        Some(v) => v,
        None => return None,
    };
    let rp = match parse_uint(remote[1].as_slice(), 16, u16::MAX as u64) {
        Some(v) => v,
        None => return None,
    };
    let uid = match parse_uint(parts[7].as_slice(), 10, u32::MAX as u64) {
        Some(v) => v,
        None => return None,
    };
    let inode = match parse_uint(parts[9].as_slice(), 10, u32::MAX as u64) {
        Some(v) => v,
        None => return None,
    };
    let la = hex_to_ipv4_chars(local[0].as_slice());
    let ra = hex_to_ipv4_chars(remote[0].as_slice());
    let st = sub_chars(parts[3].as_slice(), 0, parts[3].len());
    assert(st@ =~= parts@[3]@);
    Some((la, lp as u16, ra, rp as u16, st, uid as u32, inode as u32))
}

fn parse_tcp_chars(line: &[char]) -> (r: Option<TcpConnEntry>)
    ensures
        r is Some <==> conn_fields(line@) is Some,
        r matches Some(e) ==> tcp_renders(e@, conn_fields(line@)->0),
{
    match conn_parts(line) {
        None => None,
        Some((la, lp, ra, rp, st, uid, inode)) => Some(
            TcpConnEntry {
                local_addr: string_of(la.as_slice()),
                local_port: lp,
                remote_addr: string_of(ra.as_slice()),
                remote_port: rp,
                state_hex: string_of(st.as_slice()),
                uid,
                inode,
            },
        ),
    }
}

fn parse_udp_chars(line: &[char]) -> (r: Option<UdpConnEntry>)
    ensures
        r is Some <==> conn_fields(line@) is Some,
        r matches Some(e) ==> udp_renders(e@, conn_fields(line@)->0),
{
    match conn_parts(line) {
        None => None,
        Some((la, lp, ra, rp, _st, uid, inode)) => Some(
            UdpConnEntry {
                local_addr: string_of(la.as_slice()),
                local_port: lp,
                remote_addr: string_of(ra.as_slice()),
                remote_port: rp,
                uid,
                inode,
            },
        ),
    }
}

/// Parses one row of `/proc/net/tcp` or `/proc/net/tcp6`.
pub fn parse_tcp_line(line: &str) -> (r: Option<TcpConnEntry>)
    ensures
        r is Some <==> conn_fields(line@) is Some,
        r matches Some(e) ==> tcp_renders(e@, conn_fields(line@)->0),
{
    let c = chars_of(line);
    parse_tcp_chars(c.as_slice())
}

/// Parses one row of `/proc/net/udp` or `/proc/net/udp6`.
pub fn parse_udp_line(line: &str) -> (r: Option<UdpConnEntry>)
    ensures
        r is Some <==> conn_fields(line@) is Some,
        r matches Some(e) ==> udp_renders(e@, conn_fields(line@)->0),
{
    let c = chars_of(line);
    parse_udp_chars(c.as_slice())
}

/// Whether the text of an address column depends on the machine's byte
/// order: it does when the column is eight or more bytes of hexadecimal.
pub open spec fn order_dependent(hex: Seq<char>) -> bool {
    utf8_len(hex) >= 8 && parse_unsigned(hex, 16, u32::MAX as int) is Some
}

/// The TCP and UDP row parsers read a row alike: their entries for one row
/// agree on both ports, the uid and the inode, and on each address wherever
/// its text does not depend on the machine's byte order; where it does,
/// both addresses are renderings of the same value.
pub proof fn lemma_tcp_and_udp_rows_agree(line: Seq<char>, t: TcpConnView, u: UdpConnView)
    requires
        conn_fields(line) is Some,
        tcp_renders(t, conn_fields(line)->0),
        udp_renders(u, conn_fields(line)->0),
    ensures
        t.local_port == u.local_port,
        t.remote_port == u.remote_port,
        t.uid == u.uid,
        t.inode == u.inode,
        !order_dependent(conn_fields(line)->0.local_hex) ==> t.local_addr == u.local_addr,
        !order_dependent(conn_fields(line)->0.remote_hex) ==> t.remote_addr == u.remote_addr,
        order_dependent(conn_fields(line)->0.local_hex) ==> {
            let a = parse_unsigned(conn_fields(line)->0.local_hex, 16, u32::MAX as int)->0 as u32;
            &&& (t.local_addr == ipv4_text(a) || t.local_addr == ipv4_text(swap_bytes(a)))
            &&& (u.local_addr == ipv4_text(a) || u.local_addr == ipv4_text(swap_bytes(a)))
        },
        order_dependent(conn_fields(line)->0.remote_hex) ==> {
            let a = parse_unsigned(conn_fields(line)->0.remote_hex, 16, u32::MAX as int)->0 as u32;
            &&& (t.remote_addr == ipv4_text(a) || t.remote_addr == ipv4_text(swap_bytes(a)))
            &&& (u.remote_addr == ipv4_text(a) || u.remote_addr == ipv4_text(swap_bytes(a)))
        },
{
}

proof fn lemma_select_step(lines: Seq<Seq<char>>, acc: Seq<ConnFields>)
    requires
        lines.len() > 0,
    ensures
        ({
            let acc2 = match conn_fields(lines[0]) {
                Some(f) => if f.inode != 0 {
                    acc.push(f)
                } else {
                    acc
                },
                None => acc,
            };
            select_acc(lines, acc) == if acc2.len() >= MAX_CONNECTIONS {
                acc2
            } else {
                select_acc(lines.drop_first(), acc2)
            }
        }),
{
}

/// The TCP connections of a table: the rows after the header that parse and
/// have a non-zero inode, at most 200; `None` when the table is absent or
/// no row qualifies.
pub fn parse_connections(content: &Option<String>) -> (r: Option<Vec<TcpConnEntry>>)
    ensures
        content is None ==> r is None,
        content matches Some(c) ==> {
            let sel = selected_rows(c@);
            &&& (r is None <==> sel.len() == 0)
            &&& r matches Some(v) ==> v@.len() == sel.len() && forall|i: int|
                0 <= i < sel.len() ==> tcp_renders(#[trigger] v@[i]@, sel[i])
        },
{
    let text = match content {
        Some(t) => t,
        None => return None,
    };
    let chars = chars_of(text.as_str());
    let all = lines(chars.as_slice());
    let ghost ls = lines_of(text@);
    let mut conns: Vec<TcpConnEntry> = Vec::new();
    let ghost mut acc: Seq<ConnFields> = seq![];
    let mut i: usize = 1;
    assert(seqs_of(all@).len() == all@.len());
    if all.len() == 0 {
        return None;
    }
    assert(ls.skip(1) =~= ls.drop_first());
    while i < all.len() && conns.len() < MAX_CONNECTIONS
        invariant
            1 <= i <= all@.len(),
            seqs_of(all@) == ls,
            ls == lines_of(text@),
            ls.len() > 0,
            conns@.len() == acc.len(),
            acc.len() <= MAX_CONNECTIONS,
            forall|j: int| 0 <= j < acc.len() ==> tcp_renders(#[trigger] conns@[j]@, acc[j]),
            acc.len() < MAX_CONNECTIONS ==> select_acc(ls.skip(i as int), acc) == selected_rows(
                text@,
            ),
            acc.len() == MAX_CONNECTIONS ==> acc == selected_rows(text@),
        decreases all.len() - i,
    {
        let ghost rest = ls.skip(i as int);
        assert(rest[0] == all@[i as int]@);
        assert(rest.drop_first() =~= ls.skip(i + 1));
        proof {
            lemma_select_step(rest, acc);
        }
        let parsed = parse_tcp_chars(all[i].as_slice());
        match parsed {
            Some(conn) => {
                if conn.inode != 0 {
                    let ghost f = conn_fields(all@[i as int]@)->0;
                    conns.push(conn);
                    proof {
                        acc = acc.push(f);
                    }
                    assert(forall|j: int|
                        0 <= j < acc.len() ==> tcp_renders(#[trigger] conns@[j]@, acc[j]));
                }
            },
            None => {},
        }
        i = i + 1;
    }
    if conns.len() < MAX_CONNECTIONS {
        assert(ls.skip(i as int) =~= seq![]);
    }
    if conns.len() == 0 {
        None
    } else {
        Some(conns)
    }
}

/// The UDP sockets of a table: the rows after the header that parse and
/// have a non-zero inode, at most 200; `None` when the table is absent or
/// no row qualifies.
pub fn parse_udp_connections(content: &Option<String>) -> (r: Option<Vec<UdpConnEntry>>)
    ensures
        content is None ==> r is None,
        content matches Some(c) ==> {
            let sel = selected_rows(c@);
            &&& (r is None <==> sel.len() == 0)
            &&& r matches Some(v) ==> v@.len() == sel.len() && forall|i: int|
                0 <= i < sel.len() ==> udp_renders(#[trigger] v@[i]@, sel[i])
        },
{
    let text = match content {
        Some(t) => t,
        None => return None,
    };
    let chars = chars_of(text.as_str());
    let all = lines(chars.as_slice());
    let ghost ls = lines_of(text@);
    let mut conns: Vec<UdpConnEntry> = Vec::new();
    let ghost mut acc: Seq<ConnFields> = seq![];
    let mut i: usize = 1;
    assert(seqs_of(all@).len() == all@.len());
    if all.len() == 0 {
        return None;
    }
    assert(ls.skip(1) =~= ls.drop_first());
    while i < all.len() && conns.len() < MAX_CONNECTIONS
        invariant
            1 <= i <= all@.len(),
            seqs_of(all@) == ls,
            ls == lines_of(text@),
            ls.len() > 0,
            conns@.len() == acc.len(),
            acc.len() <= MAX_CONNECTIONS,
            forall|j: int| 0 <= j < acc.len() ==> udp_renders(#[trigger] conns@[j]@, acc[j]),
            acc.len() < MAX_CONNECTIONS ==> select_acc(ls.skip(i as int), acc) == selected_rows(
                text@,
            ),
            acc.len() == MAX_CONNECTIONS ==> acc == selected_rows(text@),
        decreases all.len() - i,
    {
        let ghost rest = ls.skip(i as int);
        assert(rest[0] == all@[i as int]@);
        assert(rest.drop_first() =~= ls.skip(i + 1));
        proof {
            lemma_select_step(rest, acc);
        }
        let parsed = parse_udp_chars(all[i].as_slice());
        match parsed {
            Some(conn) => {
                if conn.inode != 0 {
                    let ghost f = conn_fields(all@[i as int]@)->0;
                    conns.push(conn);
                    proof {
                        acc = acc.push(f);
                    }
                    assert(forall|j: int|
                        0 <= j < acc.len() ==> udp_renders(#[trigger] conns@[j]@, acc[j]));
                }
            },
            None => {},
        }
        i = i + 1;
    }
    if conns.len() < MAX_CONNECTIONS {
        assert(ls.skip(i as int) =~= seq![]);
    }
    if conns.len() == 0 {
        None
    } else {
        Some(conns)
    }
}


/// The state column of an established connection.
pub open spec fn st_established() -> Seq<char> {
    seq!['0', '1']
}

pub open spec fn st_syn_sent() -> Seq<char> {
    seq!['0', '2']
}

pub open spec fn st_time_wait() -> Seq<char> {
    seq!['0', '6']
}

pub open spec fn st_close_wait() -> Seq<char> {
    seq!['0', '8']
}

pub open spec fn st_listen() -> Seq<char> {
    seq!['0', 'A']
}

pub open spec fn is_known_state(st: Seq<char>) -> bool {
    st == st_established() || st == st_syn_sent() || st == st_time_wait() || st
        == st_close_wait() || st == st_listen()
}

pub open spec fn conn_views(v: Seq<TcpConnEntry>) -> Seq<TcpConnView> {
    v.map_values(|e: TcpConnEntry| e@)
}

pub open spec fn listening_views(v: Seq<ListeningEntry>) -> Seq<ListeningView> {
    v.map_values(|e: ListeningEntry| e@)
}

/// How many connections of `s` are in the state `code`.
pub open spec fn count_state(s: Seq<TcpConnView>, code: Seq<char>) -> nat
    decreases s.len(),
{
    if s.len() == 0 {
        0
    } else {
        count_state(s.drop_last(), code) + if s.last().state_hex == code {
            1nat
        } else {
            0nat
        }
    }
}

/// How many connections of `s` are in none of the five counted states.
pub open spec fn count_other(s: Seq<TcpConnView>) -> nat
    decreases s.len(),
{
    if s.len() == 0 {
        0
    } else {
        count_other(s.drop_last()) + if is_known_state(s.last().state_hex) {
            0nat
        } else {
            1nat
        }
    }
}

/// The listening entries of `s`, in order, labelled with `proto`.
pub open spec fn listening_of(s: Seq<TcpConnView>, proto: Seq<char>) -> Seq<ListeningView>
    decreases s.len(),
{
    if s.len() == 0 {
        seq![]
    } else {
        let prev = listening_of(s.drop_last(), proto);
        let c = s.last();
        if c.state_hex == st_listen() {
            prev.push(
                ListeningView {
                    local_addr: c.local_addr,
                    local_port: c.local_port,
                    proto,
                    inode: c.inode,
                },
            )
        } else {
            prev
        }
    }
}

/// The listening ports of `s`: each listening connection's local port is
/// recorded while fewer than 500 distinct ports are.
pub open spec fn port_set(s: Seq<TcpConnView>) -> Set<u16>
    decreases s.len(),
{
    if s.len() == 0 {
        Set::empty()
    } else {
        let prev = port_set(s.drop_last());
        let c = s.last();
        if c.state_hex == st_listen() && prev.len() < MAX_LISTENING_PORTS {
            prev.insert(c.local_port)
        } else {
            prev
        }
    }
}

pub open spec fn strictly_increasing(s: Seq<u16>) -> bool {
    forall|i: int, j: int| 0 <= i < j < s.len() ==> s[i] < s[j]
}

pub proof fn lemma_counts_partition(s: Seq<TcpConnView>)
    ensures
        count_state(s, st_established()) + count_state(s, st_close_wait()) + count_state(
            s,
            st_time_wait(),
        ) + count_state(s, st_listen()) + count_state(s, st_syn_sent()) + count_other(s)
            == s.len(),
    decreases s.len(),
{
    if s.len() > 0 {
        lemma_counts_partition(s.drop_last());
        assert(st_established() != st_close_wait());
        assert(st_established()[1] != st_close_wait()[1]);
        assert(st_established()[1] != st_time_wait()[1]);
        assert(st_established()[1] != st_listen()[1]);
        assert(st_established()[1] != st_syn_sent()[1]);
        assert(st_close_wait()[1] != st_time_wait()[1]);
        assert(st_close_wait()[1] != st_listen()[1]);
        assert(st_close_wait()[1] != st_syn_sent()[1]);
        assert(st_time_wait()[1] != st_listen()[1]);
        assert(st_time_wait()[1] != st_syn_sent()[1]);
        assert(st_listen()[1] != st_syn_sent()[1]);
    }
}

pub proof fn lemma_listening_len(s: Seq<TcpConnView>, proto: Seq<char>)
    ensures
        listening_of(s, proto).len() == count_state(s, st_listen()),
    decreases s.len(),
{
    if s.len() > 0 {
        lemma_listening_len(s.drop_last(), proto);
    }
}

/// Whether some connection of `s` listens on local port `p`.
pub open spec fn listens_on(s: Seq<TcpConnView>, p: u16) -> bool {
    exists|j: int| 0 <= j < s.len() && s[j].state_hex == st_listen() && s[j].local_port == p
}

proof fn lemma_listens_on_extend(s: Seq<TcpConnView>, p: u16)
    requires
        s.len() > 0,
        listens_on(s.drop_last(), p),
    ensures
        listens_on(s, p),
{
    let j = choose|j: int|
        0 <= j < s.drop_last().len() && s.drop_last()[j].state_hex == st_listen()
            && s.drop_last()[j].local_port == p;
    assert(s[j] == s.drop_last()[j]);
}

/// The facts about the port set that hold of every input: finite, at most
/// 500 ports, each the local port of a listening connection.
pub proof fn lemma_ports_props(s: Seq<TcpConnView>)
    ensures
        port_set(s).finite(),
        port_set(s).len() <= MAX_LISTENING_PORTS,
        forall|p: u16| #[trigger] port_set(s).contains(p) ==> listens_on(s, p),
    decreases s.len(),
{
    if s.len() > 0 {
        let prev = port_set(s.drop_last());
        lemma_ports_props(s.drop_last());
        let c = s.last();
        assert forall|p: u16| #[trigger] port_set(s).contains(p) implies listens_on(s, p) by {
            if prev.contains(p) {
                lemma_listens_on_extend(s, p);
            } else {
                assert(s[s.len() - 1] == c);
            }
        }
    }
}

/// The ports of `ports` in ascending order.
fn ports_in_order(ports: &BTreeSet<u16>) -> (r: Vec<u16>)
    ensures
        r@.to_set() == ports@,
        strictly_increasing(r@),
{
    broadcast use vstd::std_specs::btree::group_btree_axioms, vstd::laws_cmp::group_laws_cmp;

    let ghost keys = vstd::std_specs::iter::IteratorSpec::remaining(&vstd::std_specs::btree::spec_btree_keys_iter(ports));
    let mut r: Vec<u16> = Vec::new();
    for p in it: ports.iter()
        invariant
            it.seq() == keys,
            r@.len() == it.index(),
            forall|j: int| 0 <= j < r@.len() ==> r@[j] == *keys[j],
    {
        r.push(*p);
    }
    assert(r@ =~= keys.unref());
    assert forall|i: int, j: int| 0 <= i < j < r@.len() implies r@[i] < r@[j] by {
        assert(increasing_seq(keys));
        assert(vstd::std_specs::cmp::OrdSpec::cmp_spec(&keys[i], &keys[j]) is Less);
    }
    r
}

fn state_is(st: &[char], a: char, b: char) -> (r: bool)
    ensures
        r == (st@ == seq![a, b]),
{
    if st.len() == 2 && st[0] == a && st[1] == b {
        assert(st@ =~= seq![a, b]);
        true
    } else {
        false
    }
}

/// Counts one connection and records it when it listens.
fn tally(
    conn: &TcpConnEntry,
    proto: &[char],
    listening: &mut Vec<ListeningEntry>,
    counts: &mut SocketStateCounts,
    ports: &mut BTreeSet<u16>,
)
    requires
        old(counts).established < u32::MAX,
        old(counts).close_wait < u32::MAX,
        old(counts).time_wait < u32::MAX,
        old(counts).listen < u32::MAX,
        old(counts).syn_sent < u32::MAX,
        old(counts).other < u32::MAX,
    ensures
        conn@.state_hex == seq!['0', '8'] ==> final(counts).close_wait == old(counts).close_wait + 1
            && final(counts).time_wait == old(counts).time_wait,
        conn@.state_hex == seq!['0', '6'] ==> final(counts).time_wait == old(counts).time_wait + 1
            && final(counts).close_wait == old(counts).close_wait,
        conn@.state_hex == seq!['0', '1'] ==> final(counts).established == old(counts).established
            + 1,
        conn@.state_hex == seq!['0', 'A'] ==> final(counts).listen == old(counts).listen + 1,
        conn@.state_hex == seq!['0', '2'] ==> final(counts).syn_sent == old(counts).syn_sent + 1,
        final(counts).established == old(counts).established + if conn@.state_hex
            == st_established() {
            1int
        } else {
            0
        },
        final(counts).close_wait == old(counts).close_wait + if conn@.state_hex == st_close_wait() {
            1int
        } else {
            0
        },
        final(counts).time_wait == old(counts).time_wait + if conn@.state_hex == st_time_wait() {
            1int
        } else {
            0
        },
        final(counts).listen == old(counts).listen + if conn@.state_hex == st_listen() {
            1int
        } else {
            0
        },
        final(counts).syn_sent == old(counts).syn_sent + if conn@.state_hex == st_syn_sent() {
            1int
        } else {
            0
        },
        final(counts).other == old(counts).other + if is_known_state(conn@.state_hex) {
            0int
        } else {
            1
        },
        listening_views(final(listening)@) == if conn@.state_hex == st_listen() {
            listening_views(old(listening)@).push(
                ListeningView {
                    local_addr: conn@.local_addr,
                    local_port: conn@.local_port,
                    proto: proto@,
                    inode: conn@.inode,
                },
            )
        } else {
            listening_views(old(listening)@)
        },
        final(ports)@ == if conn@.state_hex == st_listen() && old(ports)@.len()
            < MAX_LISTENING_PORTS {
            old(ports)@.insert(conn@.local_port)
        } else {
            old(ports)@
        },
{
    broadcast use vstd::std_specs::btree::group_btree_axioms, vstd::laws_cmp::group_laws_cmp;

    let st = chars_of(conn.state_hex.as_str());
    if state_is(st.as_slice(), '0', '1') {
        counts.established = counts.established + 1;
    } else if state_is(st.as_slice(), '0', '8') {
        counts.close_wait = counts.close_wait + 1;
    } else if state_is(st.as_slice(), '0', '6') {
        counts.time_wait = counts.time_wait + 1;
    } else if state_is(st.as_slice(), '0', 'A') {
        counts.listen = counts.listen + 1;
        if ports.len() < MAX_LISTENING_PORTS {
            ports.insert(conn.local_port);
        }
        let ghost prev = listening_views(listening@);
        listening.push(
            ListeningEntry {
                local_addr: conn.local_addr.clone(),
                local_port: conn.local_port,
                proto: string_of(proto),
                inode: conn.inode,
            },
        );
        assert(listening_views(listening@) =~= prev.push(
            ListeningView {
                local_addr: conn@.local_addr,
                local_port: conn@.local_port,
                proto: proto@,
                inode: conn@.inode,
            },
        ));
    } else if state_is(st.as_slice(), '0', '2') {
        counts.syn_sent = counts.syn_sent + 1;
    } else {
        counts.other = counts.other + 1;
    }
}

/// How many connections of `s` have the state column `code`.
pub open spec fn in_state(s: Seq<TcpConnView>, code: Seq<char>) -> nat {
    s.filter(|x: TcpConnView| x.state_hex == code).len()
}

proof fn lemma_count_state_is_filter(s: Seq<TcpConnView>, code: Seq<char>)
    ensures
        count_state(s, code) == in_state(s, code),
    decreases s.len(),
{
    reveal(Seq::filter);
    if s.len() > 0 {
        lemma_count_state_is_filter(s.drop_last(), code);
    }
}

/// The state counts of a table are its connections counted by the kernel's
/// state codes in the state column: `01` established, `08` close-wait, `06`
/// time-wait, `0A` listening and `02` SYN sent.
pub proof fn lemma_state_counts_by_code(c: SocketStateCounts, s: Seq<TcpConnView>)
    requires
        counts_of(c, s),
    ensures
        c.established == in_state(s, seq!['0', '1']),
        c.close_wait == in_state(s, seq!['0', '8']),
        c.time_wait == in_state(s, seq!['0', '6']),
        c.listen == in_state(s, seq!['0', 'A']),
        c.syn_sent == in_state(s, seq!['0', '2']),
{
    lemma_count_state_is_filter(s, st_established());
    lemma_count_state_is_filter(s, st_close_wait());
    lemma_count_state_is_filter(s, st_time_wait());
    lemma_count_state_is_filter(s, st_listen());
    lemma_count_state_is_filter(s, st_syn_sent());
    assert(st_established() =~= seq!['0', '1']);
    assert(st_close_wait() =~= seq!['0', '8']);
    assert(st_time_wait() =~= seq!['0', '6']);
    assert(st_listen() =~= seq!['0', 'A']);
    assert(st_syn_sent() =~= seq!['0', '2']);
}

pub open spec fn counts_of(c: SocketStateCounts, s: Seq<TcpConnView>) -> bool {
    &&& c.established == count_state(s, st_established())
    &&& c.close_wait == count_state(s, st_close_wait())
    &&& c.time_wait == count_state(s, st_time_wait())
    &&& c.listen == count_state(s, st_listen())
    &&& c.syn_sent == count_state(s, st_syn_sent())
    &&& c.other == count_other(s)
}

pub open spec fn tcp_label() -> Seq<char> {
    seq!['t', 'c', 'p']
}

pub open spec fn tcp6_label() -> Seq<char> {
    seq!['t', 'c', 'p', '6']
}

/// Tallies the TCP connections of `tcp` and then `tcp6`: the listening ones
/// (labelled `tcp` or `tcp6`), the count in each state, and the ascending
/// list of distinct listening ports (the first 500 found).
pub fn collect_listening_and_counts(tcp: &[TcpConnEntry], tcp6: &[TcpConnEntry]) -> (r: (
    Vec<ListeningEntry>,
    SocketStateCounts,
    Vec<u16>,
))
    requires
        tcp@.len() + tcp6@.len() <= u32::MAX,
    ensures
        listening_views(r.0@) == listening_of(conn_views(tcp@), tcp_label()) + listening_of(
            conn_views(tcp6@),
            tcp6_label(),
        ),
        counts_of(r.1, conn_views(tcp@) + conn_views(tcp6@)),
        r.2@.to_set() == port_set(conn_views(tcp@) + conn_views(tcp6@)),
        r.1.established + r.1.close_wait + r.1.time_wait + r.1.listen + r.1.syn_sent + r.1.other
            == tcp@.len() + tcp6@.len(),
        r.0@.len() == r.1.listen,
        r.1.established == in_state(conn_views(tcp@) + conn_views(tcp6@), seq!['0', '1']),
        r.1.close_wait == in_state(conn_views(tcp@) + conn_views(tcp6@), seq!['0', '8']),
        r.1.time_wait == in_state(conn_views(tcp@) + conn_views(tcp6@), seq!['0', '6']),
        r.1.listen == in_state(conn_views(tcp@) + conn_views(tcp6@), seq!['0', 'A']),
        r.1.syn_sent == in_state(conn_views(tcp@) + conn_views(tcp6@), seq!['0', '2']),
        strictly_increasing(r.2@),
        r.2@.len() <= MAX_LISTENING_PORTS,
        forall|k: int|
            0 <= k < r.2@.len() ==> listens_on(
                conn_views(tcp@) + conn_views(tcp6@),
                #[trigger] r.2@[k],
            ),
{
    let mut listening: Vec<ListeningEntry> = Vec::new();
    let mut counts = SocketStateCounts {
        established: 0,
        close_wait: 0,
        time_wait: 0,
        listen: 0,
        syn_sent: 0,
        other: 0,
    };
    let mut ports: BTreeSet<u16> = BTreeSet::new();
    let ghost all = conn_views(tcp@) + conn_views(tcp6@);
    let tcp_name: [char; 3] = ['t', 'c', 'p'];
    let tcp6_name: [char; 4] = ['t', 'c', 'p', '6'];
    assert(tcp_name@ =~= tcp_label());
    assert(tcp6_name@ =~= tcp6_label());
    let mut i: usize = 0;
    assert(all.take(0) =~= seq![]);
    assert(conn_views(tcp@).take(0) =~= seq![]);
    while i < tcp.len()
        invariant
            i <= tcp@.len(),
            tcp@.len() + tcp6@.len() <= u32::MAX,
            all == conn_views(tcp@) + conn_views(tcp6@),
            tcp_name@ == tcp_label(),
            counts_of(counts, all.take(i as int)),
            listening_views(listening@) == listening_of(
                conn_views(tcp@).take(i as int),
                tcp_label(),
            ),
            ports@ == port_set(all.take(i as int)),
        decreases tcp.len() - i,
    {
        proof {
            lemma_counts_partition(all.take(i as int));
            assert(all.take(i + 1).drop_last() =~= all.take(i as int));
            assert(all.take(i + 1).last() == tcp@[i as int]@);
            assert(conn_views(tcp@).take(i + 1).drop_last() =~= conn_views(tcp@).take(i as int));
        }
        tally(&tcp[i], tcp_name.as_slice(), &mut listening, &mut counts, &mut ports);
        i = i + 1;
    }
    assert(conn_views(tcp@).take(i as int) =~= conn_views(tcp@));
    let ghost first = listening_views(listening@);
    let mut k: usize = 0;
    assert(conn_views(tcp6@).take(0) =~= seq![]);
    assert(first =~= first + listening_of(conn_views(tcp6@).take(0), tcp6_label()));
    while k < tcp6.len()
        invariant
            k <= tcp6@.len(),
            i == tcp@.len(),
            tcp@.len() + tcp6@.len() <= u32::MAX,
            all == conn_views(tcp@) + conn_views(tcp6@),
            tcp6_name@ == tcp6_label(),
            counts_of(counts, all.take(i + k)),
            listening_views(listening@) == first + listening_of(
                conn_views(tcp6@).take(k as int),
                tcp6_label(),
            ),
            ports@ == port_set(all.take(i + k)),
        decreases tcp6.len() - k,
    {
        proof {
            lemma_counts_partition(all.take(i + k));
            assert(all.take(i + k + 1).drop_last() =~= all.take(i + k));
            assert(all.take(i + k + 1).last() == tcp6@[k as int]@);
            assert(conn_views(tcp6@).take(k + 1).drop_last() =~= conn_views(tcp6@).take(k as int));
        }
        let ghost before = listening_views(listening@);
        tally(&tcp6[k], tcp6_name.as_slice(), &mut listening, &mut counts, &mut ports);
        proof {
            let tk = conn_views(tcp6@).take(k + 1);
            assert(listening_views(listening@) =~= first + listening_of(tk, tcp6_label()));
        }
        k = k + 1;
    }
    proof {
        assert(all.take(i + k) =~= all);
        assert(conn_views(tcp6@).take(k as int) =~= conn_views(tcp6@));
        lemma_counts_partition(all);
        lemma_listening_len(conn_views(tcp@), tcp_label());
        lemma_listening_len(conn_views(tcp6@), tcp6_label());
        lemma_count_state_append(conn_views(tcp@), conn_views(tcp6@), st_listen());
        assert(listening@.len() == listening_views(listening@).len());
    }
    let list = ports_in_order(&ports);
    proof {
        lemma_state_counts_by_code(counts, all);
        lemma_port_list(list@, all);
    }
    (listening, counts, list)
}

/// An ascending list of the port set of `s` is at most 500 long and holds
/// only ports that some connection of `s` listens on.
proof fn lemma_port_list(l: Seq<u16>, s: Seq<TcpConnView>)
    requires
        l.to_set() == port_set(s),
        strictly_increasing(l),
    ensures
        l.len() <= MAX_LISTENING_PORTS,
        forall|k: int| 0 <= k < l.len() ==> listens_on(s, #[trigger] l[k]),
{
    lemma_ports_props(s);
    assert(l.no_duplicates());
    l.unique_seq_to_set();
    assert forall|k: int| 0 <= k < l.len() implies listens_on(s, #[trigger] l[k]) by {
        assert(l.to_set().contains(l[k]));
    }
}

proof fn lemma_count_state_append(a: Seq<TcpConnView>, b: Seq<TcpConnView>, code: Seq<char>)
    ensures
        count_state(a + b, code) == count_state(a, code) + count_state(b, code),
    decreases b.len(),
{
    if b.len() == 0 {
        assert(a + b =~= a);
    } else {
        lemma_count_state_append(a, b.drop_last(), code);
        assert((a + b).drop_last() =~= a + b.drop_last());
    }
}
} // verus!
