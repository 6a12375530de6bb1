//! RT-11: network interfaces, routes and tunnels.
use vstd::prelude::*;

use crate::collector::{
    CollectionStatus, ProbeOutcome, StatusView, probe_from_presence, probe_verdict, probe_view,
    str_views, strings_view,
};
use crate::fs::FsRoots;
use crate::text::{chars_eq, chars_of, string_of};

verus! {

/// The RT-11 collector.
pub struct Netdev;

/// The directory whose entries are the network interfaces.
pub const PROBE_DIR: &'static str = "/sys/class/net";

/// The routing and neighbour tables that RT-11 reads.
pub const PROBE_FILES: [&'static str; 4] = [
    "/proc/net/route",
    "/proc/net/ipv6_route",
    "/proc/net/arp",
    "/proc/net/netstat",
];

/// Why RT-11 cannot run.
pub const UNAVAILABLE_REASON: &'static str = "net sysfs and proc files unavailable";

/// The degraded entry for an interface directory that is empty or missing.
pub const SYSFS_MISSING: &'static str = "sysfs interface dir empty/missing";

/// The degraded entry for a collection that read no interface.
pub const NO_INTERFACES: &'static str = "no interfaces read from sysfs";

/// The link kinds that are tunnels.
pub const TUNNEL_KINDS: [&'static str; 11] = [
    "sit",
    "ipip",
    "gre",
    "ip6gre",
    "ip6tnl",
    "vti",
    "xfrm",
    "gretap",
    "ip6gretap",
    "vxlan",
    "geneve",
];

/// The most tunnels that the record lists.
pub const MAX_TUNNELS: usize = 100;

/// The most addresses that the record lists.
pub const MAX_ADDRESSES: usize = 200;

/// A network link as the kernel reports it: its index, its name (empty
/// when it has none) and its kind, when it has one.
pub struct LinkEntry {
    pub ifindex: u32,
    pub name: String,
    pub kind: Option<String>,
}

impl View for LinkEntry {
    type V = (u32, Seq<char>, Option<Seq<char>>);

    open spec fn view(&self) -> (u32, Seq<char>, Option<Seq<char>>) {
        (
            self.ifindex,
            self.name@,
            match self.kind {
                Some(k) => Some(k@),
                None => None,
            },
        )
    }
}

pub open spec fn links_view(v: Seq<LinkEntry>) -> Seq<(u32, Seq<char>, Option<Seq<char>>)> {
    v.map_values(|l: LinkEntry| l@)
}

/// Whether a link of this kind is a tunnel.
pub open spec fn is_tunnel_spec(kind: Seq<char>) -> bool {
    str_views(TUNNEL_KINDS@).contains(kind)
}

/// The tunnels among `links`, in order.
pub open spec fn tunnels_of(links: Seq<(u32, Seq<char>, Option<Seq<char>>)>) -> Seq<
    (u32, Seq<char>, Option<Seq<char>>),
>
    decreases links.len(),
{
    if links.len() == 0 {
        seq![]
    } else {
        let prev = tunnels_of(links.drop_last());
        let l = links.last();
        if l.2 is Some && is_tunnel_spec(l.2->0) {
            prev.push(l)
        } else {
            prev
        }
    }
}

/// The first `n` entries of `s`, all of them when there are fewer.
pub open spec fn at_most<T>(s: Seq<T>, n: nat) -> Seq<T> {
    if s.len() <= n {
        s
    } else {
        s.take(n as int)
    }
}

/// The tunnel kinds are exactly these eleven: `sit`, `ipip`, `gre`,
/// `ip6gre`, `ip6tnl`, `vti`, `xfrm`, `gretap`, `ip6gretap`, `vxlan` and
/// `geneve`.
pub proof fn lemma_tunnel_kinds(kind: Seq<char>)
    ensures
        is_tunnel_spec(kind) <==> (kind == "sit"@ || kind == "ipip"@ || kind == "gre"@ || kind == "ip6gre"@ || kind == "ip6tnl"@ || kind == "vti"@ || kind == "xfrm"@ || kind == "gretap"@ || kind == "ip6gretap"@ || kind == "vxlan"@ || kind == "geneve"@),
{
    assert(str_views(TUNNEL_KINDS@) =~= seq!["sit"@, "ipip"@, "gre"@, "ip6gre"@, "ip6tnl"@, "vti"@, "xfrm"@, "gretap"@, "ip6gretap"@, "vxlan"@, "geneve"@]);
}

/// Whether a link kind is one of the tunnel kinds: one of the eleven names
/// of `TUNNEL_KINDS`.
pub fn is_tunnel_kind(kind: &str) -> (r: bool)
    ensures
        r == is_tunnel_spec(kind@),
        r <==> exists|i: int| 0 <= i < 11 && TUNNEL_KINDS@[i]@ == kind@,
        r <==> (kind@ == "sit"@ || kind@ == "ipip"@ || kind@ == "gre"@ || kind@ == "ip6gre"@ || kind@ == "ip6tnl"@ || kind@ == "vti"@ || kind@ == "xfrm"@ || kind@ == "gretap"@ || kind@ == "ip6gretap"@ || kind@ == "vxlan"@ || kind@ == "geneve"@),
{
    let c = chars_of(kind);
    let mut i: usize = 0;
    while i < TUNNEL_KINDS.len()
        invariant
            i <= TUNNEL_KINDS@.len(),
            c@ == kind@,
            forall|j: int| 0 <= j < i ==> TUNNEL_KINDS@[j]@ != kind@,
        decreases TUNNEL_KINDS.len() - i,
    {
        let t = chars_of(TUNNEL_KINDS[i]);
        if chars_eq(t.as_slice(), c.as_slice()) {
            assert(str_views(TUNNEL_KINDS@)[i as int] == kind@);
            proof {
                lemma_tunnel_kinds(kind@);
            }
            return true;
        }
        i = i + 1;
    }
    proof {
        if is_tunnel_spec(kind@) {
            let w = choose|w: int|
                0 <= w < str_views(TUNNEL_KINDS@).len() && str_views(TUNNEL_KINDS@)[w] == kind@;
            assert(TUNNEL_KINDS@[w]@ == kind@);
        }
        lemma_tunnel_kinds(kind@);
    }
    false
}

fn clone_link(l: &LinkEntry) -> (r: LinkEntry)
    ensures
        r@ == l@,
{
    LinkEntry {
        ifindex: l.ifindex,
        name: l.name.clone(),
        kind: match &l.kind {
            Some(k) => Some(k.clone()),
            None => None,
        },
    }
}

/// The tunnels that the record lists: the first `MAX_TUNNELS` links, in
/// the kernel's order, whose kind is a tunnel kind.
pub fn select_tunnels(links: &Vec<LinkEntry>) -> (r: Vec<LinkEntry>)
    ensures
        links_view(r@) == at_most(tunnels_of(links_view(links@)), MAX_TUNNELS as nat),
{
    let mut out: Vec<LinkEntry> = Vec::new();
    let mut i: usize = 0;
    while i < links.len()
        invariant
            i <= links@.len(),
            links_view(out@) == at_most(
                tunnels_of(links_view(links@).take(i as int)),
                MAX_TUNNELS as nat,
            ),
        decreases links.len() - i,
    {
        let ghost s = links_view(links@).take(i + 1);
        assert(s.drop_last() =~= links_view(links@).take(i as int));
        assert(s.last() == links@[i as int]@);
        let ghost prev = tunnels_of(links_view(links@).take(i as int));
        let tunnel = match &links[i].kind {
            Some(k) => is_tunnel_kind(k.as_str()),
            None => false,
        };
        if tunnel && out.len() < MAX_TUNNELS {
            let l = clone_link(&links[i]);
            let ghost before = links_view(out@);
            out.push(l);
            assert(links_view(out@) =~= before.push(links@[i as int]@));
            assert(tunnels_of(s) == prev.push(links@[i as int]@));
            assert(at_most(tunnels_of(s), MAX_TUNNELS as nat) =~= at_most(prev, MAX_TUNNELS as nat).push(links@[i as int]@));
        } else if tunnel {
            assert(tunnels_of(s) == prev.push(links@[i as int]@));
            assert(at_most(tunnels_of(s), MAX_TUNNELS as nat) =~= at_most(prev, MAX_TUNNELS as nat));
        }
        i = i + 1;
    }
    assert(links_view(links@).take(i as int) =~= links_view(links@));
    out
}

/// The degraded list of a collection: what the probe found missing, and
/// the note that no interface was read when none was.
pub open spec fn netdev_degraded(degraded: Seq<Seq<char>>, iface_count: u64) -> Seq<Seq<char>> {
    if iface_count == 0 {
        degraded.push(NO_INTERFACES@)
    } else {
        degraded
    }
}

/// The RT-11 probe verdict, given which of its tables exist and whether the
/// interface directory lists any interface. It cannot run only when there is
/// no interface and none of its tables; otherwise an empty interface
/// directory is listed first among the degraded inputs, then the missing
/// tables.
pub open spec fn netdev_verdict(present: Seq<bool>, has_ifs: bool) -> (
    bool,
    Seq<Seq<char>>,
    Option<Seq<char>>,
) {
    let v = probe_verdict(str_views(PROBE_FILES@), present, "all net proc files missing"@);
    if !has_ifs && !v.0 {
        (false, seq![], Some(UNAVAILABLE_REASON@))
    } else {
        (
            true,
            (if has_ifs {
                seq![]
            } else {
                seq![SYSFS_MISSING@]
            }) + v.1,
            None,
        )
    }
}

impl Netdev {
    /// Decides the probe from which of the RT-11 tables exist and whether
    /// the interface directory lists any interface.
    pub fn probe_from(&self, present: &[bool], has_ifs: bool, roots: &FsRoots) -> (r: ProbeOutcome)
        requires
            present@.len() == PROBE_FILES@.len(),
        ensures
            probe_view(r) == netdev_verdict(present@, has_ifs),
            r.roots@ == roots@,
    {
        let files = probe_from_presence(
            PROBE_FILES.as_slice(),
            present,
            "all net proc files missing",
            roots.clone(),
        );
        if !has_ifs && !files.available {
            return ProbeOutcome {
                available: false,
                degraded: Vec::new(),
                reason: Some(string_of(chars_of(UNAVAILABLE_REASON).as_slice())),
                roots: roots.clone(),
            };
        }
        let mut degraded: Vec<String> = Vec::new();
        if !has_ifs {
            degraded.push(string_of(chars_of(SYSFS_MISSING).as_slice()));
        }
        let ghost head = strings_view(degraded@);
        assert(head =~= if has_ifs {
            Seq::<Seq<char>>::empty()
        } else {
            seq![SYSFS_MISSING@]
        });
        let mut i: usize = 0;
        while i < files.degraded.len()
            invariant
                i <= files.degraded@.len(),
                strings_view(degraded@) =~= head + strings_view(files.degraded@).take(i as int),
            decreases files.degraded.len() - i,
        {
            let ghost before = strings_view(degraded@);
            degraded.push(files.degraded[i].clone());
            assert(strings_view(files.degraded@).take(i + 1) =~= strings_view(files.degraded@).take(
                i as int,
            ).push(files.degraded@[i as int]@));
            assert(strings_view(degraded@) =~= before.push(files.degraded@[i as int]@));
            i = i + 1;
        }
        assert(strings_view(files.degraded@).take(i as int) =~= strings_view(files.degraded@));
        ProbeOutcome { available: true, degraded, reason: None, roots: roots.clone() }
    }

    /// Which RT-11 inputs exist under `roots`, given whether the interface
    /// directory lists any interface.
    pub fn probe(&self, roots: &FsRoots, has_ifs: bool) -> (r: ProbeOutcome)
        ensures
            exists|p: Seq<bool>|
                p.len() == PROBE_FILES@.len() && #[trigger] netdev_verdict(p, has_ifs)
                    == probe_view(r),
            r.roots@ == roots@,
    {
        let mut present: Vec<bool> = Vec::new();
        let mut i: usize = 0;
        while i < PROBE_FILES.len()
            invariant
                i <= PROBE_FILES@.len(),
                present@.len() == i,
            decreases PROBE_FILES.len() - i,
        {
            present.push(roots.exists_at(PROBE_FILES[i]));
            i = i + 1;
        }
        let r = self.probe_from(present.as_slice(), has_ifs, roots);
        assert(netdev_verdict(present@, has_ifs) == probe_view(r));
        r
    }

    /// The status after the record was written, given what the probe found
    /// missing and how many interfaces were read.
    pub fn status(&self, degraded: &Vec<String>, iface_count: u64) -> (r: CollectionStatus)
        ensures
            r@ == if netdev_degraded(strings_view(degraded@), iface_count).len() == 0 {
                StatusView::Complete
            } else {
                StatusView::Degraded(netdev_degraded(strings_view(degraded@), iface_count))
            },
    {
        let mut missing = crate::collector::clone_strings(degraded);
        if iface_count == 0 {
            let ghost before = strings_view(missing@);
            missing.push(string_of(chars_of(NO_INTERFACES).as_slice()));
            assert(strings_view(missing@) =~= before.push(NO_INTERFACES@));
        }
        if missing.len() == 0 {
            CollectionStatus::Complete
        } else {
            CollectionStatus::Degraded { missing }
        }
    }
}

} // verus!
