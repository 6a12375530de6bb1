//! Character-level text handling shared by the parsers: the exact meaning of
//! `lines`, `split_whitespace`, `trim` and integer parsing, stated over
//! sequences of characters and implemented by verified loops.
use vstd::prelude::*;

verus! {

/// Unicode `White_Space`, the set that `char::is_whitespace` tests.
pub open spec fn is_ws(c: char) -> bool {
    ||| c == ' '
    ||| c == '\t'
    ||| c == '\n'
    ||| c == '\x0B'
    ||| c == '\x0C'
    ||| c == '\r'
    ||| c == '\u{85}'
    ||| c == '\u{A0}'
    ||| c == '\u{1680}'
    ||| ('\u{2000}' <= c && c <= '\u{200A}')
    ||| c == '\u{2028}'
    ||| c == '\u{2029}'
    ||| c == '\u{202F}'
    ||| c == '\u{205F}'
    ||| c == '\u{3000}'
}

pub fn is_whitespace(c: char) -> (b: bool)
    ensures
        b == is_ws(c),
{
    c == ' ' || c == '\t' || c == '\n' || c == '\x0B' || c == '\x0C' || c == '\r' || c
        == '\u{85}' || c == '\u{A0}' || c == '\u{1680}' || ('\u{2000}' <= c && c <= '\u{200A}')
        || c == '\u{2028}' || c == '\u{2029}' || c == '\u{202F}' || c == '\u{205F}' || c
        == '\u{3000}'
}

/// The view of a vector of character vectors.
pub open spec fn seqs_of(v: Seq<Vec<char>>) -> Seq<Seq<char>> {
    v.map_values(|l: Vec<char>| l@)
}

/// A line with one carriage return removed from its end, as `str::lines` does
/// for a line that a newline terminates.
pub open spec fn strip_cr(line: Seq<char>) -> Seq<char> {
    if line.len() > 0 && line.last() == '\r' {
        line.drop_last()
    } else {
        line
    }
}

/// The lines of `s` (with `cur` the part of the current line already read):
/// split at each newline; a newline-terminated line loses a final carriage
/// return; no empty line follows a final newline.
pub open spec fn lines_acc(s: Seq<char>, cur: Seq<char>) -> Seq<Seq<char>>
    decreases s.len(),
{
    if s.len() == 0 {
        if cur.len() == 0 {
            seq![]
        } else {
            seq![cur]
        }
    } else if s[0] == '\n' {
        seq![strip_cr(cur)] + lines_acc(s.drop_first(), seq![])
    } else {
        lines_acc(s.drop_first(), cur.push(s[0]))
    }
}

/// What `str::lines` yields.
pub open spec fn lines_of(s: Seq<char>) -> Seq<Seq<char>> {
    lines_acc(s, seq![])
}

/// The whitespace-separated words of `s` (with `cur` the part of the current
/// word already read), as `str::split_whitespace` yields them.
pub open spec fn words_acc(s: Seq<char>, cur: Seq<char>) -> Seq<Seq<char>>
    decreases s.len(),
{
    if s.len() == 0 {
        if cur.len() == 0 {
            seq![]
        } else {
            seq![cur]
        }
    } else if is_ws(s[0]) {
        (if cur.len() == 0 {
            seq![]
        } else {
            seq![cur]
        }) + words_acc(s.drop_first(), seq![])
    } else {
        words_acc(s.drop_first(), cur.push(s[0]))
    }
}

pub open spec fn words_of(s: Seq<char>) -> Seq<Seq<char>> {
    words_acc(s, seq![])
}

/// The pieces of `s` between occurrences of `sep` (with `cur` the part of the
/// current piece already read), as `str::split` with a character yields them.
pub open spec fn split_acc(s: Seq<char>, sep: char, cur: Seq<char>) -> Seq<Seq<char>>
    decreases s.len(),
{
    if s.len() == 0 {
        seq![cur]
    } else if s[0] == sep {
        seq![cur] + split_acc(s.drop_first(), sep, seq![])
    } else {
        split_acc(s.drop_first(), sep, cur.push(s[0]))
    }
}

pub open spec fn split_of(s: Seq<char>, sep: char) -> Seq<Seq<char>> {
    split_acc(s, sep, seq![])
}

pub open spec fn trim_start(s: Seq<char>) -> Seq<char>
    decreases s.len(),
{
    if s.len() > 0 && is_ws(s[0]) {
        trim_start(s.drop_first())
    } else {
        s
    }
}

pub open spec fn trim_end(s: Seq<char>) -> Seq<char>
    decreases s.len(),
{
    if s.len() > 0 && is_ws(s.last()) {
        trim_end(s.drop_last())
    } else {
        s
    }
}

/// What `str::trim` leaves.
pub open spec fn trim(s: Seq<char>) -> Seq<char> {
    trim_end(trim_start(s))
}

/// The value of a digit in the given radix (at most 16), if it is one.
pub open spec fn digit_value(c: char, radix: nat) -> int {
    if '0' <= c && c <= '9' {
        c as int - '0' as int
    } else if 'a' <= c && c <= 'f' {
        c as int - 'a' as int + 10
    } else if 'A' <= c && c <= 'F' {
        c as int - 'A' as int + 10
    } else {
        16
    }
}

pub open spec fn is_digit(c: char, radix: nat) -> bool {
    digit_value(c, radix) < radix
}

pub open spec fn all_digits(s: Seq<char>, radix: nat) -> bool {
    forall|i: int| 0 <= i < s.len() ==> is_digit(#[trigger] s[i], radix)
}

/// The number that the digits `s` write in the given radix.
pub open spec fn digits_value(s: Seq<char>, radix: nat) -> int
    decreases s.len(),
{
    if s.len() == 0 {
        0
    } else {
        digits_value(s.drop_last(), radix) * radix + digit_value(s.last(), radix)
    }
}

/// What `from_str_radix` of an unsigned type whose largest value is `max`
/// gives: an optional `+`, then at least one digit, and a value in range.
pub open spec fn parse_unsigned(s: Seq<char>, radix: nat, max: int) -> Option<int> {
    let body = if s.len() > 0 && s[0] == '+' {
        s.drop_first()
    } else {
        s
    };
    if body.len() == 0 || !all_digits(body, radix) || digits_value(body, radix) > max {
        None
    } else {
        Some(digits_value(body, radix))
    }
}

/// What `str::parse` of a signed decimal type with range `min..=max` gives:
/// an optional sign, then at least one digit, and a value in range.
pub open spec fn parse_signed(s: Seq<char>, min: int, max: int) -> Option<int> {
    let neg = s.len() > 0 && s[0] == '-';
    let body = if s.len() > 0 && (s[0] == '+' || s[0] == '-') {
        s.drop_first()
    } else {
        s
    };
    if body.len() == 0 || !all_digits(body, 10) {
        None
    } else {
        let v = if neg {
            -digits_value(body, 10)
        } else {
            digits_value(body, 10)
        };
        if min <= v && v <= max {
            Some(v)
        } else {
            None
        }
    }
}

/// The decimal digits of `n`, without leading zeros.
pub open spec fn decimal(n: nat) -> Seq<char>
    decreases n,
{
    if n < 10 {
        seq![('0' as u8 + n as u8) as char]
    } else {
        decimal(n / 10).push(('0' as u8 + (n % 10) as u8) as char)
    }
}

/// The number of bytes that the UTF-8 encoding of a character takes.
pub open spec fn char_utf8_len(c: char) -> nat {
    if (c as u32) < 0x80 {
        1
    } else if (c as u32) < 0x800 {
        2
    } else if (c as u32) < 0x10000 {
        3
    } else {
        4
    }
}

/// The number of bytes of the UTF-8 encoding of `s`, what `str::len` gives.
pub open spec fn utf8_len(s: Seq<char>) -> nat
    decreases s.len(),
{
    if s.len() == 0 {
        0
    } else {
        utf8_len(s.drop_last()) + char_utf8_len(s.last())
    }
}

/// The UTF-8 length of a character (`char::len_utf8`).
pub fn utf8_width(c: char) -> (n: usize)
    ensures
        n == char_utf8_len(c),
{
    if (c as u32) < 0x80 {
        1
    } else if (c as u32) < 0x800 {
        2
    } else if (c as u32) < 0x10000 {
        3
    } else {
        4
    }
}

/// A prefix of `s` takes no more UTF-8 bytes than `s`.
pub proof fn lemma_utf8_len_prefix(s: Seq<char>, k: int)
    requires
        0 <= k <= s.len(),
    ensures
        utf8_len(s) >= utf8_len(s.take(k)),
    decreases s.len(),
{
    if k == s.len() {
        assert(s.take(k) =~= s);
    } else {
        lemma_utf8_len_prefix(s.drop_last(), k);
        assert(s.drop_last().take(k) =~= s.take(k));
    }
}

pub proof fn lemma_digits_value_monotone(s: Seq<char>, k: int, radix: nat)
    requires
        0 <= k <= s.len(),
        radix >= 1,
        all_digits(s, radix),
    ensures
        digits_value(s, radix) >= digits_value(s.take(k), radix),
        digits_value(s, radix) >= 0,
    decreases s.len(),
{
    if s.len() == 0 {
        assert(s.take(k) =~= s);
    } else if k == s.len() {
        assert(s.take(k) =~= s);
        assert(all_digits(s.drop_last(), radix));
        lemma_digits_value_monotone(s.drop_last(), s.len() - 1, radix);
        assert(s.drop_last().take(s.len() - 1) =~= s.drop_last());
        assert(digits_value(s.drop_last(), radix) * radix >= digits_value(s.drop_last(), radix))
            by (nonlinear_arith)
            requires
                digits_value(s.drop_last(), radix) >= 0,
                radix >= 1,
        ;
    } else {
        assert(all_digits(s.drop_last(), radix));
        lemma_digits_value_monotone(s.drop_last(), k, radix);
        assert(s.drop_last().take(k) =~= s.take(k));
        assert(digits_value(s.drop_last(), radix) * radix >= digits_value(s.drop_last(), radix))
            by (nonlinear_arith)
            requires
                digits_value(s.drop_last(), radix) >= 0,
                radix >= 1,
        ;
    }
}

/// The characters of a string slice, in order.
pub fn chars_of(s: &str) -> (v: Vec<char>)
    ensures
        v@ == s@,
{
    let mut v: Vec<char> = Vec::new();
    for c in it: s.chars()
        invariant
            v@ == it.seq().take(it.index() as int),
            it.seq() == s@,
    {
        v.push(c);
    }
    v
}

/// Collects the characters into a `String` (`FromIterator<&char>` for
/// `String`). Claimed: the string holds exactly these characters, in order.
#[verifier::external_body]
pub(crate) fn string_of(v: &[char]) -> (s: String)
    ensures
        s@ == v@,
{
    v.iter().collect()
}

/// A copy of `s[from..to]`.
pub fn sub_chars(s: &[char], from: usize, to: usize) -> (r: Vec<char>)
    requires
        from <= to <= s@.len(),
    ensures
        r@ == s@.subrange(from as int, to as int),
{
    let mut r: Vec<char> = Vec::new();
    let mut i = from;
    while i < to
        invariant
            from <= i <= to <= s@.len(),
            r@ == s@.subrange(from as int, i as int),
        decreases to - i,
    {
        r.push(s[i]);
        i = i + 1;
    }
    r
}

/// A copy of `s[from..to]`.
pub fn sub_bytes(s: &[u8], from: usize, to: usize) -> (r: Vec<u8>)
    requires
        from <= to <= s@.len(),
    ensures
        r@ == s@.subrange(from as int, to as int),
{
    let mut r: Vec<u8> = Vec::new();
    let mut i = from;
    while i < to
        invariant
            from <= i <= to <= s@.len(),
            r@ == s@.subrange(from as int, i as int),
        decreases to - i,
    {
        r.push(s[i]);
        i = i + 1;
    }
    r
}

/// Whether two character sequences are equal.
pub fn chars_eq(a: &[char], b: &[char]) -> (r: bool)
    ensures
        r == (a@ == b@),
{
    if a.len() != b.len() {
        return false;
    }
    let mut i: usize = 0;
    while i < a.len()
        invariant
            a@.len() == b@.len(),
            i <= a@.len(),
            forall|j: int| 0 <= j < i ==> a@[j] == b@[j],
        decreases a.len() - i,
    {
        if a[i] != b[i] {
            return false;
        }
        i = i + 1;
    }
    assert(a@ =~= b@);
    true
}

/// Whether `s` begins with `prefix`.
pub fn starts_with(s: &[char], prefix: &[char]) -> (r: bool)
    ensures
        r == (prefix@.len() <= s@.len() && s@.subrange(0, prefix@.len() as int) == prefix@),
{
    if prefix.len() > s.len() {
        return false;
    }
    let mut i: usize = 0;
    while i < prefix.len()
        invariant
            prefix@.len() <= s@.len(),
            i <= prefix@.len(),
            forall|j: int| 0 <= j < i ==> s@[j] == prefix@[j],
        decreases prefix.len() - i,
    {
        if s[i] != prefix[i] {
            assert(s@.subrange(0, prefix@.len() as int)[i as int] != prefix@[i as int]);
            return false;
        }
        i = i + 1;
    }
    assert(s@.subrange(0, prefix@.len() as int) =~= prefix@);
    true
}

/// Whether `s` begins with `prefix`.
pub fn str_starts_with(s: &str, prefix: &str) -> (r: bool)
    ensures
        r == (prefix@.len() <= s@.len() && s@.take(prefix@.len() as int) == prefix@),
{
    let c = chars_of(s);
    let p = chars_of(prefix);
    let r = starts_with(c.as_slice(), p.as_slice());
    proof {
        if prefix@.len() <= s@.len() {
            assert(s@.take(prefix@.len() as int) =~= s@.subrange(0, prefix@.len() as int));
        }
    }
    r
}

/// The lines of `s`, as `str::lines` yields them.
pub fn lines(s: &[char]) -> (out: Vec<Vec<char>>)
    ensures
        seqs_of(out@) == lines_of(s@),
{
    let mut out: Vec<Vec<char>> = Vec::new();
    let mut cur: Vec<char> = Vec::new();
    let mut i: usize = 0;
    assert(s@.skip(0) =~= s@);
    while i < s.len()
        invariant
            i <= s@.len(),
            seqs_of(out@) + lines_acc(s@.skip(i as int), cur@) == lines_of(s@),
        decreases s.len() - i,
    {
        let ghost rest = s@.skip(i as int);
        assert(rest.drop_first() =~= s@.skip(i + 1));
        if s[i] == '\n' {
            let ghost old_cur = cur@;
            if cur.len() > 0 && cur[cur.len() - 1] == '\r' {
                cur.pop();
            }
            assert(cur@ == strip_cr(old_cur));
            let ghost prev = seqs_of(out@);
            out.push(cur);
            assert(seqs_of(out@) =~= prev.push(strip_cr(old_cur)));
            cur = Vec::new();
            assert(seqs_of(out@) + lines_acc(s@.skip(i + 1), cur@) =~= prev + lines_acc(
                rest,
                old_cur,
            ));
        } else {
            cur.push(s[i]);
        }
        i = i + 1;
    }
    if cur.len() > 0 {
        let ghost prev = seqs_of(out@);
        let ghost c = cur@;
        out.push(cur);
        assert(seqs_of(out@) =~= prev.push(c));
        assert(seqs_of(out@) =~= prev + lines_acc(s@.skip(i as int), c));
    } else {
        assert(seqs_of(out@) =~= seqs_of(out@) + lines_acc(s@.skip(i as int), cur@));
    }
    out
}

/// The whitespace-separated words of `s`, as `str::split_whitespace` yields them.
pub fn words(s: &[char]) -> (out: Vec<Vec<char>>)
    ensures
        seqs_of(out@) == words_of(s@),
{
    let mut out: Vec<Vec<char>> = Vec::new();
    let mut cur: Vec<char> = Vec::new();
    let mut i: usize = 0;
    assert(s@.skip(0) =~= s@);
    while i < s.len()
        invariant
            i <= s@.len(),
            seqs_of(out@) + words_acc(s@.skip(i as int), cur@) == words_of(s@),
        decreases s.len() - i,
    {
        let ghost rest = s@.skip(i as int);
        assert(rest.drop_first() =~= s@.skip(i + 1));
        if is_whitespace(s[i]) {
            let ghost old_cur = cur@;
            let ghost prev = seqs_of(out@);
            if cur.len() > 0 {
                out.push(cur);
                assert(seqs_of(out@) =~= prev.push(old_cur));
            } else {
                assert(seqs_of(out@) =~= prev);
            }
            cur = Vec::new();
            assert(seqs_of(out@) + words_acc(s@.skip(i + 1), cur@) =~= prev + words_acc(
                rest,
                old_cur,
            ));
        } else {
            cur.push(s[i]);
        }
        i = i + 1;
    }
    if cur.len() > 0 {
        let ghost prev = seqs_of(out@);
        let ghost c = cur@;
        out.push(cur);
        assert(seqs_of(out@) =~= prev.push(c));
        assert(seqs_of(out@) =~= prev + words_acc(s@.skip(i as int), c));
    } else {
        assert(seqs_of(out@) =~= seqs_of(out@) + words_acc(s@.skip(i as int), cur@));
    }
    out
}

/// The pieces of `s` between occurrences of `sep`, as `str::split` yields them.
pub fn split_char(s: &[char], sep: char) -> (out: Vec<Vec<char>>)
    ensures
        seqs_of(out@) == split_of(s@, sep),
{
    let mut out: Vec<Vec<char>> = Vec::new();
    let mut cur: Vec<char> = Vec::new();
    let mut i: usize = 0;
    assert(s@.skip(0) =~= s@);
    while i < s.len()
        invariant
            i <= s@.len(),
            seqs_of(out@) + split_acc(s@.skip(i as int), sep, cur@) == split_of(s@, sep),
        decreases s.len() - i,
    {
        let ghost rest = s@.skip(i as int);
        assert(rest.drop_first() =~= s@.skip(i + 1));
        if s[i] == sep {
            let ghost old_cur = cur@;
            let ghost prev = seqs_of(out@);
            out.push(cur);
            assert(seqs_of(out@) =~= prev.push(old_cur));
            cur = Vec::new();
            assert(seqs_of(out@) + split_acc(s@.skip(i + 1), sep, cur@) =~= prev + split_acc(
                rest,
                sep,
                old_cur,
            ));
        } else {
            cur.push(s[i]);
        }
        i = i + 1;
    }
    let ghost prev = seqs_of(out@);
    let ghost c = cur@;
    out.push(cur);
    assert(seqs_of(out@) =~= prev.push(c));
    assert(seqs_of(out@) =~= prev + split_acc(s@.skip(i as int), sep, c));
    out
}

proof fn lemma_trim_start_skip(s: Seq<char>, i: int)
    requires
        0 <= i <= s.len(),
        forall|j: int| 0 <= j < i ==> is_ws(#[trigger] s[j]),
    ensures
        trim_start(s) == trim_start(s.skip(i)),
    decreases i,
{
    if i > 0 {
        assert(s.drop_first().skip(i - 1) =~= s.skip(i));
        lemma_trim_start_skip(s.drop_first(), i - 1);
    } else {
        assert(s.skip(0) =~= s);
    }
}

proof fn lemma_trim_end_take(s: Seq<char>, k: int)
    requires
        0 <= k <= s.len(),
        forall|j: int| k <= j < s.len() ==> is_ws(#[trigger] s[j]),
    ensures
        trim_end(s) == trim_end(s.take(k)),
    decreases s.len() - k,
{
    if k < s.len() {
        assert(s.drop_last().take(k) =~= s.take(k));
        lemma_trim_end_take(s.drop_last(), k);
    } else {
        assert(s.take(k) =~= s);
    }
}

/// `s` without leading and trailing whitespace, as `str::trim` leaves it.
pub fn trim_chars(s: &[char]) -> (r: Vec<char>)
    ensures
        r@ == trim(s@),
{
    let mut start: usize = 0;
    while start < s.len() && is_whitespace(s[start])
        invariant
            start <= s@.len(),
            forall|j: int| 0 <= j < start ==> is_ws(#[trigger] s@[j]),
        decreases s.len() - start,
    {
        start = start + 1;
    }
    proof {
        lemma_trim_start_skip(s@, start as int);
    }
    let mut end: usize = s.len();
    while end > start && is_whitespace(s[end - 1])
        invariant
            start <= end <= s@.len(),
            forall|j: int| end <= j < s@.len() ==> is_ws(#[trigger] s@[j]),
        decreases end - start,
    {
        end = end - 1;
    }
    let ghost t = s@.skip(start as int);
    proof {
        assert forall|j: int| end - start <= j < t.len() implies is_ws(#[trigger] t[j]) by {
            assert(t[j] == s@[j + start]);
        }
        lemma_trim_end_take(t, end - start);
        assert(t.take(end - start) =~= s@.subrange(start as int, end as int));
        if start == end {
            assert(trim_start(s@) == t);
            if t.len() > 0 {
                assert(!is_ws(t[0]) || start == s@.len());
            }
        }
    }
    let r = sub_chars(s, start, end);
    proof {
        let u = s@.subrange(start as int, end as int);
        if u.len() > 0 {
            assert(!is_ws(u.last()));
        }
        assert(trim_end(u) == u);
    }
    r
}

/// The value of a digit character in the given radix (at most 16), if it is one.
pub fn digit_of(c: char, radix: u32) -> (d: Option<u32>)
    requires
        1 <= radix <= 16,
    ensures
        d is Some <==> is_digit(c, radix as nat),
        d matches Some(v) ==> v as int == digit_value(c, radix as nat),
{
    let v: u32 = if '0' <= c && c <= '9' {
        (c as u32) - ('0' as u32)
    } else if 'a' <= c && c <= 'f' {
        (c as u32) - ('a' as u32) + 10
    } else if 'A' <= c && c <= 'F' {
        (c as u32) - ('A' as u32) + 10
    } else {
        16
    };
    if v < radix {
        Some(v)
    } else {
        None
    }
}

/// Parses an unsigned number in the given radix whose value must not exceed
/// `max`, as `from_str_radix` of an unsigned type with that largest value does.
pub fn parse_uint(s: &[char], radix: u32, max: u64) -> (r: Option<u64>)
    requires
        2 <= radix <= 16,
    ensures
        r matches Some(v) ==> parse_unsigned(s@, radix as nat, max as int) == Some(v as int),
        r is None ==> parse_unsigned(s@, radix as nat, max as int) is None,
{
    let start: usize = if s.len() > 0 && s[0] == '+' {
        1
    } else {
        0
    };
    let ghost body = if s@.len() > 0 && s@[0] == '+' {
        s@.drop_first()
    } else {
        s@
    };
    assert(body =~= s@.skip(start as int));
    if start == s.len() {
        return None;
    }
    let mut acc: u64 = 0;
    let mut over = false;
    let mut i = start;
    while i < s.len()
        invariant
            start <= i <= s@.len(),
            body == s@.skip(start as int),
            body == (if s@.len() > 0 && s@[0] == '+' {
                s@.drop_first()
            } else {
                s@
            }),
            2 <= radix <= 16,
            all_digits(body.take(i - start), radix as nat),
            !over ==> acc as int == digits_value(body.take(i - start), radix as nat),
            !over ==> acc <= max,
            over ==> digits_value(body.take(i - start), radix as nat) > max,
        decreases s.len() - i,
    {
        let ghost pre = body.take(i - start);
        let ghost nxt = body.take(i + 1 - start);
        assert(nxt.drop_last() =~= pre);
        assert(nxt.last() == s@[i as int]);
        match digit_of(s[i], radix) {
            None => {
                assert(!is_digit(body[i - start], radix as nat));
                assert(!all_digits(body, radix as nat));
                assert(body.len() > 0);
                assert(parse_unsigned(s@, radix as nat, max as int) is None);
                return None;
            },
            Some(d) => {
                assert forall|j: int| 0 <= j < nxt.len() implies is_digit(
                    #[trigger] nxt[j],
                    radix as nat,
                ) by {
                    if j < pre.len() {
                        assert(nxt[j] == pre[j]);
                    }
                }
                if !over {
                    if d as u64 > max || acc > (max - d as u64) / radix as u64 {
                        over = true;
                        proof {
                            let a = acc as int;
                            let rr = radix as int;
                            let m = max as int;
                            let dd = d as int;
                            assert(a * rr + dd > m) by (nonlinear_arith)
                                requires
                                    dd > m || a > (m - dd) / rr,
                                    rr >= 2,
                                    0 <= dd < rr,
                                    a >= 0,
                                    m >= 0,
                            ;
                        }
                    } else {
                        proof {
                            let a = acc as int;
                            let rr = radix as int;
                            let m = max as int;
                            let dd = d as int;
                            assert(a * rr + dd <= m) by (nonlinear_arith)
                                requires
                                    a <= (m - dd) / rr,
                                    rr >= 2,
                                    0 <= dd,
                                    m - dd >= 0,
                            ;
                        }
                        acc = acc * radix as u64 + d as u64;
                    }
                } else {
                    proof {
                        assert(digits_value(pre, radix as nat) >= 0) by {
                            lemma_digits_value_monotone(pre, 0, radix as nat);
                        }
                        let p = digits_value(pre, radix as nat);
                        let rr = radix as int;
                        assert(p * rr >= p) by (nonlinear_arith)
                            requires
                                p >= 0,
                                rr >= 2,
                        ;
                    }
                }
            },
        }
        i = i + 1;
    }
    assert(i == s.len());
    assert(body.take(i - start) =~= body);
    if over {
        None
    } else {
        Some(acc)
    }
}

/// Parses a signed decimal number in `i64::MIN..=i64::MAX`, as `str::parse::<i64>` does.
pub fn parse_i64(s: &[char]) -> (r: Option<i64>)
    ensures
        r matches Some(v) ==> parse_signed(s@, i64::MIN as int, i64::MAX as int) == Some(
            v as int,
        ),
        r is None ==> parse_signed(s@, i64::MIN as int, i64::MAX as int) is None,
{
    if s.len() > 0 && s[0] == '-' {
        let rest = sub_chars(s, 1, s.len());
        assert(rest@ =~= s@.drop_first());
        if rest.len() > 0 && rest[0] == '+' {
            return None;
        }
        match parse_uint(rest.as_slice(), 10, 0x8000_0000_0000_0000) {
            None => None,
            Some(m) => {
                if m == 0x8000_0000_0000_0000 {
                    Some(i64::MIN)
                } else {
                    Some(-(m as i64))
                }
            },
        }
    } else {
        match parse_uint(s, 10, 0x7fff_ffff_ffff_ffff) {
            None => None,
            Some(m) => Some(m as i64),
        }
    }
}

/// The decimal digits of `n`.
pub fn decimal_chars(n: u64) -> (v: Vec<char>)
    ensures
        v@ == decimal(n as nat),
    decreases n,
{
    if n < 10 {
        let mut v: Vec<char> = Vec::new();
        v.push(((n as u8) + 48u8) as char);
        v
    } else {
        let mut v = decimal_chars(n / 10);
        v.push((((n % 10) as u8) + 48u8) as char);
        v
    }
}

/// Appends the characters of `b` to `a`.
pub fn extend_chars(a: &mut Vec<char>, b: &[char])
    ensures
        final(a)@ == old(a)@ + b@,
{
    let mut i: usize = 0;
    while i < b.len()
        invariant
            i <= b@.len(),
            a@ == old(a)@ + b@.take(i as int),
        decreases b.len() - i,
    {
        a.push(b[i]);
        assert(b@.take(i + 1) =~= b@.take(i as int).push(b@[i as int]));
        i = i + 1;
    }
    assert(b@.take(b@.len() as int) =~= b@);
}

} // verus!
