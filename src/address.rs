use crate::error::AgentError;
use vstd::prelude::*;

verus! {

/// A decimal digit character.
pub open spec fn is_digit(c: char) -> bool {
    '0' <= c && c <= '9'
}

/// The character of decimal digit `d` (0 <= d < 10).
pub open spec fn digit_char(d: int) -> char {
    ((48 + d) as u8) as char
}

/// The decimal text of an octet, without leading zeros.
pub open spec fn octet_text(n: u8) -> Seq<char> {
    if n < 10 {
        seq![digit_char(n as int)]
    } else if n < 100 {
        seq![digit_char(n as int / 10), digit_char(n as int % 10)]
    } else {
        seq![digit_char(n as int / 100), digit_char((n as int / 10) % 10), digit_char(n as int % 10)]
    }
}

/// The dotted-quad text of the address `a.b.c.d`.
pub open spec fn dotted_quad(a: u8, b: u8, c: u8, d: u8) -> Seq<char> {
    octet_text(a) + seq!['.'] + octet_text(b) + seq!['.'] + octet_text(c) + seq!['.']
        + octet_text(d)
}

/// A strict dotted-quad IPv4 address: four decimal octets, each at most 255
/// and without leading zeros, joined by dots, with nothing around them.
pub open spec fn is_ipv4(s: Seq<char>) -> bool {
    exists|a: u8, b: u8, c: u8, d: u8| s == dotted_quad(a, b, c, d)
}

/// The value of a run of decimal digits.
pub open spec fn digits_value(t: Seq<char>) -> int
    decreases t.len(),
{
    if t.len() == 0 {
        0
    } else {
        digits_value(t.drop_last()) * 10 + (t.last() as int - 48)
    }
}

/// The octet `n` is written at `s[i..j]`, and no further digit follows it.
pub open spec fn octet_at(s: Seq<char>, i: int, n: u8, j: int) -> bool {
    &&& 0 <= i <= j <= s.len()
    &&& s.subrange(i, j) == octet_text(n)
    &&& (j == s.len() || !is_digit(s[j]))
}

proof fn lemma_digit_char(d: int)
    requires
        0 <= d < 10,
    ensures
        digit_char(d) as int == 48 + d,
        is_digit(digit_char(d)),
{
}

proof fn lemma_char_digit(c: char)
    requires
        is_digit(c),
    ensures
        48 <= c as int <= 57,
        digit_char(c as int - 48) == c,
{
}

proof fn lemma_octet_text(n: u8)
    ensures
        1 <= octet_text(n).len() <= 3,
        forall|k: int| 0 <= k < octet_text(n).len() ==> is_digit(#[trigger] octet_text(n)[k]),
        octet_text(n).len() > 1 ==> octet_text(n)[0] != '0',
        digits_value(octet_text(n)) == n,
{
    reveal_with_fuel(digits_value, 4);
    let t = octet_text(n);
    let v = n as int;
    lemma_digit_char(v % 10);
    lemma_digit_char((v / 10) % 10);
    if n < 10 {
        lemma_digit_char(v);
        assert(t.drop_last() =~= Seq::<char>::empty());
    } else if n < 100 {
        lemma_digit_char(v / 10);
        assert(t.drop_last() =~= seq![digit_char(v / 10)]);
        assert(t.drop_last().drop_last() =~= Seq::<char>::empty());
        assert(v == (v / 10) * 10 + v % 10);
    } else {
        lemma_digit_char(v / 100);
        assert(t.drop_last() =~= seq![digit_char(v / 100), digit_char((v / 10) % 10)]);
        assert(t.drop_last().drop_last() =~= seq![digit_char(v / 100)]);
        assert(t.drop_last().drop_last().drop_last() =~= Seq::<char>::empty());
        assert(v == ((v / 100) * 10 + (v / 10) % 10) * 10 + v % 10);
    }
}

/// A run of one to three digits, without a leading zero and of value at most
/// 255, is the text of its value.
proof fn lemma_digits_octet(t: Seq<char>)
    requires
        1 <= t.len() <= 3,
        forall|k: int| 0 <= k < t.len() ==> is_digit(#[trigger] t[k]),
        t.len() > 1 ==> t[0] != '0',
        digits_value(t) <= 255,
    ensures
        octet_text(digits_value(t) as u8) == t,
{
    reveal_with_fuel(digits_value, 4);
    let v = digits_value(t);
    lemma_char_digit(t[0]);
    let d0 = t[0] as int - 48;
    if t.len() == 1 {
        assert(t.drop_last() =~= Seq::<char>::empty());
        assert(v == d0);
        assert(octet_text(v as u8) =~= t);
    } else if t.len() == 2 {
        lemma_char_digit(t[1]);
        let d1 = t[1] as int - 48;
        assert(t.drop_last() =~= seq![t[0]]);
        assert(t.drop_last().drop_last() =~= Seq::<char>::empty());
        assert(v == d0 * 10 + d1);
        assert(v / 10 == d0 && v % 10 == d1);
        assert(octet_text(v as u8) =~= t);
    } else {
        lemma_char_digit(t[1]);
        lemma_char_digit(t[2]);
        let d1 = t[1] as int - 48;
        let d2 = t[2] as int - 48;
        assert(t.drop_last() =~= seq![t[0], t[1]]);
        assert(t.drop_last().drop_last() =~= seq![t[0]]);
        assert(t.drop_last().drop_last().drop_last() =~= Seq::<char>::empty());
        assert(v == (d0 * 10 + d1) * 10 + d2);
        assert(v / 100 == d0 && (v / 10) % 10 == d1 && v % 10 == d2);
        assert(octet_text(v as u8) =~= t);
    }
}

/// An octet at a given place is unique, and so is where it ends.
proof fn lemma_octet_at_unique(s: Seq<char>, i: int, n: u8, j: int, m: u8, k: int)
    requires
        octet_at(s, i, n, j),
        octet_at(s, i, m, k),
    ensures
        n == m,
        j == k,
{
    lemma_octet_text(n);
    lemma_octet_text(m);
    if j < k {
        assert(s[j] == s.subrange(i, k)[j - i]);
    } else if k < j {
        assert(s[k] == s.subrange(i, j)[k - i]);
    }
}

/// The characters of `s`, in order.
fn chars_of(s: &str) -> (r: Vec<char>)
    ensures
        r@ == s@,
{
    broadcast use vstd::string::group_string_axioms;

    let mut out: Vec<char> = Vec::new();
    for c in it: s.chars()
        invariant
            it.seq() == s@,
            out@ == it.seq().subrange(0, it.index() as int),
    {
        out.push(c);
    }
    out
}

fn is_digit_char(c: char) -> (r: bool)
    ensures
        r == is_digit(c),
{
    '0' <= c && c <= '9'
}

/// Reads the octet that starts at `cs[i]`, if one does.
fn parse_octet(cs: &Vec<char>, i: usize) -> (r: Option<(u8, usize)>)
    requires
        i <= cs@.len(),
    ensures
        r matches Some((n, j)) ==> octet_at(cs@, i as int, n, j as int),
        r is None ==> forall|n: u8, j: int| !octet_at(cs@, i as int, n, j),
{
    let len = cs.len();
    let mut j: usize = i;
    let mut v: u32 = 0;
    while j < len && j - i < 3 && is_digit_char(cs[j])
        invariant
            i <= j <= len,
            len == cs@.len(),
            j - i <= 3,
            forall|k: int| i <= k < j ==> is_digit(#[trigger] cs@[k]),
            v == digits_value(cs@.subrange(i as int, j as int)),
            j - i == 0 ==> v == 0,
            j - i == 1 ==> v < 10,
            j - i == 2 ==> v < 100,
            v < 1000,
        decreases len - j,
    {
        proof {
            lemma_char_digit(cs@[j as int]);
            assert(cs@.subrange(i as int, j + 1).drop_last() =~= cs@.subrange(i as int, j as int));
        }
        v = v * 10 + (cs[j] as u32 - 48);
        j = j + 1;
    }
    proof {
        assert forall|n: u8, k: int| octet_at(cs@, i as int, n, k) implies k == j && n == v
            && j > i && (j - i > 1 ==> cs@[i as int] != '0') by {
            lemma_octet_text(n);
            if k < j {
                assert(cs@[k] == cs@.subrange(i as int, j as int)[k - i]);
            } else if j < k {
                assert(cs@[j as int] == cs@.subrange(i as int, k)[j - i]);
            }
            assert(cs@.subrange(i as int, j as int) == octet_text(n));
            if j - i > 1 {
                assert(cs@[i as int] == octet_text(n)[0]);
            }
        }
    }
    if j == i {
        return None;
    }
    if j < len && is_digit_char(cs[j]) {
        return None;
    }
    if j - i > 1 && cs[i] == '0' {
        return None;
    }
    if v > 255 {
        return None;
    }
    proof {
        lemma_digits_octet(cs@.subrange(i as int, j as int));
    }
    Some((v as u8, j))
}

/// Where the parts of a dotted quad stand in its text.
proof fn lemma_quad_parts(s: Seq<char>, a: u8, b: u8, c: u8, d: u8)
    requires
        s == dotted_quad(a, b, c, d),
    ensures
        ({
            let end_a = octet_text(a).len() as int;
            let end_b = end_a + 1 + octet_text(b).len();
            let end_c = end_b + 1 + octet_text(c).len();
            &&& octet_at(s, 0, a, end_a)
            &&& s[end_a] == '.'
            &&& octet_at(s, end_a + 1, b, end_b)
            &&& s[end_b] == '.'
            &&& octet_at(s, end_b + 1, c, end_c)
            &&& s[end_c] == '.'
            &&& octet_at(s, end_c + 1, d, s.len() as int)
        }),
{
    let end_a = octet_text(a).len() as int;
    let end_b = end_a + 1 + octet_text(b).len();
    let end_c = end_b + 1 + octet_text(c).len();
    assert(s.subrange(0, end_a) =~= octet_text(a));
    assert(s.subrange(end_a + 1, end_b) =~= octet_text(b));
    assert(s.subrange(end_b + 1, end_c) =~= octet_text(c));
    assert(s.subrange(end_c + 1, s.len() as int) =~= octet_text(d));
}

/// Whether `cs` is a strict dotted-quad IPv4 address.
#[verifier::rlimit(40)]
fn is_ipv4_chars(cs: &Vec<char>) -> (r: bool)
    ensures
        r == is_ipv4(cs@),
{
    let ghost s = cs@;
    let ghost w = choose|a: u8, b: u8, c: u8, d: u8| s == dotted_quad(a, b, c, d);
    proof {
        if is_ipv4(s) {
            lemma_quad_parts(s, w.0, w.1, w.2, w.3);
        }
    }
    let ghost end_a = octet_text(w.0).len() as int;
    let ghost end_b = end_a + 1 + octet_text(w.1).len();
    let ghost end_c = end_b + 1 + octet_text(w.2).len();
    let len = cs.len();
    let (a, j1) = match parse_octet(cs, 0) {
        Some(p) => p,
        None => return false,
    };
    proof {
        if is_ipv4(s) {
            lemma_octet_at_unique(s, 0, a, j1 as int, w.0, end_a);
        }
    }
    if j1 >= len || cs[j1] != '.' {
        return false;
    }
    let (b, j2) = match parse_octet(cs, j1 + 1) {
        Some(p) => p,
        None => return false,
    };
    proof {
        if is_ipv4(s) {
            lemma_octet_at_unique(s, end_a + 1, b, j2 as int, w.1, end_b);
        }
    }
    if j2 >= len || cs[j2] != '.' {
        return false;
    }
    let (c, j3) = match parse_octet(cs, j2 + 1) {
        Some(p) => p,
        None => return false,
    };
    proof {
        if is_ipv4(s) {
            lemma_octet_at_unique(s, end_b + 1, c, j3 as int, w.2, end_c);
        }
    }
    if j3 >= len || cs[j3] != '.' {
        return false;
    }
    let (d, j4) = match parse_octet(cs, j3 + 1) {
        Some(p) => p,
        None => return false,
    };
    proof {
        if is_ipv4(s) {
            lemma_octet_at_unique(s, end_c + 1, d, j4 as int, w.3, s.len() as int);
        }
    }
    if j4 != len {
        return false;
    }
    proof {
        assert(s =~= s.subrange(0, j1 as int) + seq!['.'] + s.subrange(j1 + 1, j2 as int)
            + seq!['.'] + s.subrange(j2 + 1, j3 as int) + seq!['.'] + s.subrange(
            j3 + 1,
            j4 as int,
        ));
        assert(s == dotted_quad(a, b, c, d));
    }
    true
}

/// A character with Unicode's White_Space property.
pub open spec fn is_white_space(c: char) -> bool {
    ('\t' <= c && c <= '\r') || c == ' ' || c == '\u{85}' || c == '\u{a0}' || c == '\u{1680}'
        || ('\u{2000}' <= c && c <= '\u{200a}') || c == '\u{2028}' || c == '\u{2029}'
        || c == '\u{202f}' || c == '\u{205f}' || c == '\u{3000}'
}

/// `s` without its leading white space.
pub open spec fn trim_start(s: Seq<char>) -> Seq<char>
    decreases s.len(),
{
    if s.len() > 0 && is_white_space(s[0]) {
        trim_start(s.drop_first())
    } else {
        s
    }
}

/// `s` without its trailing white space.
pub open spec fn trim_end(s: Seq<char>) -> Seq<char>
    decreases s.len(),
{
    if s.len() > 0 && is_white_space(s.last()) {
        trim_end(s.drop_last())
    } else {
        s
    }
}

/// `s` without leading and trailing white space.
pub open spec fn trimmed(s: Seq<char>) -> Seq<char> {
    trim_end(trim_start(s))
}

fn white_space(c: char) -> (r: bool)
    ensures
        r == is_white_space(c),
{
    ('\t' <= c && c <= '\r') || c == ' ' || c == '\u{85}' || c == '\u{a0}' || c == '\u{1680}'
        || ('\u{2000}' <= c && c <= '\u{200a}') || c == '\u{2028}' || c == '\u{2029}'
        || c == '\u{202f}' || c == '\u{205f}' || c == '\u{3000}'
}

/// The bounds of `cs` once leading and trailing white space is removed.
fn trim_bounds(cs: &Vec<char>) -> (r: (usize, usize))
    ensures
        r.0 <= r.1 <= cs@.len(),
        cs@.subrange(r.0 as int, r.1 as int) == trimmed(cs@),
{
    let len = cs.len();
    let mut lo: usize = 0;
    assert(cs@.subrange(0, len as int) =~= cs@);
    while lo < len && white_space(cs[lo])
        invariant
            lo <= len,
            len == cs@.len(),
            trim_start(cs@) == trim_start(cs@.subrange(lo as int, len as int)),
        decreases len - lo,
    {
        assert(cs@.subrange(lo as int, len as int).drop_first() =~= cs@.subrange(
            lo + 1,
            len as int,
        ));
        lo = lo + 1;
    }
    let ghost head = cs@.subrange(lo as int, len as int);
    assert(trim_start(head) == head);
    let mut hi: usize = len;
    while hi > lo && white_space(cs[hi - 1])
        invariant
            lo <= hi <= len,
            len == cs@.len(),
            head == cs@.subrange(lo as int, len as int),
            trim_end(head) == trim_end(cs@.subrange(lo as int, hi as int)),
        decreases hi,
    {
        assert(cs@.subrange(lo as int, hi as int).drop_last() =~= cs@.subrange(
            lo as int,
            hi - 1,
        ));
        hi = hi - 1;
    }
    (lo, hi)
}

/// Decides one attempt to learn the public address from the response of the
/// discovery endpoint: its body, trimmed, is the address when the status was a
/// success and that text is a strict dotted-quad IPv4 address. Any other
/// response is the same validation error.
pub fn ip_from_response(status_ok: bool, body: &str) -> (r: Result<String, AgentError>)
    ensures
        r is Ok <==> status_ok && is_ipv4(trimmed(body@)),
        r matches Ok(ip) ==> ip@ == trimmed(body@),
        r matches Err(e) ==> e is InvalidAddress,
{
    if !status_ok {
        return Err(AgentError::InvalidAddress);
    }
    let cs = chars_of(body);
    let (lo, hi) = trim_bounds(&cs);
    let text = body.substring_char(lo, hi);
    let ts = chars_of(text);
    if is_ipv4_chars(&ts) {
        Ok(text.to_owned())
    } else {
        Err(AgentError::InvalidAddress)
    }
}

} // verus!
