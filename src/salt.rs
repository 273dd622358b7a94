use rand::Rng;
use vstd::prelude::*;

verus! {

/// The sixteen symbols a salt is drawn from, in draw order.
pub const HEX_CHARS: &'static str = "abcdef0123456789";

/// The symbol that draw `i` (0 <= i < 16) selects.
pub open spec fn hex_symbol(i: int) -> char {
    if i < 6 {
        ((97 + i) as u8) as char
    } else {
        ((48 + i - 6) as u8) as char
    }
}

/// A lowercase hexadecimal digit.
pub open spec fn is_hex_symbol(c: char) -> bool {
    ('0' <= c && c <= '9') || ('a' <= c && c <= 'f')
}

/// The salt text that a sequence of draws (each below 16) stands for.
pub open spec fn salt_of(draws: Seq<usize>) -> Seq<char> {
    Seq::new(draws.len(), |i: int| hex_symbol(draws[i] as int))
}

proof fn lemma_hex_chars()
    ensures
        HEX_CHARS@.len() == 16,
        HEX_CHARS.is_ascii(),
        forall|i: int| 0 <= i < 16 ==> #[trigger] HEX_CHARS@[i] == hex_symbol(i),
{
    reveal_strlit("abcdef0123456789");
    assert forall|i: int| 0 <= i < 16 implies #[trigger] HEX_CHARS@[i] == hex_symbol(i) by {
        assert(HEX_CHARS@ == "abcdef0123456789"@);
    }
}

/// Relies on rand's `thread_rng().gen_range(0..bound)`: a value below `bound`
/// (it panics on an empty range, which `requires` rules out).
#[verifier::external_body]
fn draw_below(bound: usize) -> (r: usize)
    requires
        bound > 0,
    ensures
        r < bound,
{
    rand::thread_rng().gen_range(0..bound)
}

/// Builds the salt that the given draws select from `HEX_CHARS`.
pub fn hex_from_draws(draws: &Vec<usize>) -> (r: String)
    requires
        forall|i: int| 0 <= i < draws@.len() ==> draws@[i] < 16,
    ensures
        r@ == salt_of(draws@),
{
    proof {
        lemma_hex_chars();
    }
    let mut s = String::new();
    let mut i: usize = 0;
    while i < draws.len()
        invariant
            i <= draws@.len(),
            forall|k: int| 0 <= k < draws@.len() ==> draws@[k] < 16,
            s@ == salt_of(draws@.subrange(0, i as int)),
            HEX_CHARS@.len() == 16,
            HEX_CHARS.is_ascii(),
            forall|k: int| 0 <= k < 16 ==> #[trigger] HEX_CHARS@[k] == hex_symbol(k),
        decreases draws@.len() - i,
    {
        let d = draws[i];
        let piece = HEX_CHARS.substring_ascii(d, d + 1);
        s.append(piece);
        i = i + 1;
        assert(s@ =~= salt_of(draws@.subrange(0, i as int)));
    }
    assert(draws@.subrange(0, draws@.len() as int) =~= draws@);
    s
}

/// A random salt of `len` lowercase hexadecimal characters.
pub fn random_hex(len: usize) -> (r: String)
    ensures
        r@.len() == len,
        forall|i: int| 0 <= i < len ==> is_hex_symbol(#[trigger] r@[i]),
{
    let mut draws: Vec<usize> = Vec::new();
    let mut i: usize = 0;
    while i < len
        invariant
            i <= len,
            draws@.len() == i,
            forall|k: int| 0 <= k < draws@.len() ==> draws@[k] < 16,
        decreases len - i,
    {
        let d = draw_below(16);
        draws.push(d);
        i = i + 1;
    }
    let r = hex_from_draws(&draws);
    assert forall|i: int| 0 <= i < len implies is_hex_symbol(#[trigger] r@[i]) by {
        let d = draws@[i] as int;
        assert(0 <= d < 16);
    }
    r
}

} // verus!
