use crate::salt::{is_hex_symbol, random_hex};
use sha2::{Digest, Sha512};
use vstd::prelude::*;
use vstd::utf8::encode_utf8;

verus! {

/// The length of each of the two salts of a payload.
pub const SALT_LEN: usize = 16;

/// The sixteen lowercase hexadecimal digits, by value.
pub const HEX_DIGITS: &'static str = "0123456789abcdef";

/// The record submitted to the update endpoint.
#[derive(Debug)]
pub struct Payload {
    /// Always `success`.
    pub status: String,
    /// The lowercase hexadecimal SHA-512 digest of the proof text.
    pub data: String,
    /// The two salts, one after the other.
    pub additional: String,
}

/// The SHA-512 digest of `data`.
pub uninterp spec fn sha512_of(data: Seq<u8>) -> Seq<u8>;

/// Relies on sha2's `Sha512::digest`: the SHA-512 digest of `data`, whose
/// output size is 64 bytes.
#[verifier::external_body]
fn sha512(data: &[u8]) -> (r: Vec<u8>)
    ensures
        r@ == sha512_of(data@),
        r@.len() == 64,
{
    Sha512::digest(data).to_vec()
}

/// The lowercase hexadecimal digit of value `n` (0 <= n < 16).
pub open spec fn hex_digit(n: int) -> char {
    if n < 10 {
        ((48 + n) as u8) as char
    } else {
        ((87 + n) as u8) as char
    }
}

/// `b` written as lowercase hexadecimal, two digits per byte, high digit first.
pub open spec fn hex_text(b: Seq<u8>) -> Seq<char>
    decreases b.len(),
{
    if b.len() == 0 {
        Seq::empty()
    } else {
        hex_text(b.drop_last()) + seq![
            hex_digit(b.last() as int / 16),
            hex_digit(b.last() as int % 16),
        ]
    }
}

/// The text whose digest proves possession of the two secrets: the salts,
/// secrets and address joined in this order, with no separator.
pub open spec fn proof_text(
    salt_a: Seq<char>,
    token: Seq<char>,
    ip: Seq<char>,
    salt_b: Seq<char>,
    key: Seq<char>,
) -> Seq<char> {
    salt_a + token + ip + salt_b + key
}

/// The `data` field for the given proof text.
pub open spec fn digest_text(text: Seq<char>) -> Seq<char> {
    hex_text(sha512_of(encode_utf8(text)))
}

proof fn lemma_hex_text_len(b: Seq<u8>)
    ensures
        hex_text(b).len() == 2 * b.len(),
    decreases b.len(),
{
    if b.len() > 0 {
        lemma_hex_text_len(b.drop_last());
    }
}

/// Writes `b` as lowercase hexadecimal.
pub fn to_hex(b: &Vec<u8>) -> (r: String)
    ensures
        r@ == hex_text(b@),
        r@.len() == 2 * b@.len(),
{
    proof {
        reveal_strlit("0123456789abcdef");
        assert forall|k: int| 0 <= k < 16 implies #[trigger] HEX_DIGITS@[k] == hex_digit(k) by {
            assert(HEX_DIGITS@ == "0123456789abcdef"@);
        }
    }
    let mut s = String::new();
    let mut i: usize = 0;
    while i < b.len()
        invariant
            i <= b@.len(),
            s@ == hex_text(b@.subrange(0, i as int)),
            HEX_DIGITS@.len() == 16,
            HEX_DIGITS.is_ascii(),
            forall|k: int| 0 <= k < 16 ==> #[trigger] HEX_DIGITS@[k] == hex_digit(k),
        decreases b@.len() - i,
    {
        let byte = b[i];
        let hi = (byte / 16) as usize;
        let lo = (byte % 16) as usize;
        s.append(HEX_DIGITS.substring_ascii(hi, hi + 1));
        s.append(HEX_DIGITS.substring_ascii(lo, lo + 1));
        proof {
            assert(b@.subrange(0, i + 1).drop_last() =~= b@.subrange(0, i as int));
        }
        i = i + 1;
        assert(s@ =~= hex_text(b@.subrange(0, i as int)));
    }
    assert(b@.subrange(0, b@.len() as int) =~= b@);
    proof {
        lemma_hex_text_len(b@);
    }
    s
}

/// Builds the payload for the given salts, address and secrets: `data` is the
/// hexadecimal SHA-512 digest of `salt_a + token + ip + salt_b + key`, and
/// `additional` is `salt_a + salt_b`.
pub fn build_payload(salt_a: &str, salt_b: &str, ip: &str, token: &str, key: &str) -> (p: Payload)
    ensures
        p.status@ == "success"@,
        p.data@ == digest_text(proof_text(salt_a@, token@, ip@, salt_b@, key@)),
        p.data@.len() == 128,
        p.additional@ == salt_a@ + salt_b@,
        salt_a@.len() == SALT_LEN && salt_b@.len() == SALT_LEN ==> p.additional@.len() == 32,
{
    let mut text = String::from_str(salt_a);
    text.append(token);
    text.append(ip);
    text.append(salt_b);
    text.append(key);
    let digest = sha512(text.as_str().as_bytes());
    let data = to_hex(&digest);
    let mut additional = String::from_str(salt_a);
    additional.append(salt_b);
    Payload { status: String::from_str("success"), data, additional }
}

/// Builds the payload for the given address and secrets with two fresh random
/// salts of `SALT_LEN` hexadecimal characters each.
pub fn generate_payload(ip: &str, token: &str, key: &str) -> (p: Payload)
    ensures
        p.status@ == "success"@,
        p.additional@.len() == 2 * SALT_LEN,
        forall|i: int| 0 <= i < p.additional@.len() ==> is_hex_symbol(#[trigger] p.additional@[i]),
        p.data@ == digest_text(
            proof_text(
                p.additional@.subrange(0, SALT_LEN as int),
                token@,
                ip@,
                p.additional@.subrange(SALT_LEN as int, 2 * SALT_LEN as int),
                key@,
            ),
        ),
        p.data@.len() == 128,
{
    let salt_a = random_hex(SALT_LEN);
    let salt_b = random_hex(SALT_LEN);
    let p = build_payload(salt_a.as_str(), salt_b.as_str(), ip, token, key);
    assert(p.additional@.subrange(0, SALT_LEN as int) =~= salt_a@);
    assert(p.additional@.subrange(SALT_LEN as int, 2 * SALT_LEN as int) =~= salt_b@);
    p
}

} // verus!
