//! Opaque identifier generation for new registry entries: a one-way digest
//! over (ip, port, key, random salt), rendered as an uppercase fixed-length
//! hex string, and a random access token for hidden entries.

use vstd::prelude::*;
use vstd::utf8::encode_utf8;

verus! {

/// Name for what `ring`'s SHA-1 digest returns for a given message.
pub uninterp spec fn sha1_of(msg: Seq<u8>) -> Seq<u8>;

/// Relies on ring::digest::digest with SHA1_FOR_LEGACY_USE_ONLY: the result
/// depends on the input bytes alone and is 20 bytes long. The length bound
/// keeps the input far below the algorithm's maximum input size.
#[verifier::external_body]
fn sha1_digest(msg: &Vec<u8>) -> (r: Vec<u8>)
    requires
        msg@.len() < 0x10000000,
    ensures
        r@ == sha1_of(msg@),
        r@.len() == 20,
{
    ring::digest::digest(&ring::digest::SHA1_FOR_LEGACY_USE_ONLY, msg.as_slice())
        .as_ref()
        .to_vec()
}

/// Relies on ring::rand::generate over the system's secure random source:
/// four fresh random bytes, or nothing when the source is unavailable.
#[verifier::external_body]
fn random_salt() -> (r: Option<Vec<u8>>)
    ensures
        r is Some ==> r.unwrap()@.len() == 4,
{
    let rng = ring::rand::SystemRandom::new();
    match ring::rand::generate::<[u8; 4]>(&rng) {
        Ok(bytes) => Some(bytes.expose().to_vec()),
        Err(_) => None,
    }
}

/// Relies on ring::rand::generate over the system's secure random source:
/// sixteen fresh random bytes, or nothing when the source is unavailable.
#[verifier::external_body]
fn random_token_bytes() -> (r: Option<Vec<u8>>)
    ensures
        r is Some ==> r.unwrap()@.len() == 16,
{
    let rng = ring::rand::SystemRandom::new();
    match ring::rand::generate::<[u8; 16]>(&rng) {
        Ok(bytes) => Some(bytes.expose().to_vec()),
        Err(_) => None,
    }
}

/// Relies on uuid::Builder::from_random_bytes and the hyphenated display
/// form: a version-4 UUID built from the sixteen given bytes, rendered as
/// 36 characters. The builder draws no randomness itself and cannot fail.
#[verifier::external_body]
fn token_from_bytes(bytes: &Vec<u8>) -> (r: String)
    requires
        bytes@.len() == 16,
    ensures
        r@.len() == 36,
{
    let mut raw = [0u8; 16];
    raw.copy_from_slice(bytes.as_slice());
    uuid::Builder::from_random_bytes(raw).into_uuid().to_string()
}

/// A fresh random access token for a hidden entry, or nothing when the
/// random source is unavailable: like the uid salt, the failure is
/// propagated rather than papered over, and a predictable token is never
/// issued.
pub(crate) fn new_v4_token() -> (r: Option<String>)
    ensures
        r is Some ==> r.unwrap()@.len() == 36,
{
    match random_token_bytes() {
        Some(bytes) => Some(token_from_bytes(&bytes)),
        None => None,
    }
}

/// The uppercase hex digit for a value below 16.
pub open spec fn hex_digit(n: int) -> char
    recommends
        0 <= n < 16,
{
    "0123456789ABCDEF"@[n]
}

/// Uppercase hex rendering of a byte sequence, two digits per byte.
pub open spec fn hex_upper(bs: Seq<u8>) -> Seq<char>
    decreases bs.len(),
{
    if bs.len() == 0 {
        Seq::empty()
    } else {
        hex_upper(bs.drop_last()) + seq![
            hex_digit(bs.last() as int / 16),
            hex_digit(bs.last() as int % 16),
        ]
    }
}

/// Characters that can appear in a generated uid.
pub open spec fn is_upper_hex_char(c: char) -> bool {
    ('0' <= c && c <= '9') || ('A' <= c && c <= 'F')
}

/// Hex rendering doubles the length and produces only uppercase hex digits.
pub proof fn lemma_hex_upper_props(bs: Seq<u8>)
    ensures
        hex_upper(bs).len() == 2 * bs.len(),
        forall|i: int| 0 <= i < hex_upper(bs).len() ==> is_upper_hex_char(
            #[trigger] hex_upper(bs)[i],
        ),
    decreases bs.len(),
{
    reveal_strlit("0123456789ABCDEF");
    if bs.len() > 0 {
        lemma_hex_upper_props(bs.drop_last());
    }
}

/// The digest input: ip, little-endian port, key, then the random salt.
pub open spec fn uid_message(ip: Seq<char>, port: u16, key: Seq<char>, salt: Seq<u8>) -> Seq<u8> {
    encode_utf8(ip) + seq![(port & 0xff) as u8, (port >> 8) as u8] + encode_utf8(key) + salt
}

/// Exact uppercase hex rendering of a byte vector.
pub fn bytes_to_hex_upper(bs: &Vec<u8>) -> (r: String)
    ensures
        r@ == hex_upper(bs@),
        r@.len() == 2 * bs@.len(),
{
    let digits = "0123456789ABCDEF";
    proof {
        reveal_strlit("0123456789ABCDEF");
        assert(digits.is_ascii());
        assert(digits@.len() == 16);
    }
    let mut out = String::new();
    let mut i: usize = 0;
    while i < bs.len()
        invariant
            i <= bs@.len(),
            digits@ == "0123456789ABCDEF"@,
            digits@.len() == 16,
            digits.is_ascii(),
            out@ == hex_upper(bs@.take(i as int)),
            out@.len() == 2 * i,
        decreases bs@.len() - i,
    {
        let b = bs[i];
        let hi = (b >> 4) as usize;
        let lo = (b & 0x0f) as usize;
        proof {
            assert(b >> 4 == b / 16) by (bit_vector);
            assert(b & 0x0f == b % 16) by (bit_vector);
            assert(b / 16 < 16);
        }
        out.append(digits.substring_ascii(hi, hi + 1));
        out.append(digits.substring_ascii(lo, lo + 1));
        proof {
            let t = bs@.take(i + 1);
            assert(t.drop_last() =~= bs@.take(i as int));
            assert(t.last() == bs@[i as int]);
            assert(digits@.subrange(hi as int, hi as int + 1) =~= seq![hex_digit(b as int / 16)]);
            assert(digits@.subrange(lo as int, lo as int + 1) =~= seq![hex_digit(b as int % 16)]);
            assert(out@ =~= hex_upper(t));
        }
        i = i + 1;
    }
    proof {
        assert(bs@.take(bs@.len() as int) =~= bs@);
        lemma_hex_upper_props(bs@);
    }
    out
}

/// A collision-resistant opaque identifier for a new entry: the uppercase
/// hex rendering of a one-way digest over ip, port, key and a fresh random
/// salt. Fails (returns nothing) when the random source is unavailable, so a
/// predictable uid is never produced.
pub fn new_uid(ip: &String, port: u16, key: &String) -> (r: Option<String>)
    ensures
        r is Some ==> {
            &&& r.unwrap()@.len() == 40
            &&& forall|i: int| 0 <= i < r.unwrap()@.len() ==> is_upper_hex_char(
                #[trigger] r.unwrap()@[i],
            )
            &&& exists|salt: Seq<u8>| salt.len() == 4 && r.unwrap()@ == hex_upper(
                sha1_of(uid_message(ip@, port, key@, salt)),
            )
        },
{
    let salt = match random_salt() {
        Some(s) => s,
        None => {
            return None;
        },
    };
    let mut msg = ip.as_str().as_bytes_vec();
    msg.push((port & 0xff) as u8);
    msg.push((port >> 8) as u8);
    let ghost base = encode_utf8(ip@) + seq![(port & 0xff) as u8, (port >> 8) as u8];
    proof {
        assert(msg@ =~= base);
    }
    let kb = key.as_str().as_bytes_vec();
    let mut k: usize = 0;
    while k < kb.len()
        invariant
            k <= kb@.len(),
            kb@ == encode_utf8(key@),
            msg@ =~= base + kb@.take(k as int),
        decreases kb@.len() - k,
    {
        msg.push(kb[k]);
        proof {
            assert(msg@ =~= base + kb@.take(k + 1));
        }
        k = k + 1;
    }
    let ghost base2 = base + encode_utf8(key@);
    proof {
        assert(kb@.take(kb@.len() as int) =~= kb@);
        assert(msg@ =~= base2);
    }
    let mut k: usize = 0;
    while k < salt.len()
        invariant
            k <= salt@.len(),
            msg@ =~= base2 + salt@.take(k as int),
            salt@.len() == 4,
        decreases salt@.len() - k,
    {
        msg.push(salt[k]);
        proof {
            assert(msg@ =~= base2 + salt@.take(k + 1));
        }
        k = k + 1;
    }
    proof {
        assert(salt@.take(salt@.len() as int) =~= salt@);
        assert(msg@ =~= uid_message(ip@, port, key@, salt@));
    }
    if msg.len() >= 0x10000000 {
        // Far beyond any real announce payload; refuse rather than feed the
        // digest an oversized input.
        return None;
    }
    let digest = sha1_digest(&msg);
    let hex = bytes_to_hex_upper(&digest);
    proof {
        lemma_hex_upper_props(digest@);
        assert(salt@.len() == 4 && hex@ == hex_upper(sha1_of(uid_message(ip@, port, key@, salt@))));
    }
    Some(hex)
}

} // verus!
