//! Calls into the outside cryptographic and system crates, each behind a
//! trusted item. Every contract here is believed, not proved: it states no
//! more than the called crate's source or documentation plainly shows.

use vstd::prelude::*;
use hmac::Mac;
use rand::Rng;
use sha3::Digest;

verus! {

/// The HMAC-SHA-1 digest of `msg` under `key`: a function of the two
/// arguments alone, named rather than written out.
pub uninterp spec fn hmac_sha1_of(key: Seq<u8>, msg: Seq<u8>) -> Seq<u8>;

/// Relies on hmac::Hmac over sha1::Sha1: the digest depends on key and
/// message alone and is 20 bytes; `new_from_slice` accepts a key of any
/// length, so the call cannot fail.
#[verifier::external_body]
pub(crate) fn hmac_sha1(key: &[u8], msg: &[u8]) -> (r: Vec<u8>)
    ensures
        r@ == hmac_sha1_of(key@, msg@),
        r@.len() == 20,
{
    let mut mac = hmac::Hmac::<sha1::Sha1>::new_from_slice(key).unwrap();
    mac.update(msg);
    mac.finalize().into_bytes().to_vec()
}

/// The Keccak-256 digest of `data`: a function of the argument alone,
/// named rather than written out.
pub uninterp spec fn keccak256_of(data: Seq<u8>) -> Seq<u8>;

/// Relies on sha3::Keccak256: the digest depends on the input alone and
/// is 32 bytes.
#[verifier::external_body]
pub(crate) fn keccak256(data: &[u8]) -> (r: Vec<u8>)
    ensures
        r@ == keccak256_of(data@),
        r@.len() == 32,
{
    let mut hasher = sha3::Keccak256::new();
    hasher.update(data);
    hasher.finalize().to_vec()
}

/// The character for one hexadecimal digit, lower case.
pub open spec fn hex_char(d: u8) -> char {
    if d == 0 {
        '0'
    } else if d == 1 {
        '1'
    } else if d == 2 {
        '2'
    } else if d == 3 {
        '3'
    } else if d == 4 {
        '4'
    } else if d == 5 {
        '5'
    } else if d == 6 {
        '6'
    } else if d == 7 {
        '7'
    } else if d == 8 {
        '8'
    } else if d == 9 {
        '9'
    } else if d == 10 {
        'a'
    } else if d == 11 {
        'b'
    } else if d == 12 {
        'c'
    } else if d == 13 {
        'd'
    } else if d == 14 {
        'e'
    } else {
        'f'
    }
}

/// `bytes` written as lower-case hexadecimal, two digits per byte, high
/// nibble first.
pub open spec fn hex_seq(bytes: Seq<u8>) -> Seq<char> {
    Seq::new(
        2 * bytes.len(),
        |i: int|
            if i % 2 == 0 {
                hex_char(bytes[i / 2] / 16)
            } else {
                hex_char(bytes[i / 2] % 16)
            },
    )
}

/// Relies on hex::encode: each byte becomes two digits from the table
/// "0123456789abcdef", high nibble first.
#[verifier::external_body]
pub(crate) fn hex_lower(data: &[u8]) -> (r: String)
    ensures
        r@ == hex_seq(data@),
{
    hex::encode(data)
}

/// Relies on rand::thread_rng and rand::Rng::gen: 32 bytes drawn from a
/// cryptographically secure generator. Nothing holds of their values.
#[verifier::external_body]
pub(crate) fn random_bytes_32() -> (r: Vec<u8>)
    ensures
        r@.len() == 32,
{
    let bytes: [u8; 32] = rand::thread_rng().gen();
    bytes.to_vec()
}

/// Relies on rand::Rng::gen_range over `0..10`, which is documented to
/// return a value of the (non-empty) range.
#[verifier::external_body]
pub(crate) fn random_digit() -> (r: u8)
    ensures
        r < 10,
{
    rand::thread_rng().gen_range(0..10u8)
}

/// Relies on std::time::SystemTime: seconds since the Unix epoch, or zero
/// if the system clock stands before it. Nothing holds of the value.
#[verifier::external_body]
pub fn now_unix() -> u64 {
    std::time::SystemTime::now()
        .duration_since(std::time::UNIX_EPOCH)
        .map(|d| d.as_secs())
        .unwrap_or(0)
}

} // verus!
