//! One-time-code generation: HOTP and TOTP, the domain-separated code
//! hash, and the random identifiers that bind a request to a user.

use vstd::prelude::*;
use vstd::string::{StrSliceExecFns, StringExecFns, StringSliceAdditionalSpecFns};
use crate::crypto::{
    hex_seq, hmac_sha1, hmac_sha1_of, keccak256, keccak256_of, now_unix, random_bytes_32,
    random_digit, hex_lower,
};
use crate::text::{append_dec_padded, dec_padded, digit_str, pow10};

verus! {

/// `v` as eight bytes, big-endian.
pub open spec fn be64(v: u64) -> Seq<u8> {
    seq![
        ((v >> 56) & 0xFF) as u8,
        ((v >> 48) & 0xFF) as u8,
        ((v >> 40) & 0xFF) as u8,
        ((v >> 32) & 0xFF) as u8,
        ((v >> 24) & 0xFF) as u8,
        ((v >> 16) & 0xFF) as u8,
        ((v >> 8) & 0xFF) as u8,
        (v & 0xFF) as u8,
    ]
}

/// Converts a 64-bit integer to big-endian bytes.
pub fn to_be64(value: u64) -> (r: Vec<u8>)
    ensures
        r@ == be64(value),
{
    let mut v: Vec<u8> = Vec::new();
    v.push(((value >> 56) & 0xFF) as u8);
    v.push(((value >> 48) & 0xFF) as u8);
    v.push(((value >> 40) & 0xFF) as u8);
    v.push(((value >> 32) & 0xFF) as u8);
    v.push(((value >> 24) & 0xFF) as u8);
    v.push(((value >> 16) & 0xFF) as u8);
    v.push(((value >> 8) & 0xFF) as u8);
    v.push((value & 0xFF) as u8);
    proof {
        assert(v@ =~= be64(value));
    }
    v
}

/// RFC 4226 dynamic truncation of a 20-byte digest: the low nibble of the
/// last byte gives an offset, and the four bytes from that offset are read
/// as a big-endian integer with the top bit masked off.
pub open spec fn dyn_trunc(d: Seq<u8>) -> nat
    recommends
        d.len() == 20,
{
    let off = (d[19] & 0x0F) as int;
    ((d[off] & 0x7F) as nat) * 0x1000000 + (d[off + 1] as nat) * 0x10000 + (d[off + 2] as nat)
        * 0x100 + (d[off + 3] as nat)
}

/// The HOTP code for `key` and `counter`: the truncated HMAC-SHA-1 digest
/// reduced modulo 10^digits and written with exactly `digits` digits.
pub open spec fn hotp_code(key: Seq<u8>, counter: u64, digits: nat) -> Seq<char> {
    dec_padded(dyn_trunc(hmac_sha1_of(key, be64(counter))) % pow10(digits), digits)
}

/// Truncates a digest to an OTP of `digits` decimal digits, RFC 4226 style.
pub fn truncate(hmac_result: &[u8], digits: usize) -> (r: String)
    requires
        hmac_result@.len() == 20,
        1 <= digits <= 9,
    ensures
        r@ == dec_padded(dyn_trunc(hmac_result@) % pow10(digits as nat), digits as nat),
        r@.len() == digits,
{
    let last = hmac_result[19];
    proof {
        assert(last & 0x0F < 16) by (bit_vector);
    }
    let offset = (last & 0x0F) as usize;
    let first = hmac_result[offset];
    proof {
        assert(first & 0x7F < 128) by (bit_vector);
    }
    let binary: u32 = ((first & 0x7F) as u32) * 0x1000000 + (hmac_result[offset + 1] as u32)
        * 0x10000 + (hmac_result[offset + 2] as u32) * 0x100 + (hmac_result[offset + 3] as u32);
    let modulus: u32 = if digits == 1 {
        10
    } else if digits == 2 {
        100
    } else if digits == 3 {
        1_000
    } else if digits == 4 {
        10_000
    } else if digits == 5 {
        100_000
    } else if digits == 6 {
        1_000_000
    } else if digits == 7 {
        10_000_000
    } else if digits == 8 {
        100_000_000
    } else {
        1_000_000_000
    };
    proof {
        reveal_with_fuel(pow10, 11);
        assert(modulus == pow10(digits as nat));
        assert(binary == dyn_trunc(hmac_result@));
    }
    let otp: u32 = binary % modulus;
    let mut out = String::new();
    append_dec_padded(&mut out, otp as u64, digits);
    proof {
        crate::text::lemma_dec_padded_digits((otp as u64) as nat, digits as nat);
        assert(out@ =~= dec_padded(dyn_trunc(hmac_result@) % pow10(digits as nat), digits as nat));
    }
    out
}

/// Generates an HOTP code according to RFC 4226, from an HMAC-SHA-1 digest
/// of the big-endian counter.
pub fn generate_hotp(secret: &[u8], counter: u64, digits: usize) -> (r: String)
    requires
        1 <= digits <= 9,
    ensures
        r@ == hotp_code(secret@, counter, digits as nat),
        r@.len() == digits,
{
    let counter_bytes = to_be64(counter);
    let digest = hmac_sha1(secret, counter_bytes.as_slice());
    truncate(digest.as_slice(), digits)
}

/// The time-step counter of RFC 6238: full steps elapsed between the epoch
/// `t0` and `now`, or zero if the clock stands before the epoch.
pub open spec fn totp_counter(time_step: u64, t0: u64, now: u64) -> u64
    recommends
        time_step >= 1,
{
    if now >= t0 {
        (((now - t0) as u64) / time_step) as u64
    } else {
        0
    }
}

/// Generates the TOTP code for the given instant: the HOTP code at the
/// time-step counter derived from `now`.
pub fn generate_totp_at(secret: &[u8], time_step: u64, digits: usize, t0: u64, now: u64) -> (r:
    String)
    requires
        time_step >= 1,
        1 <= digits <= 9,
    ensures
        r@ == hotp_code(secret@, totp_counter(time_step, t0, now), digits as nat),
        r@.len() == digits,
{
    let elapsed: u64 = if now >= t0 {
        now - t0
    } else {
        0
    };
    generate_hotp(secret, elapsed / time_step, digits)
}

/// Generates a TOTP code according to RFC 6238 at the current system time.
/// The clock is outside this crate, so only the code's shape is promised:
/// it is the HOTP code of some counter.
pub fn generate_totp(secret: &[u8], time_step: u64, digits: usize, t0: u64) -> (r: String)
    requires
        time_step >= 1,
        1 <= digits <= 9,
    ensures
        exists|c: u64| r@ == hotp_code(secret@, c, digits as nat),
        r@.len() == digits,
{
    let now = now_unix();
    let r = generate_totp_at(secret, time_step, digits, t0, now);
    proof {
        let c = totp_counter(time_step, t0, now);
        assert(r@ == hotp_code(secret@, c, digits as nat));
    }
    r
}

/// The fixed domain-separation prefix mixed into every code hash.
pub open spec fn otp_domain() -> Seq<u8> {
    seq![79u8, 84u8, 80u8, 58u8, 118u8, 49u8]
}

/// The stored form of a one-time code: "0x" followed by the lower-case hex
/// of the Keccak-256 digest of the domain prefix and the code's bytes.
pub open spec fn hash_otp_spec(code_bytes: Seq<u8>) -> Seq<char> {
    seq!['0', 'x'] + hex_seq(keccak256_of(otp_domain() + code_bytes))
}

/// Hashes an OTP with domain separation, so that the plaintext code is
/// never stored or compared directly.
pub fn hash_otp(otp: &str) -> (r: String)
    ensures
        r@ == hash_otp_spec(otp.spec_bytes()),
{
    let mut input: Vec<u8> = Vec::new();
    input.push(79);
    input.push(84);
    input.push(80);
    input.push(58);
    input.push(118);
    input.push(49);
    let mut code_bytes = otp.as_bytes_vec();
    input.append(&mut code_bytes);
    proof {
        assert(input@ =~= otp_domain() + otp.spec_bytes());
    }
    let digest = keccak256(input.as_slice());
    let hex_digest = hex_lower(digest.as_slice());
    let mut out = String::new();
    out.append("0x");
    out.append(hex_digest.as_str());
    proof {
        reveal_strlit("0x");
        assert("0x"@ =~= seq!['0', 'x']);
        assert(out@ =~= hash_otp_spec(otp.spec_bytes()));
    }
    out
}

/// Equal codes hash equally: the stored form is a function of the code's
/// bytes alone, so comparing stored forms never rejects the right code.
pub proof fn lemma_hash_otp_deterministic(c1: Seq<u8>, c2: Seq<u8>)
    requires
        c1 == c2,
    ensures
        hash_otp_spec(c1) == hash_otp_spec(c2),
{
}

/// An identifier in stored form: "0x" followed by the hex of 32 bytes.
pub open spec fn hex_id(bytes: Seq<u8>) -> Seq<char> {
    seq!['0', 'x'] + hex_seq(bytes)
}

/// Generates a random 32-byte request ID, hex-encoded with a "0x" prefix.
/// The bytes are drawn from a secure generator, so only the shape is
/// promised.
pub fn generate_request_id() -> (r: String)
    ensures
        exists|b: Seq<u8>| b.len() == 32 && r@ == hex_id(b),
        r@.len() == 66,
{
    let bytes = random_bytes_32();
    let hex_digest = hex_lower(bytes.as_slice());
    let mut out = String::new();
    out.append("0x");
    out.append(hex_digest.as_str());
    proof {
        reveal_strlit("0x");
        assert("0x"@ =~= seq!['0', 'x']);
        assert(out@ =~= hex_id(bytes@));
    }
    out
}

/// Binds a request to a user: the hex of the Keccak-256 digest of the
/// user's bytes and 32 fresh random bytes, with a "0x" prefix.
pub fn bind_request_to_user(user_id: &str) -> (r: String)
    ensures
        exists|b: Seq<u8>|
            b.len() == 32 && r@ == hex_id(keccak256_of(user_id.spec_bytes() + b)),
        r@.len() == 66,
{
    let mut input = user_id.as_bytes_vec();
    let mut bytes = random_bytes_32();
    let ghost random_part = bytes@;
    input.append(&mut bytes);
    proof {
        assert(input@ =~= user_id.spec_bytes() + random_part);
    }
    let digest = keccak256(input.as_slice());
    let hex_digest = hex_lower(digest.as_slice());
    let mut out = String::new();
    out.append("0x");
    out.append(hex_digest.as_str());
    proof {
        reveal_strlit("0x");
        assert("0x"@ =~= seq!['0', 'x']);
        assert(out@ =~= hex_id(keccak256_of(user_id.spec_bytes() + random_part)));
    }
    out
}

/// Generates a 6-digit OTP from a secure random generator. The digits are
/// random, so only the shape is promised.
pub fn generate_otp_6() -> (r: String)
    ensures
        r@.len() == 6,
        forall|i: int| 0 <= i < 6 ==> '0' <= #[trigger] r@[i] <= '9',
{
    let mut out = String::new();
    let mut i: usize = 0;
    while i < 6
        invariant
            i <= 6,
            out@.len() == i,
            forall|j: int| 0 <= j < i ==> '0' <= #[trigger] out@[j] <= '9',
        decreases 6 - i,
    {
        let d = random_digit();
        out.append(digit_str(d as u64));
        i = i + 1;
    }
    out
}

} // verus!
