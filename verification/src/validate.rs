//! Input validation and display helpers: the checks a front end runs
//! before a request reaches the core, stated exactly.

use vstd::prelude::*;
use vstd::string::{StrSliceExecFns, StringSliceAdditionalSpecFns};
use vstd::utf8::is_ascii_chars;
use crate::text::{dec_plain, u64_to_dec};

verus! {

/// A well-formed one-time code: exactly six decimal digits.
pub open spec fn valid_otp_code(s: Seq<char>) -> bool {
    s.len() == 6 && forall|i: int| 0 <= i < s.len() ==> '0' <= #[trigger] s[i] <= '9'
}

/// A well-formed user identifier: between one and one hundred bytes.
pub open spec fn valid_user_id(bytes: Seq<u8>) -> bool {
    1 <= bytes.len() <= 100
}

/// A well-formed request identifier: between one and one hundred bytes.
pub open spec fn valid_request_id(bytes: Seq<u8>) -> bool {
    1 <= bytes.len() <= 100
}

/// Whether every character of `s` is a decimal digit.
pub fn all_digit_chars(s: &str) -> (r: bool)
    ensures
        r == (forall|i: int| 0 <= i < s@.len() ==> '0' <= #[trigger] s@[i] <= '9'),
{
    if !s.is_ascii() {
        proof {
            let i = choose|i: int|
                0 <= i < s@.len() && !('\0' <= #[trigger] s@[i] <= '\u{7f}');
            assert(!('0' <= s@[i] <= '9'));
        }
        return false;
    }
    let n = s.unicode_len();
    let mut i: usize = 0;
    while i < n
        invariant
            i <= n,
            n == s@.len(),
            s.is_ascii(),
            forall|j: int| 0 <= j < i ==> '0' <= #[trigger] s@[j] <= '9',
        decreases n - i,
    {
        let b = s.get_ascii(i);
        if b < 48 || b > 57 {
            return false;
        }
        i = i + 1;
    }
    true
}

/// Validate an OTP input (should be exactly 6 digits).
pub fn validate_otp(otp: &str) -> (r: bool)
    ensures
        r == valid_otp_code(otp@),
{
    if !all_digit_chars(otp) {
        return false;
    }
    proof {
        if otp@.len() > 0 {
            assert(is_ascii_chars(otp@));
        }
        vstd::utf8::is_ascii_chars_encode_utf8(otp@);
    }
    otp.unicode_len() == 6
}

/// Validate a user ID (non-empty and at most one hundred bytes).
pub fn validate_user_id(user_id: &str) -> (r: bool)
    ensures
        r == valid_user_id(user_id.spec_bytes()),
{
    let n = user_id.as_bytes().len();
    1 <= n && n <= 100
}

/// Format a timestamp as a human-readable string: its decimal digits.
pub fn format_timestamp(timestamp: u64) -> (r: String)
    ensures
        r@ == dec_plain(timestamp as nat),
{
    u64_to_dec(timestamp)
}

} // verus!
