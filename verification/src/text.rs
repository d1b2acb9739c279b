//! Text utilities: decimal digit strings in their mathematical form with
//! executable builders proved against it, and string comparison.

use vstd::prelude::*;
use vstd::string::{StringExecFns, StringSliceAdditionalSpecFns};

verus! {

/// Whether two string slices hold the same characters. UTF-8 encoding is
/// injective, so comparing the bytes decides it.
pub fn str_eq(a: &str, b: &str) -> (r: bool)
    ensures
        r == (a@ == b@),
{
    let ab = a.as_bytes();
    let bb = b.as_bytes();
    let n = ab.len();
    if n != bb.len() {
        return false;
    }
    let mut i: usize = 0;
    while i < n
        invariant
            i <= n,
            n == ab@.len(),
            n == bb@.len(),
            ab@ == a.spec_bytes(),
            bb@ == b.spec_bytes(),
            forall|j: int| 0 <= j < i ==> ab@[j] == bb@[j],
        decreases n - i,
    {
        if ab[i] != bb[i] {
            return false;
        }
        i = i + 1;
    }
    proof {
        assert(a.spec_bytes() =~= b.spec_bytes());
        vstd::utf8::encode_utf8_decode_utf8(a@);
        vstd::utf8::encode_utf8_decode_utf8(b@);
    }
    true
}

/// 10^n.
pub open spec fn pow10(n: nat) -> nat
    decreases n,
{
    if n == 0 {
        1
    } else {
        10 * pow10((n - 1) as nat)
    }
}

/// The character for one decimal digit.
pub open spec fn digit_char(d: nat) -> char {
    if d == 0 {
        '0'
    } else if d == 1 {
        '1'
    } else if d == 2 {
        '2'
    } else if d == 3 {
        '3'
    } else if d == 4 {
        '4'
    } else if d == 5 {
        '5'
    } else if d == 6 {
        '6'
    } else if d == 7 {
        '7'
    } else if d == 8 {
        '8'
    } else {
        '9'
    }
}

/// `v` written in decimal, left-padded with zeros to exactly `width` digits.
/// Digits above the width are cut off, so the caller wants `v < pow10(width)`.
pub open spec fn dec_padded(v: nat, width: nat) -> Seq<char>
    decreases width,
{
    if width == 0 {
        Seq::empty()
    } else {
        dec_padded(v / 10, (width - 1) as nat).push(digit_char(v % 10))
    }
}

/// `v` written in decimal without padding; zero is written "0".
pub open spec fn dec_plain(v: nat) -> Seq<char>
    decreases v,
{
    if v < 10 {
        seq![digit_char(v)]
    } else {
        dec_plain(v / 10).push(digit_char(v % 10))
    }
}

/// Every character of a padded decimal string is an ASCII digit.
pub broadcast proof fn lemma_dec_padded_digits(v: nat, width: nat)
    ensures
        #[trigger] dec_padded(v, width).len() == width,
        forall|i: int|
            0 <= i < width ==> '0' <= #[trigger] dec_padded(v, width)[i] <= '9',
    decreases width,
{
    if width > 0 {
        lemma_dec_padded_digits(v / 10, (width - 1) as nat);
    }
}

/// A single decimal digit as a string slice.
pub fn digit_str(d: u64) -> (s: &'static str)
    requires
        d < 10,
    ensures
        s@ == seq![digit_char(d as nat)],
{
    let s: &'static str = if d == 0 {
        "0"
    } else if d == 1 {
        "1"
    } else if d == 2 {
        "2"
    } else if d == 3 {
        "3"
    } else if d == 4 {
        "4"
    } else if d == 5 {
        "5"
    } else if d == 6 {
        "6"
    } else if d == 7 {
        "7"
    } else if d == 8 {
        "8"
    } else {
        "9"
    };
    proof {
        reveal_strlit("0");
        reveal_strlit("1");
        reveal_strlit("2");
        reveal_strlit("3");
        reveal_strlit("4");
        reveal_strlit("5");
        reveal_strlit("6");
        reveal_strlit("7");
        reveal_strlit("8");
        reveal_strlit("9");
        assert(s@ =~= seq![digit_char(d as nat)]);
    }
    s
}

/// Appends `v` in decimal, left-padded with zeros to `width` digits.
pub fn append_dec_padded(out: &mut String, v: u64, width: usize)
    requires
        v < pow10(width as nat),
    ensures
        final(out)@ == old(out)@ + dec_padded(v as nat, width as nat),
    decreases width,
{
    if width == 0 {
        proof {
            assert(old(out)@ + dec_padded(v as nat, 0) =~= old(out)@);
        }
        return ;
    }
    let rest: u64 = v / 10;
    proof {
        assert(pow10(width as nat) == 10 * pow10((width - 1) as nat));
        assert(rest < pow10((width - 1) as nat));
    }
    append_dec_padded(out, rest, width - 1);
    out.append(digit_str(v % 10));
    proof {
        assert(out@ =~= old(out)@ + dec_padded(v as nat, width as nat));
    }
}

/// `v` in decimal without padding.
pub fn u64_to_dec(v: u64) -> (s: String)
    ensures
        s@ == dec_plain(v as nat),
{
    let mut out = String::new();
    append_dec_plain(&mut out, v);
    proof {
        assert(out@ =~= dec_plain(v as nat));
    }
    out
}

/// Appends `v` in decimal without padding.
pub fn append_dec_plain(out: &mut String, v: u64)
    ensures
        final(out)@ == old(out)@ + dec_plain(v as nat),
    decreases v,
{
    if v < 10 {
        out.append(digit_str(v));
        proof {
            assert(out@ =~= old(out)@ + dec_plain(v as nat));
        }
    } else {
        append_dec_plain(out, v / 10);
        out.append(digit_str(v % 10));
        proof {
            assert(out@ =~= old(out)@ + dec_plain(v as nat));
        }
    }
}

} // verus!
