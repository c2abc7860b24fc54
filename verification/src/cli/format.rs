//! Writing numbers as text: decimal with zero padding (as `{:0N}`
//! formats) and lowercase hexadecimal.

use vstd::prelude::*;
use vstd::string::*;
use crate::cli::hex::{hex_char, hex_digit_str};

verus! {

/// The decimal digits of `n`, most significant first, without leading
/// zeros (`"0"` for zero).
pub open spec fn decimal_digits(n: nat) -> Seq<char>
    decreases n,
{
    if n < 10 {
        seq![hex_char(n)]
    } else {
        decimal_digits(n / 10).push(hex_char(n % 10))
    }
}

/// `k` zero characters (none when `k <= 0`).
pub open spec fn zeros(k: int) -> Seq<char> {
    Seq::new(if k > 0 { k as nat } else { 0 }, |i: int| '0')
}

/// `n` in decimal, zero-padded to at least `width` characters after any
/// minus sign is counted, as `format!("{n:0width$}")` writes it.
pub open spec fn padded_decimal(n: int, width: int) -> Seq<char> {
    if n < 0 {
        seq!['-'] + zeros(width - 1 - decimal_digits((-n) as nat).len()) + decimal_digits((-n) as nat)
    } else {
        zeros(width - decimal_digits(n as nat).len()) + decimal_digits(n as nat)
    }
}

/// The decimal digit values of `n`, most significant first.
fn decimal_digit_values(n: u64) -> (r: Vec<u8>)
    ensures
        r@.len() == decimal_digits(n as nat).len(),
        forall|i: int| 0 <= i < r@.len() ==> #[trigger] r@[i] < 10 && hex_char(r@[i] as nat) == decimal_digits(n as nat)[i],
    decreases n,
{
    if n < 10 {
        let mut v: Vec<u8> = Vec::new();
        v.push(n as u8);
        v
    } else {
        let mut v = decimal_digit_values(n / 10);
        let ghost before = v@;
        v.push((n % 10) as u8);
        proof {
            assert forall|i: int| 0 <= i < v@.len() implies #[trigger] v@[i] < 10 && hex_char(v@[i] as nat) == decimal_digits(n as nat)[i] by {
                if i < before.len() {
                    assert(v@[i] == before[i]);
                }
            }
        }
        v
    }
}

/// Appends `k` zero characters to `s`.
fn append_zeros(s: &mut String, k: usize)
    ensures
        final(s)@ == old(s)@ + zeros(k as int),
{
    proof {
        reveal_strlit("0");
    }
    let mut i: usize = 0;
    while i < k
        invariant
            i <= k,
            s@ == old(s)@ + zeros(i as int),
        decreases k - i,
    {
        s.append("0");
        proof {
            reveal_strlit("0");
            assert(old(s)@ + zeros(i as int) + seq!['0'] =~= old(s)@ + zeros(i + 1));
        }
        i = i + 1;
    }
}

/// Appends `n` in decimal, zero-padded to `width` characters, to `s`.
pub fn append_padded(s: &mut String, n: u64, width: usize)
    ensures
        final(s)@ == old(s)@ + padded_decimal(n as int, width as int),
{
    let digits = decimal_digit_values(n);
    let pad: usize = if digits.len() < width { width - digits.len() } else { 0 };
    append_zeros(s, pad);
    let ghost start = s@;
    let mut i: usize = 0;
    while i < digits.len()
        invariant
            i <= digits@.len(),
            digits@.len() == decimal_digits(n as nat).len(),
            forall|j: int| 0 <= j < digits@.len() ==> #[trigger] digits@[j] < 10 && hex_char(digits@[j] as nat) == decimal_digits(n as nat)[j],
            s@ == start + decimal_digits(n as nat).take(i as int),
        decreases digits@.len() - i,
    {
        let d = digits[i];
        s.append(hex_digit_str(d));
        proof {
            assert(decimal_digits(n as nat).take(i as int).push(decimal_digits(n as nat)[i as int])
                =~= decimal_digits(n as nat).take(i + 1));
        }
        i = i + 1;
    }
    proof {
        assert(decimal_digits(n as nat).take(digits@.len() as int) =~= decimal_digits(n as nat));
        assert(zeros(pad as int) =~= zeros(width - decimal_digits(n as nat).len()));
    }
}

/// Appends `n` in decimal, zero-padded to `width` characters after its
/// sign, to `s`.
pub fn append_padded_signed(s: &mut String, n: i64, width: usize)
    requires
        width >= 1,
    ensures
        final(s)@ == old(s)@ + padded_decimal(n as int, width as int),
{
    if n < 0 {
        proof {
            reveal_strlit("-");
        }
        s.append("-");
        let magnitude: u64 = if n == i64::MIN { 0x8000_0000_0000_0000u64 } else { (-n) as u64 };
        let ghost mid = s@;
        append_padded(s, magnitude, width - 1);
        proof {
            assert(s@ =~= old(s)@ + padded_decimal(n as int, width as int));
        }
    } else {
        append_padded(s, n as u64, width);
    }
}

/// The four lowercase hexadecimal digits of `v`, most significant first.
pub open spec fn hex4_digits(v: u16) -> Seq<char> {
    seq![hex_char((v / 4096) as nat), hex_char((v / 256 % 16) as nat), hex_char((v / 16 % 16) as nat), hex_char((v % 16) as nat)]
}

/// `v` as `0x` followed by four lowercase hexadecimal digits, as
/// `format!("{v:#06x}")` writes a `u16`.
pub fn hex4(v: u16) -> (r: String)
    ensures
        r@ == seq!['0', 'x'] + hex4_digits(v),
{
    proof {
        reveal_strlit("0x");
    }
    let mut s = String::new();
    s.append("0x");
    s.append(hex_digit_str((v / 4096) as u8));
    s.append(hex_digit_str((v / 256 % 16) as u8));
    s.append(hex_digit_str((v / 16 % 16) as u8));
    s.append(hex_digit_str((v % 16) as u8));
    assert(s@ =~= seq!['0', 'x'] + hex4_digits(v));
    s
}

} // verus!
