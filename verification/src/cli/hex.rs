//! Hexadecimal digits: reading them (as `from_str_radix(.., 16)` does for
//! unsigned integers) and writing them.

use vstd::prelude::*;
use vstd::string::*;

verus! {

/// The value of a hexadecimal digit, either case.
pub open spec fn hex_digit_value(c: char) -> Option<nat> {
    if '0' <= c && c <= '9' {
        Some((c as nat - '0' as nat) as nat)
    } else if 'a' <= c && c <= 'f' {
        Some((c as nat - 'a' as nat + 10) as nat)
    } else if 'A' <= c && c <= 'F' {
        Some((c as nat - 'A' as nat + 10) as nat)
    } else {
        None
    }
}

/// Why text is not a hexadecimal unsigned integer, as the standard
/// library's `from_str_radix` reports it.
#[derive(Debug, Clone, Copy, PartialEq, Eq, Structural)]
pub enum IntErrorKind {
    /// The text is empty.
    Empty,
    /// A character is not a hexadecimal digit (a lone sign counts too).
    InvalidDigit,
    /// The value does not fit.
    PosOverflow,
}

impl IntErrorKind {
    /// The standard library's wording for each kind.
    pub open spec fn spec_message(self) -> Seq<char> {
        match self {
            IntErrorKind::Empty => "cannot parse integer from empty string"@,
            IntErrorKind::InvalidDigit => "invalid digit found in string"@,
            IntErrorKind::PosOverflow => "number too large to fit in target type"@,
        }
    }

    /// The standard library's wording for this kind.
    pub fn message(self) -> (r: &'static str)
        ensures
            r@ == self.spec_message(),
    {
        match self {
            IntErrorKind::Empty => "cannot parse integer from empty string",
            IntErrorKind::InvalidDigit => "invalid digit found in string",
            IntErrorKind::PosOverflow => "number too large to fit in target type",
        }
    }
}

/// Reads `digits` left to right as a hexadecimal number no larger than
/// `max`: the first character that is no digit, or the first digit that
/// takes the value past `max`, decides the error.
pub open spec fn hex_digits_value(digits: Seq<char>, max: nat) -> Result<nat, IntErrorKind>
    decreases digits.len(),
{
    if digits.len() == 0 {
        Ok(0)
    } else {
        match hex_digits_value(digits.drop_last(), max) {
            Err(e) => Err(e),
            Ok(acc) => match hex_digit_value(digits.last()) {
                None => Err(IntErrorKind::InvalidDigit),
                Some(v) => if acc * 16 + v > max { Err(IntErrorKind::PosOverflow) } else { Ok(acc * 16 + v) },
            },
        }
    }
}

/// `from_str_radix(text, 16)` for an unsigned type whose largest value is
/// `max`: an optional leading `+`, then hexadecimal digits.
pub open spec fn parse_hex_unsigned(text: Seq<char>, max: nat) -> Result<nat, IntErrorKind> {
    if text.len() == 0 {
        Err(IntErrorKind::Empty)
    } else if text.len() == 1 && (text[0] == '+' || text[0] == '-') {
        Err(IntErrorKind::InvalidDigit)
    } else if text[0] == '+' {
        hex_digits_value(text.drop_first(), max)
    } else {
        hex_digits_value(text, max)
    }
}

/// The value of a hexadecimal digit.
pub fn hex_digit(c: char) -> (r: Option<u8>)
    ensures
        match hex_digit_value(c) {
            Some(v) => r == Some(v as u8),
            None => r is None,
        },
{
    if '0' <= c && c <= '9' {
        Some((c as u8) - 48)
    } else if 'a' <= c && c <= 'f' {
        Some((c as u8) - 87)
    } else if 'A' <= c && c <= 'F' {
        Some((c as u8) - 55)
    } else {
        None
    }
}

proof fn lemma_hex_digits_bounded(digits: Seq<char>, max: nat)
    ensures
        hex_digits_value(digits, max) matches Ok(v) ==> v <= max,
    decreases digits.len(),
{
    if digits.len() > 0 {
        lemma_hex_digits_bounded(digits.drop_last(), max);
    }
}

/// `from_str_radix(text, 16)` into a `u16`.
pub fn parse_hex_u16(text: &str) -> (r: Result<u16, IntErrorKind>)
    ensures
        match parse_hex_unsigned(text@, 0xffff) {
            Ok(v) => r == Ok::<u16, IntErrorKind>(v as u16),
            Err(e) => r == Err::<u16, IntErrorKind>(e),
        },
{
    let n = text.unicode_len();
    if n == 0 {
        return Err(IntErrorKind::Empty);
    }
    let first = text.get_char(0);
    if n == 1 && (first == '+' || first == '-') {
        return Err(IntErrorKind::InvalidDigit);
    }
    let start: usize = if first == '+' { 1 } else { 0 };
    let ghost digits = text@.skip(start as int);
    proof {
        if start == 1 {
            assert(digits =~= text@.drop_first());
        } else {
            assert(digits =~= text@);
        }
    }
    let mut acc: u32 = 0;
    let mut i: usize = start;
    while i < n
        invariant
            n == text@.len(),
            start <= i <= n,
            digits == text@.skip(start as int),
            parse_hex_unsigned(text@, 0xffff) == hex_digits_value(digits, 0xffff),
            hex_digits_value(digits.take(i - start), 0xffff) == Ok::<nat, IntErrorKind>(acc as nat),
            acc <= 0xffff,
        decreases n - i,
    {
        proof {
            assert(digits.take(i + 1 - start).drop_last() =~= digits.take(i - start));
            assert(digits.take(i + 1 - start).last() == text@[i as int]);
        }
        let c = text.get_char(i);
        match hex_digit(c) {
            None => {
                proof {
                    lemma_error_persists(digits, (i + 1 - start) as nat, 0xffff);
                    assert(digits.take(digits.len() as int) =~= digits);
                }
                return Err(IntErrorKind::InvalidDigit);
            },
            Some(v) => {
                if acc * 16 + (v as u32) > 0xffff {
                    proof {
                        lemma_error_persists(digits, (i + 1 - start) as nat, 0xffff);
                        assert(digits.take(digits.len() as int) =~= digits);
                    }
                    return Err(IntErrorKind::PosOverflow);
                }
                acc = acc * 16 + (v as u32);
            },
        }
        i = i + 1;
    }
    proof {
        assert(digits.take(n - start) =~= digits);
    }
    Ok(acc as u16)
}

/// Once a prefix of the digits is an error, so is every longer prefix,
/// with the same error.
pub proof fn lemma_error_persists(digits: Seq<char>, k: nat, max: nat)
    requires
        k <= digits.len(),
        hex_digits_value(digits.take(k as int), max) is Err,
    ensures
        hex_digits_value(digits, max) == hex_digits_value(digits.take(k as int), max),
    decreases digits.len() - k,
{
    if k < digits.len() {
        assert(digits.take(k as int + 1).drop_last() =~= digits.take(k as int));
        lemma_error_persists(digits, k + 1, max);
    } else {
        assert(digits.take(k as int) =~= digits);
    }
}

/// A lowercase hexadecimal digit for `v < 16`.
pub open spec fn hex_char(v: nat) -> char {
    if v < 10 {
        (48 + v) as char
    } else {
        (87 + v) as char
    }
}

/// The lowercase hexadecimal digit for `v < 16`, as a one-character string.
pub fn hex_digit_str(v: u8) -> (r: &'static str)
    requires
        v < 16,
    ensures
        r@ == seq![hex_char(v as nat)],
{
    proof {
        reveal_strlit("0");
        reveal_strlit("1");
        reveal_strlit("2");
        reveal_strlit("3");
        reveal_strlit("4");
        reveal_strlit("5");
        reveal_strlit("6");
        reveal_strlit("7");
        reveal_strlit("8");
        reveal_strlit("9");
        reveal_strlit("a");
        reveal_strlit("b");
        reveal_strlit("c");
        reveal_strlit("d");
        reveal_strlit("e");
        reveal_strlit("f");
    }
    match v {
        0 => "0",
        1 => "1",
        2 => "2",
        3 => "3",
        4 => "4",
        5 => "5",
        6 => "6",
        7 => "7",
        8 => "8",
        9 => "9",
        10 => "a",
        11 => "b",
        12 => "c",
        13 => "d",
        14 => "e",
        _ => "f",
    }
}

} // verus!
