//! `rgb`'s arguments, and parsing `RRGGBB` colors for `rgb set` and
//! `lighting set --color`.

use vstd::prelude::*;
use vstd::string::*;
use vstd::utf8::is_ascii_chars;
use crate::capability::RgbColor;
use crate::cli::hex::{hex_digit, hex_digit_value};
use crate::cli::actions::RgbAction;

verus! {

/// Why text is not an `RRGGBB` color.
#[derive(Debug, Clone, Copy, PartialEq, Eq, Structural)]
pub enum ColorError {
    /// Not six ASCII characters once leading `#`s are dropped.
    WrongLength,
    /// A two-character channel is not a hexadecimal byte.
    InvalidDigit,
}

impl ColorError {
    /// The message shown for each error.
    pub open spec fn spec_message(self) -> Seq<char> {
        match self {
            ColorError::WrongLength => "expected 6 hex digits, e.g. ff0000"@,
            ColorError::InvalidDigit => "invalid digit found in string"@,
        }
    }

    /// The message shown for this error.
    pub fn message(self) -> (r: &'static str)
        ensures
            r@ == self.spec_message(),
    {
        match self {
            ColorError::WrongLength => "expected 6 hex digits, e.g. ff0000",
            ColorError::InvalidDigit => "invalid digit found in string",
        }
    }
}

/// `s` without any of its leading `c` characters.
pub open spec fn trim_leading(s: Seq<char>, c: char) -> Seq<char>
    decreases s.len(),
{
    if s.len() > 0 && s[0] == c {
        trim_leading(s.drop_first(), c)
    } else {
        s
    }
}

/// Characters `i` and `i + 1` of `t` read as a hexadecimal byte: both
/// must be hexadecimal digits (either case), most significant first.
pub open spec fn channel(t: Seq<char>, i: int) -> Option<nat> {
    match (hex_digit_value(t[i]), hex_digit_value(t[i + 1])) {
        (Some(x), Some(y)) => Some(16 * x + y),
        _ => None,
    }
}

/// What `parse_hex_color` returns for text `s`: leading `#`s are dropped,
/// then exactly six ASCII characters must remain, and they must be six
/// hexadecimal digits, read as three bytes (red, green, blue).
pub open spec fn spec_parse_hex_color(s: Seq<char>) -> Result<RgbColor, ColorError> {
    let t = trim_leading(s, '#');
    if t.len() != 6 || !is_ascii_chars(t) {
        Err(ColorError::WrongLength)
    } else {
        match (channel(t, 0), channel(t, 2), channel(t, 4)) {
            (Some(r), Some(g), Some(b)) => Ok(RgbColor { r: r as u8, g: g as u8, b: b as u8 }),
            _ => Err(ColorError::InvalidDigit),
        }
    }
}

/// Reads two hexadecimal digits as a byte.
fn parse_channel(a: char, b: char) -> (r: Option<u8>)
    ensures
        match channel(seq![a, b], 0) {
            Some(v) => r == Some(v as u8),
            None => r is None,
        },
{
    match (hex_digit(a), hex_digit(b)) {
        (Some(x), Some(y)) => {
            assert(x < 16 && y < 16);
            Some(x * 16 + y)
        },
        _ => None,
    }
}

/// Counts the leading `c` characters of `s`.
fn count_leading(s: &str, c: char) -> (k: usize)
    ensures
        k <= s@.len(),
        trim_leading(s@, c) == s@.skip(k as int),
{
    let n = s.unicode_len();
    let mut k: usize = 0;
    proof {
        assert(s@.skip(0) =~= s@);
    }
    while k < n && s.get_char(k) == c
        invariant
            n == s@.len(),
            k <= n,
            trim_leading(s@, c) == trim_leading(s@.skip(k as int), c),
        decreases n - k,
    {
        proof {
            assert(s@.skip(k as int).drop_first() =~= s@.skip(k + 1));
        }
        k = k + 1;
    }
    k
}

/// Parses `RRGGBB` hex (with any number of leading `#`) into an
/// [`RgbColor`]. Anything that is not exactly six ASCII characters after
/// the `#`s is rejected before any slicing, so multi-byte UTF-8 input
/// fails cleanly instead of panicking; then every one of the six must be a
/// hexadecimal digit (a sign is not one).
pub fn parse_hex_color(s: &str) -> (r: Result<RgbColor, ColorError>)
    ensures
        r == spec_parse_hex_color(s@),
{
    let k = count_leading(s, '#');
    let n = s.unicode_len();
    let t = s.substring_char(k, n);
    assert(t@ =~= trim_leading(s@, '#'));
    if t.unicode_len() != 6 || !t.is_ascii() {
        return Err(ColorError::WrongLength);
    }
    let r = parse_channel(t.get_char(0), t.get_char(1));
    let g = parse_channel(t.get_char(2), t.get_char(3));
    let b = parse_channel(t.get_char(4), t.get_char(5));
    match (r, g, b) {
        (Some(r), Some(g), Some(b)) => Ok(RgbColor { r, g, b }),
        _ => Err(ColorError::InvalidDigit),
    }
}

/// `rgb`'s arguments.
#[derive(Debug, Clone, PartialEq, Eq)]
pub struct Args {
    /// Which device to target, as `VID:PID` hex; needed only when more
    /// than one supported device is detected.
    pub device: Option<String>,
    /// What to do.
    pub action: RgbAction,
}

} // verus!
