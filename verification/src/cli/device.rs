//! Picking the one peripheral a subcommand targets: parsing the
//! `--device VID:PID` selector and choosing among the supported devices.

use vstd::prelude::*;
use vstd::string::*;
use crate::discovery::pipeline::Discovered;
use crate::registry::{first_recognizing, DriverRegistry};
use crate::cli::format::{hex4, hex4_digits};
use crate::cli::report::hex4_text;
use crate::cli::discover::text_or;
use crate::cli::hex::{hex_char, hex_digit_value, hex_digits_value, parse_hex_u16, parse_hex_unsigned, IntErrorKind};

verus! {

/// Exit code for a normal run.
pub const EXIT_OK: i32 = 0;
/// Exit code for a failure talking to hardware.
pub const EXIT_FAILED: i32 = 1;
/// Exit code for a usage problem: an ambiguous or missing device
/// selection, or an argument that does not parse.
pub const EXIT_USAGE: i32 = 2;

/// Why a `VID:PID` selector does not parse.
#[derive(Debug, Clone, PartialEq, Eq)]
pub enum VidPidError {
    /// No `:` separates the two ids.
    MissingSeparator,
    /// The part before the `:` is not a hexadecimal `u16`.
    BadVendorId {
        /// The part before the `:`, as given.
        text: String,
        /// Why it does not parse.
        kind: IntErrorKind,
    },
    /// The part after the `:` is not a hexadecimal `u16`.
    BadProductId {
        /// The part after the `:`, as given.
        text: String,
        /// Why it does not parse.
        kind: IntErrorKind,
    },
}

/// The index of the first `c` in `s`, if any.
pub open spec fn first_index_of(s: Seq<char>, c: char) -> Option<int>
    decreases s.len(),
{
    if s.len() == 0 {
        None
    } else if s[0] == c {
        Some(0)
    } else {
        match first_index_of(s.drop_first(), c) {
            Some(i) => Some(i + 1),
            None => None,
        }
    }
}

/// `s` with every leading `0x` removed.
pub open spec fn strip_hex_prefixes(s: Seq<char>) -> Seq<char>
    decreases s.len(),
{
    if s.len() >= 2 && s[0] == '0' && s[1] == 'x' {
        strip_hex_prefixes(s.skip(2))
    } else {
        s
    }
}

/// One id of a selector: any number of `0x` prefixes, then a hexadecimal
/// `u16`.
pub open spec fn spec_id(text: Seq<char>) -> Result<nat, IntErrorKind> {
    parse_hex_unsigned(strip_hex_prefixes(text), 0xffff)
}

/// `first_index_of` finds the first occurrence.
pub proof fn lemma_first_index_of(s: Seq<char>, c: char)
    ensures
        match first_index_of(s, c) {
            Some(i) => 0 <= i < s.len() && s[i] == c && forall|j: int| 0 <= j < i ==> s[j] != c,
            None => forall|j: int| 0 <= j < s.len() ==> s[j] != c,
        },
    decreases s.len(),
{
    if s.len() > 0 && s[0] != c {
        lemma_first_index_of(s.drop_first(), c);
        match first_index_of(s.drop_first(), c) {
            Some(i) => {
                assert forall|j: int| 0 <= j < i + 1 implies s[j] != c by {
                    if j > 0 {
                        assert(s[j] == s.drop_first()[j - 1]);
                    }
                }
            },
            None => {
                assert forall|j: int| 0 <= j < s.len() implies s[j] != c by {
                    if j > 0 {
                        assert(s[j] == s.drop_first()[j - 1]);
                    }
                }
            },
        }
    }
}

/// The position of the first `c` in `s`, if any.
pub fn find_char(s: &str, c: char) -> (r: Option<usize>)
    ensures
        match first_index_of(s@, c) {
            Some(i) => r == Some(i as usize),
            None => r is None,
        },
{
    proof {
        lemma_first_index_of(s@, c);
    }
    let n = s.unicode_len();
    let mut i: usize = 0;
    while i < n
        invariant
            n == s@.len(),
            i <= n,
            forall|j: int| 0 <= j < i ==> s@[j] != c,
            match first_index_of(s@, c) {
                Some(k) => 0 <= k < s@.len() && s@[k] == c && forall|j: int| 0 <= j < k ==> s@[j] != c,
                None => forall|j: int| 0 <= j < s@.len() ==> s@[j] != c,
            },
        decreases n - i,
    {
        if s.get_char(i) == c {
            return Some(i);
        }
        i = i + 1;
    }
    None
}

fn strip_prefixes<'a>(s: &'a str) -> (r: &'a str)
    ensures
        r@ == strip_hex_prefixes(s@),
{
    let n = s.unicode_len();
    let mut k: usize = 0;
    proof {
        assert(s@.skip(0) =~= s@);
    }
    while n - k >= 2 && s.get_char(k) == '0' && s.get_char(k + 1) == 'x'
        invariant
            n == s@.len(),
            k <= n,
            strip_hex_prefixes(s@) == strip_hex_prefixes(s@.skip(k as int)),
        decreases n - k,
    {
        proof {
            assert(s@.skip(k as int).skip(2) =~= s@.skip(k + 2));
        }
        k = k + 2;
    }
    let r = s.substring_char(k, n);
    assert(r@ =~= s@.skip(k as int));
    r
}

/// Parses one id of a selector.
fn parse_id(text: &str) -> (r: Result<u16, IntErrorKind>)
    ensures
        match spec_id(text@) {
            Ok(v) => r == Ok::<u16, IntErrorKind>(v as u16),
            Err(e) => r == Err::<u16, IntErrorKind>(e),
        },
{
    parse_hex_u16(strip_prefixes(text))
}

/// Parses a `VID:PID` selector (hexadecimal, each part optionally
/// `0x`-prefixed, split at the first `:`).
pub fn parse_vid_pid(s: &str) -> (r: Result<(u16, u16), VidPidError>)
    ensures
        match first_index_of(s@, ':') {
            None => r matches Err(VidPidError::MissingSeparator),
            Some(p) => match (spec_id(s@.take(p)), spec_id(s@.skip(p + 1))) {
                (Err(e), _) => r matches Err(VidPidError::BadVendorId { text, kind }) && text@ == s@.take(p) && kind == e,
                (Ok(_), Err(e)) => r matches Err(VidPidError::BadProductId { text, kind }) && text@ == s@.skip(p + 1) && kind == e,
                (Ok(v), Ok(w)) => r matches Ok((a, b)) && a == v && b == w,
            },
        },
{
    let p = match find_char(s, ':') {
        Some(p) => p,
        None => return Err(VidPidError::MissingSeparator),
    };
    proof {
        lemma_first_index_of(s@, ':');
    }
    let n = s.unicode_len();
    let vid = s.substring_char(0, p);
    let pid = s.substring_char(p + 1, n);
    assert(vid@ =~= s@.take(p as int));
    assert(pid@ =~= s@.skip(p + 1));
    let vendor_id = match parse_id(vid) {
        Ok(v) => v,
        Err(kind) => return Err(VidPidError::BadVendorId { text: vid.to_owned(), kind }),
    };
    let product_id = match parse_id(pid) {
        Ok(v) => v,
        Err(kind) => return Err(VidPidError::BadProductId { text: pid.to_owned(), kind }),
    };
    Ok((vendor_id, product_id))
}

/// Why no single device could be picked.
#[derive(Debug, Clone, PartialEq, Eq)]
pub enum SelectError {
    /// The `--device` selector does not parse.
    InvalidSelector(VidPidError),
    /// No supported device has the selected ids.
    NoMatch,
    /// No supported device was detected at all.
    NoneSupported,
    /// More than one supported device was detected and none was selected.
    Ambiguous,
}

/// `found` has the selected vendor and product ids.
pub open spec fn matches_ids(found: Discovered, vendor_id: u16, product_id: u16) -> bool {
    found.identity.vendor_id == vendor_id && found.identity.product_id == product_id
}

/// Picks one device out of `supported`: with a `VID:PID` selector, the
/// first supported device with those ids; without one, the only
/// supported device, if there is exactly one.
pub fn select_device<'a>(supported: &'a [Discovered], selector: Option<&str>) -> (r: Result<&'a Discovered, SelectError>)
    ensures
        match selector {
            Some(sel) => match first_index_of(sel@, ':') {
                None => r matches Err(SelectError::InvalidSelector(VidPidError::MissingSeparator)),
                Some(p) => match (spec_id(sel@.take(p)), spec_id(sel@.skip(p + 1))) {
                    (Ok(v), Ok(w)) => match r {
                        Ok(found) => exists|i: int| 0 <= i < supported@.len() && *found == supported@[i]
                            && matches_ids(supported@[i], v as u16, w as u16)
                            && forall|j: int| 0 <= j < i ==> !matches_ids(#[trigger] supported@[j], v as u16, w as u16),
                        Err(e) => e == SelectError::NoMatch
                            && forall|j: int| 0 <= j < supported@.len() ==> !matches_ids(#[trigger] supported@[j], v as u16, w as u16),
                    },
                    _ => r matches Err(SelectError::InvalidSelector(_)),
                },
            },
            None => match r {
                Ok(found) => supported@.len() == 1 && *found == supported@[0],
                Err(e) => (supported@.len() == 0 && e == SelectError::NoneSupported)
                    || (supported@.len() > 1 && e == SelectError::Ambiguous),
            },
        },
{
    match selector {
        Some(sel) => {
            let (vendor_id, product_id) = match parse_vid_pid(sel) {
                Ok(ids) => ids,
                Err(e) => return Err(SelectError::InvalidSelector(e)),
            };
            let ghost p = first_index_of(sel@, ':').unwrap();
            assert(spec_id(sel@.take(p)) == Ok::<nat, IntErrorKind>(vendor_id as nat));
            assert(spec_id(sel@.skip(p + 1)) == Ok::<nat, IntErrorKind>(product_id as nat));
            let mut i: usize = 0;
            while i < supported.len()
                invariant
                    i <= supported@.len(),
                    selector == Some(sel),
                    first_index_of(sel@, ':') == Some(p),
                    spec_id(sel@.take(p)) == Ok::<nat, IntErrorKind>(vendor_id as nat),
                    spec_id(sel@.skip(p + 1)) == Ok::<nat, IntErrorKind>(product_id as nat),
                    forall|j: int| 0 <= j < i ==> !matches_ids(#[trigger] supported@[j], vendor_id, product_id),
                decreases supported@.len() - i,
            {
                let found = &supported[i];
                if found.identity.vendor_id == vendor_id && found.identity.product_id == product_id {
                    assert(*found == supported@[i as int]);
                    return Ok(found);
                }
                i = i + 1;
            }
            Err(SelectError::NoMatch)
        },
        None => {
            if supported.len() == 0 {
                Err(SelectError::NoneSupported)
            } else if supported.len() == 1 {
                Ok(&supported[0])
            } else {
                Err(SelectError::Ambiguous)
            }
        },
    }
}

/// Some registered driver recognizes `found`.
pub open spec fn is_supported(registry: DriverRegistry, found: Discovered) -> bool {
    first_recognizing(registry.drivers(), found.identity) is Some
}

/// The devices among `discovered` that some registered driver
/// recognizes, in their order.
pub fn supported_devices(registry: &DriverRegistry, discovered: Vec<Discovered>) -> (r: Vec<Discovered>)
    ensures
        r@ == discovered@.filter(|found: Discovered| is_supported(*registry, found)),
{
    let ghost all = discovered@;
    assert(all.len() == discovered.len());
    let ghost pred = |found: Discovered| is_supported(*registry, found);
    let mut rest = discovered;
    let mut kept: Vec<Discovered> = Vec::new();
    let mut k: usize = 0;
    proof {
        reveal(Seq::filter);
        assert(all.take(0) =~= Seq::<Discovered>::empty());
        assert(all.skip(0) =~= all);
    }
    while rest.len() > 0
        invariant
            k <= all.len(),
            all.len() <= usize::MAX,
            rest@ == all.skip(k as int),
            kept@ == all.take(k as int).filter(pred),
            pred == (|found: Discovered| is_supported(*registry, found)),
        decreases rest@.len(),
    {
        let found = rest.remove(0);
        proof {
            reveal(Seq::filter);
            assert(found == all[k as int]);
            assert(all.take(k + 1).drop_last() =~= all.take(k as int));
            assert(all.skip(k + 1) =~= all.skip(k as int).remove(0));
        }
        if registry.find(&found.identity).is_some() {
            kept.push(found);
        }
        k = k + 1;
    }
    proof {
        assert(all.take(k as int) =~= all);
    }
    kept
}

/// How a candidate is listed when the selection is ambiguous.
pub open spec fn candidate_line_text(found: Discovered) -> Seq<char> {
    "  "@ + hex4_text(found.identity.vendor_id) + seq![':'] + hex4_text(found.identity.product_id) + " \u{2014} "@
        + text_or(found.identity.product, "(unknown)"@)
}

/// The line listing `found` among the candidates of an ambiguous
/// selection: its ids and its product string.
pub fn candidate_line(found: &Discovered) -> (r: String)
    ensures
        r@ == candidate_line_text(*found),
{
    let mut s = String::from_str("  ");
    s.append(hex4(found.identity.vendor_id).as_str());
    s.append(":");
    s.append(hex4(found.identity.product_id).as_str());
    s.append(" \u{2014} ");
    match &found.identity.product {
        Some(p) => s.append(p.as_str()),
        None => s.append("(unknown)"),
    }
    proof {
        reveal_strlit(":");
    }
    assert(s@ =~= candidate_line_text(*found));
    s
}

/// A digit printed in hexadecimal reads back as its value.
proof fn lemma_hex_char_value(n: nat)
    requires
        n < 16,
    ensures
        hex_digit_value(hex_char(n)) == Some(n),
{
}

/// An id printed the way tables, lists and reports show it (`0x` and
/// four lowercase hexadecimal digits) reads back as the same id when
/// given as one half of a `--device` selector.
pub proof fn law_printed_id_parses_back(v: u16)
    ensures
        spec_id(hex4_text(v)) == Ok::<nat, IntErrorKind>(v as nat),
{
    let d = hex4_digits(v);
    let t = hex4_text(v);
    let a = (v / 4096) as nat;
    let b = (v / 256 % 16) as nat;
    let c = (v / 16 % 16) as nat;
    let e = (v % 16) as nat;
    lemma_hex_char_value(a);
    lemma_hex_char_value(b);
    lemma_hex_char_value(c);
    lemma_hex_char_value(e);
    assert(t.skip(2) =~= d);
    assert(strip_hex_prefixes(t) == strip_hex_prefixes(d));
    assert(d[1] != 'x');
    assert(strip_hex_prefixes(d) == d);
    assert(d.drop_last() =~= seq![hex_char(a), hex_char(b), hex_char(c)]);
    assert(d.drop_last().drop_last() =~= seq![hex_char(a), hex_char(b)]);
    assert(d.drop_last().drop_last().drop_last() =~= seq![hex_char(a)]);
    assert(d.drop_last().drop_last().drop_last().drop_last() =~= Seq::<char>::empty());
    assert(((a * 16 + b) * 16 + c) * 16 + e == v) by (nonlinear_arith)
        requires
            a == v / 4096,
            b == v / 256 % 16,
            c == v / 16 % 16,
            e == v % 16,
            v < 65536,
    ;
    assert(seq![hex_char(a)].drop_last() =~= Seq::<char>::empty());
    assert(hex_digits_value(Seq::<char>::empty(), 0xffff) == Ok::<nat, IntErrorKind>(0));
    assert(hex_digits_value(seq![hex_char(a)], 0xffff) == Ok::<nat, IntErrorKind>(a));
    assert(seq![hex_char(a), hex_char(b)].drop_last() =~= seq![hex_char(a)]);
    assert(seq![hex_char(a), hex_char(b), hex_char(c)].drop_last() =~= seq![hex_char(a), hex_char(b)]);
    assert(hex_digits_value(seq![hex_char(a), hex_char(b)], 0xffff) == Ok::<nat, IntErrorKind>(a * 16 + b));
    assert(hex_digits_value(seq![hex_char(a), hex_char(b), hex_char(c)], 0xffff) == Ok::<nat, IntErrorKind>(
        (a * 16 + b) * 16 + c,
    ));
}

/// A selector written as a candidate line shows the ids
/// (`0x____:0x____`) selects exactly those ids.
pub proof fn law_printed_selector_parses_back(vendor_id: u16, product_id: u16)
    ensures
        ({
            let s = hex4_text(vendor_id) + seq![':'] + hex4_text(product_id);
            &&& first_index_of(s, ':') == Some(6int)
            &&& spec_id(s.take(6)) == Ok::<nat, IntErrorKind>(vendor_id as nat)
            &&& spec_id(s.skip(7)) == Ok::<nat, IntErrorKind>(product_id as nat)
        }),
{
    let s = hex4_text(vendor_id) + seq![':'] + hex4_text(product_id);
    lemma_first_index_of(s, ':');
    assert(s[6] == ':');
    assert forall|j: int| 0 <= j < 6 implies s[j] != ':' by {
        assert(s[j] == hex4_text(vendor_id)[j]);
    }
    if let Some(i) = first_index_of(s, ':') {
        if i < 6 {
            assert(s[i] == hex4_text(vendor_id)[i]);
        }
    }
    assert(s.take(6) =~= hex4_text(vendor_id));
    assert(s.skip(7) =~= hex4_text(product_id));
    law_printed_id_parses_back(vendor_id);
    law_printed_id_parses_back(product_id);
}

} // verus!
