//! What `info` prints about the one device it opened.

use vstd::prelude::*;
use vstd::string::*;
use crate::device::Device;
use crate::identity::Identity;
use crate::cli::format::{append_padded, hex4, padded_decimal};
use crate::cli::report::hex4_text;
use crate::cli::discover::text_or;
use crate::text::texts;

verus! {

/// A flag as `{}` writes a `bool`.
pub open spec fn bool_text(b: bool) -> Seq<char> {
    if b {
        "true"@
    } else {
        "false"@
    }
}

/// The lines `info` prints for a device with this identity and these
/// capabilities.
pub open spec fn info_text(identity: Identity, rgb: bool, battery: bool, profiles: bool) -> Seq<Seq<char>> {
    seq![
        text_or(identity.product, "(unknown product)"@),
        "  manufacturer: "@ + text_or(identity.manufacturer, "(unknown)"@),
        "  VID:PID: "@ + hex4_text(identity.vendor_id) + seq![':'] + hex4_text(identity.product_id),
        "  interfaces: "@ + padded_decimal(identity.interfaces@.len() as int, 1),
        "  capabilities:"@,
        "    rgb: "@ + bool_text(rgb),
        "    battery: "@ + bool_text(battery),
        "    profiles: "@ + bool_text(profiles),
    ]
}

fn text_or_string(text: &Option<String>, placeholder: &str) -> (r: String)
    ensures
        r@ == text_or(*text, placeholder@),
{
    match text {
        Some(t) => t.clone(),
        None => String::from_str(placeholder),
    }
}

fn flag_line(label: &str, b: bool) -> (r: String)
    ensures
        r@ == label@ + bool_text(b),
{
    let mut s = String::from_str(label);
    if b {
        s.append("true");
    } else {
        s.append("false");
    }
    s
}

/// The lines `info` prints for a device with `identity` and the given
/// capabilities.
pub fn info_lines(identity: &Identity, rgb: bool, battery: bool, profiles: bool) -> (r: Vec<String>)
    ensures
        texts(r@) == info_text(*identity, rgb, battery, profiles),
{
    let mut lines: Vec<String> = Vec::new();
    lines.push(text_or_string(&identity.product, "(unknown product)"));
    let mut manufacturer = String::from_str("  manufacturer: ");
    manufacturer.append(text_or_string(&identity.manufacturer, "(unknown)").as_str());
    lines.push(manufacturer);
    let mut ids = String::from_str("  VID:PID: ");
    ids.append(hex4(identity.vendor_id).as_str());
    ids.append(":");
    ids.append(hex4(identity.product_id).as_str());
    lines.push(ids);
    let mut interfaces = String::from_str("  interfaces: ");
    append_padded(&mut interfaces, identity.interfaces.len() as u64, 1);
    lines.push(interfaces);
    lines.push(String::from_str("  capabilities:"));
    lines.push(flag_line("    rgb: ", rgb));
    lines.push(flag_line("    battery: ", battery));
    lines.push(flag_line("    profiles: ", profiles));
    proof {
        reveal_strlit(":");
    }
    let ghost expected = info_text(*identity, rgb, battery, profiles);
    assert(lines@[0]@ == expected[0]);
    assert(lines@[1]@ == expected[1]);
    assert(lines@[2]@ == expected[2]);
    assert(lines@[3]@ == expected[3]);
    assert(lines@[4]@ == expected[4]);
    assert(lines@[5]@ == expected[5]);
    assert(texts(lines@) =~= info_text(*identity, rgb, battery, profiles));
    lines
}

/// The lines `info` prints for an opened device: its identity and which
/// of the RGB, battery and profile capabilities it has.
pub fn describe<D: Device + ?Sized>(opened: &D) -> (r: Vec<String>)
    ensures
        texts(r@) == info_text(
            opened.identity_view(),
            opened.rgb_handle() is Some,
            opened.battery_handle() is Some,
            opened.profiles_handle() is Some,
        ),
{
    info_lines(opened.identity(), opened.rgb().is_some(), opened.battery().is_some(), opened.profiles().is_some())
}

/// `info`'s arguments.
#[derive(Debug, Clone, PartialEq, Eq)]
pub struct Args {
    /// Which device to target, as `VID:PID` hex; needed only when more
    /// than one supported device is detected.
    pub device: Option<String>,
}

} // verus!
