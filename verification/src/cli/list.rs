//! What `list` prints: one line per supported device, naming the
//! driver that recognizes it.

use vstd::prelude::*;
use vstd::string::*;
use crate::discovery::pipeline::Discovered;
use crate::registry::{first_recognizing, DriverRegistry};
use crate::cli::format::hex4;
use crate::cli::report::hex4_text;
use crate::cli::discover::text_or;
use crate::cli::device::is_supported;
use crate::text::texts;

verus! {

/// The notice `list` prints when nothing is supported.
pub open spec fn nothing_supported_text() -> Seq<char> {
    "No supported peripherals detected. Run `pmctl discover` to see every HID device."@
}

/// The line `list` prints for `found`, recognized by a driver named
/// `driver_name`.
pub open spec fn list_line_text(found: Discovered, driver_name: Seq<char>) -> Seq<char> {
    text_or(found.identity.product, "(unknown product)"@) + " \u{2014} "@ + hex4_text(found.identity.vendor_id)
        + seq![':'] + hex4_text(found.identity.product_id) + " \u{2014} "@ + driver_name
}

/// The display name of the first registered driver that recognizes
/// `found`.
pub open spec fn recognizing_name(registry: DriverRegistry, found: Discovered) -> Seq<char> {
    registry.drivers()[first_recognizing(registry.drivers(), found.identity)->0].display_name()@
}

/// The line for `found`, recognized by the driver named `driver_name`.
pub fn list_line(found: &Discovered, driver_name: &str) -> (r: String)
    ensures
        r@ == list_line_text(*found, driver_name@),
{
    let mut s = String::new();
    match &found.identity.product {
        Some(p) => s.append(p.as_str()),
        None => s.append("(unknown product)"),
    }
    s.append(" \u{2014} ");
    s.append(hex4(found.identity.vendor_id).as_str());
    s.append(":");
    s.append(hex4(found.identity.product_id).as_str());
    s.append(" \u{2014} ");
    s.append(driver_name);
    proof {
        reveal_strlit(":");
    }
    assert(s@ =~= list_line_text(*found, driver_name@));
    s
}

/// What `list` prints for the supported devices `supported`: a notice
/// when there are none, otherwise one line per device with the name of
/// the first registered driver that recognizes it.
pub fn list_lines(registry: &DriverRegistry, supported: &[Discovered]) -> (r: Vec<String>)
    requires
        forall|i: int| 0 <= i < supported@.len() ==> is_supported(*registry, #[trigger] supported@[i]),
    ensures
        supported@.len() == 0 ==> texts(r@) == seq![nothing_supported_text()],
        supported@.len() > 0 ==> r@.len() == supported@.len(),
        supported@.len() > 0 ==> forall|i: int| 0 <= i < supported@.len()
            ==> #[trigger] r@[i]@ == list_line_text(supported@[i], recognizing_name(*registry, supported@[i])),
{
    let mut lines: Vec<String> = Vec::new();
    if supported.len() == 0 {
        lines.push(String::from_str("No supported peripherals detected. Run `pmctl discover` to see every HID device."));
        assert(texts(lines@) =~= seq![nothing_supported_text()]);
        return lines;
    }
    let mut k: usize = 0;
    while k < supported.len()
        invariant
            k <= supported@.len(),
            lines@.len() == k,
            forall|i: int| 0 <= i < supported@.len() ==> is_supported(*registry, #[trigger] supported@[i]),
            forall|i: int| 0 <= i < k ==> #[trigger] lines@[i]@ == list_line_text(supported@[i], recognizing_name(*registry, supported@[i])),
        decreases supported@.len() - k,
    {
        let found = &supported[k];
        assert(is_supported(*registry, supported@[k as int]));
        match registry.find(&found.identity) {
            Some(driver) => {
                let name = driver.name();
                let line = list_line(found, name);
                lines.push(line);
            },
            None => {
                assert(false);
            },
        }
        k = k + 1;
    }
    assert(lines@.len() == supported@.len());
    lines
}

} // verus!
