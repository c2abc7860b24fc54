//! Everything known about a HID device without opening it: its vendor and
//! product ids, its strings, and its interfaces with their usage pairs and
//! report ids. Plain data, compared only numerically.

use vstd::prelude::*;

verus! {

/// A HID usage page/usage pair, as declared by a device's report
/// descriptor (or surfaced directly by the HID enumeration).
#[derive(Debug, Clone, Copy, PartialEq, Eq, Hash, Structural)]
pub struct UsagePair {
    /// The HID usage page (e.g. `0x01` for Generic Desktop, `0xFF00`-
    /// `0xFFFF` for vendor-defined).
    pub usage_page: u16,
    /// The usage within that page (e.g. `0x06` for Keyboard).
    pub usage: u16,
}

/// One HID interface belonging to a device, after collapsing every
/// enumeration entry that shares the same OS path.
#[derive(Debug, Clone)]
pub struct Interface {
    /// The USB interface number, or `-1` where the OS doesn't expose one.
    pub interface_number: i32,
    /// The OS-specific handle used to open this interface later (e.g.
    /// `/dev/hidraw0` on Linux).
    pub path: String,
    /// Every top-level usage pair this interface declares.
    pub usage_pairs: Vec<UsagePair>,
    /// The distinct report IDs this interface's report descriptor
    /// declares (input, output, and feature reports combined).
    pub report_ids: Vec<u8>,
}

/// Everything known about a detected-but-unopened HID device.
#[derive(Debug, Clone)]
pub struct Identity {
    /// USB vendor id.
    pub vendor_id: u16,
    /// USB product id.
    pub product_id: u16,
    /// The device's own manufacturer string, if it reports one.
    pub manufacturer: Option<String>,
    /// The device's own product string, if it reports one.
    pub product: Option<String>,
    /// The device's serial number, if it reports one both present and
    /// non-empty. Never used to group interfaces into devices.
    pub serial: Option<String>,
    /// Every HID interface grouped into this physical device.
    pub interfaces: Vec<Interface>,
}

impl Identity {
    /// Some interface of this device declares `pair`.
    pub open spec fn declares(self, pred: spec_fn(UsagePair) -> bool) -> bool {
        exists|i: int, j: int|
            0 <= i < self.interfaces@.len() && 0 <= j < self.interfaces@[i].usage_pairs@.len()
                && #[trigger] pred(self.interfaces@[i].usage_pairs@[j])
    }
}

} // verus!
