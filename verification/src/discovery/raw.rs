//! One raw HID enumeration entry, decoupled from the enumeration library
//! so that everything past enumeration is plain logic over these values.

use vstd::prelude::*;

verus! {

/// One raw HID enumeration entry. The enumeration yields one entry per
/// top-level usage pair, so a single interface with several top-level
/// collections produces several entries sharing `path` and
/// `interface_number`.
#[derive(Debug, Clone)]
pub struct RawEntry {
    /// USB vendor id.
    pub vendor_id: u16,
    /// USB product id.
    pub product_id: u16,
    /// The device's serial number string, if any.
    pub serial_number: Option<String>,
    /// The device's manufacturer string, if any.
    pub manufacturer_string: Option<String>,
    /// The device's product string, if any.
    pub product_string: Option<String>,
    /// This entry's top-level HID usage page.
    pub usage_page: u16,
    /// This entry's top-level HID usage.
    pub usage: u16,
    /// The USB interface number, or `-1` where the OS doesn't expose one.
    pub interface_number: i32,
    /// The OS-specific path used to open this interface later.
    pub path: String,
}

} // verus!
