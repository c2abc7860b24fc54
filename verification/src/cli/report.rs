//! The portable discovery report `discover --export` writes.

use vstd::prelude::*;
use crate::discovery::pipeline::Discovered;
use crate::discovery::path_map::PathMap;
use crate::identity::{Interface, UsagePair};
use crate::cli::format::{hex4, hex4_digits};

verus! {

/// The full report written by `--export`.
#[derive(Debug)]
pub struct Report {
    /// Schema version — additive changes bump the minor number.
    pub schema_version: &'static str,
    /// The version of the tool that produced this report.
    pub opm_version: &'static str,
    /// Context about the machine the report was captured on.
    pub host: Host,
    /// Every device found.
    pub devices: Vec<DeviceReport>,
}

/// Host context: without it a report can't be interpreted.
#[derive(Debug, Clone)]
pub struct Host {
    /// `"linux"`, `"macos"`, `"windows"`, ...
    pub os: String,
    /// Best-effort distribution name/version.
    pub os_version: String,
    /// Kernel version.
    pub kernel_version: String,
    /// CPU architecture, e.g. `"x86_64"`.
    pub arch: String,
    /// The HID backend compiled in.
    pub hidapi_backend: String,
}

/// One physical device in the report.
#[derive(Debug)]
pub struct DeviceReport {
    /// Report-local identifier — stable only within this file.
    pub local_id: usize,
    /// USB vendor id, as `"0x____"`.
    pub vendor_id: String,
    /// USB product id, as `"0x____"`.
    pub product_id: String,
    /// The device's own manufacturer string, if any.
    pub manufacturer_string: Option<String>,
    /// The device's own product string, if any.
    pub product_string: Option<String>,
    /// Redacted to `None` unless serial numbers were asked for.
    pub serial_number: Option<String>,
    /// The classification heuristic's verdict, as a stable identifier.
    pub classification: &'static str,
    /// The version whose heuristic produced `classification`.
    pub classified_by: &'static str,
    /// Always `"unsupported"`: the report does not consult drivers.
    pub driver_status: &'static str,
    /// Every HID interface belonging to this device.
    pub interfaces: Vec<InterfaceReport>,
}

/// One HID interface in the report.
#[derive(Debug)]
pub struct InterfaceReport {
    /// The USB interface number, or `-1` where the OS doesn't expose one.
    pub interface_number: i32,
    /// The OS-specific path used to open this interface.
    pub path: String,
    /// Whether this process can currently open the path.
    pub accessible: bool,
    /// Every top-level usage pair this interface declares.
    pub usage_pairs: Vec<UsagePairReport>,
    /// The distinct report IDs this interface's report descriptor declares.
    pub report_ids: Vec<u8>,
}

/// One usage pair in the report.
#[derive(Debug)]
pub struct UsagePairReport {
    /// The HID usage page, as `"0x____"`.
    pub usage_page: String,
    /// The usage within that page, as `"0x____"`.
    pub usage: String,
}

/// `v` as the report writes ids and usages: `0x` and four lowercase
/// hexadecimal digits.
pub open spec fn hex4_text(v: u16) -> Seq<char> {
    seq!['0', 'x'] + hex4_digits(v)
}

/// Whether the report lists `path` as accessible: as recorded, or not
/// accessible when nothing was recorded.
pub open spec fn recorded_accessible(accessible: Map<Seq<char>, bool>, path: Seq<char>) -> bool {
    accessible.contains_key(path) && accessible[path]
}

/// `r` reports usage pair `p`.
pub open spec fn reports_pair(r: UsagePairReport, p: UsagePair) -> bool {
    r.usage_page@ == hex4_text(p.usage_page) && r.usage@ == hex4_text(p.usage)
}

/// `r` reports `interface`.
pub open spec fn reports_interface(r: InterfaceReport, interface: Interface, accessible: Map<Seq<char>, bool>) -> bool {
    &&& r.interface_number == interface.interface_number
    &&& r.path@ == interface.path@
    &&& r.accessible == recorded_accessible(accessible, interface.path@)
    &&& r.usage_pairs@.len() == interface.usage_pairs@.len()
    &&& forall|j: int| 0 <= j < r.usage_pairs@.len() ==> reports_pair(#[trigger] r.usage_pairs@[j], interface.usage_pairs@[j])
    &&& r.report_ids@ == interface.report_ids@
}

/// `r` reports device `local_id`, `found`.
pub open spec fn reports_device(
    r: DeviceReport,
    local_id: int,
    found: Discovered,
    include_serial: bool,
    opm_version: &'static str,
    accessible: Map<Seq<char>, bool>,
) -> bool {
    &&& r.local_id == local_id
    &&& r.vendor_id@ == hex4_text(found.identity.vendor_id)
    &&& r.product_id@ == hex4_text(found.identity.product_id)
    &&& r.manufacturer_string == found.identity.manufacturer
    &&& r.product_string == found.identity.product
    &&& r.serial_number == (if include_serial { found.identity.serial } else { None })
    &&& r.classification@ == found.classification.spec_as_str()
    &&& r.classified_by == opm_version
    &&& r.driver_status@ == "unsupported"@
    &&& r.interfaces@.len() == found.identity.interfaces@.len()
    &&& forall|j: int| 0 <= j < r.interfaces@.len() ==>
        reports_interface(#[trigger] r.interfaces@[j], found.identity.interfaces@[j], accessible)
}

fn clone_text(s: &Option<String>) -> (r: Option<String>)
    ensures
        r == *s,
{
    match s {
        Some(t) => Some(t.clone()),
        None => None,
    }
}

fn clone_bytes(v: &Vec<u8>) -> (r: Vec<u8>)
    ensures
        r@ == v@,
{
    let r = v.clone();
    assert(r@ =~= v@);
    r
}

fn interface_report(interface: &Interface, accessible: &PathMap<bool>) -> (r: InterfaceReport)
    ensures
        reports_interface(r, *interface, accessible.view()),
{
    let mut usage_pairs: Vec<UsagePairReport> = Vec::new();
    let mut j: usize = 0;
    while j < interface.usage_pairs.len()
        invariant
            j <= interface.usage_pairs@.len(),
            usage_pairs@.len() == j,
            forall|k: int| 0 <= k < j ==> reports_pair(#[trigger] usage_pairs@[k], interface.usage_pairs@[k]),
        decreases interface.usage_pairs@.len() - j,
    {
        let pair = interface.usage_pairs[j];
        usage_pairs.push(UsagePairReport { usage_page: hex4(pair.usage_page), usage: hex4(pair.usage) });
        j = j + 1;
    }
    let is_accessible = match accessible.get(interface.path.as_str()) {
        Some(a) => *a,
        None => false,
    };
    InterfaceReport {
        interface_number: interface.interface_number,
        path: interface.path.clone(),
        accessible: is_accessible,
        usage_pairs,
        report_ids: clone_bytes(&interface.report_ids),
    }
}

/// Builds the full report from a discovery result: one entry per device
/// in order, ids and usages written `0x____`, serial numbers only when
/// `include_serial` is set, each interface's accessibility as recorded in
/// `accessible` (not accessible when absent).
pub fn build(
    discovered: &[Discovered],
    include_serial: bool,
    host: Host,
    opm_version: &'static str,
    accessible: &PathMap<bool>,
) -> (r: Report)
    ensures
        r.schema_version@ == "1.0"@,
        r.opm_version == opm_version,
        r.host == host,
        r.devices@.len() == discovered@.len(),
        forall|k: int| 0 <= k < discovered@.len() ==>
            reports_device(#[trigger] r.devices@[k], k, discovered@[k], include_serial, opm_version, accessible.view()),
{
    let mut devices: Vec<DeviceReport> = Vec::new();
    let mut k: usize = 0;
    while k < discovered.len()
        invariant
            k <= discovered@.len(),
            devices@.len() == k,
            forall|i: int| 0 <= i < k ==>
                reports_device(#[trigger] devices@[i], i, discovered@[i], include_serial, opm_version, accessible.view()),
        decreases discovered@.len() - k,
    {
        let device = &discovered[k];
        let identity = &device.identity;
        let mut interfaces: Vec<InterfaceReport> = Vec::new();
        let mut j: usize = 0;
        while j < identity.interfaces.len()
            invariant
                j <= identity.interfaces@.len(),
                interfaces@.len() == j,
                forall|i: int| 0 <= i < j ==>
                    reports_interface(#[trigger] interfaces@[i], identity.interfaces@[i], accessible.view()),
            decreases identity.interfaces@.len() - j,
        {
            interfaces.push(interface_report(&identity.interfaces[j], accessible));
            j = j + 1;
        }
        devices.push(DeviceReport {
            local_id: k,
            vendor_id: hex4(identity.vendor_id),
            product_id: hex4(identity.product_id),
            manufacturer_string: clone_text(&identity.manufacturer),
            product_string: clone_text(&identity.product),
            serial_number: if include_serial { clone_text(&identity.serial) } else { None },
            classification: device.classification.as_str(),
            classified_by: opm_version,
            driver_status: "unsupported",
            interfaces,
        });
        k = k + 1;
    }
    Report { schema_version: "1.0", opm_version, host, devices }
}

} // verus!
