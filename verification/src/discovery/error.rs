//! Errors discovery can produce.

use vstd::prelude::*;

verus! {

/// The report-descriptor parser's own error.
#[verifier::external_type_specification]
#[verifier::external_body]
pub struct ExParserError(hidreport::ParserError);

/// Something went wrong while enumerating or inspecting HID devices.
///
/// Enumeration failing entirely is the only case that should ever reach
/// a caller as an error — a single device being unreadable is reported
/// inline as data, never as an `Err`.
#[derive(Debug)]
pub enum Error {
    /// The HID backend itself failed to initialize; holds its message.
    Backend(String),
    /// Reading sysfs (a report descriptor, or an interface's parent USB
    /// device) failed.
    Sysfs {
        /// The sysfs path that failed to read.
        path: String,
        /// The underlying I/O error's message.
        reason: String,
    },
    /// The report-descriptor parser rejected an interface's descriptor.
    ParseDescriptor(hidreport::ParserError),
    /// The descriptor is one the parser would panic on (a Usage naming no
    /// page while no Usage Page is set, or reports so large that bit
    /// positions pass 32 bits), so it was not parsed.
    UnhandledDescriptor,
}

} // verus!
