//! Opening one HID interface and exchanging Input/Output/Feature reports
//! with it. Only the vocabulary lives here; implementations over a real
//! HID or USB library live with the front end.

use vstd::prelude::*;
use vstd::string::*;

verus! {

/// How long [`Transport::read_input`] waits for an Input report before
/// giving up.
#[derive(Debug, Clone, Copy, PartialEq, Eq, Structural)]
pub enum ReadTimeout {
    /// Return immediately with [`Error::WouldBlock`] if nothing is queued.
    NonBlocking,
    /// Wait up to this many milliseconds.
    Millis(u32),
    /// Wait a long, but finite, default.
    Blocking,
}

/// How long a HID read waits, in milliseconds, for [`ReadTimeout::Blocking`].
pub const BLOCKING_TIMEOUT_MILLIS: i32 = 5_000;

/// The millisecond timeout a HID read is given for `timeout`: zero for a
/// non-blocking read, the requested milliseconds (saturated at
/// `i32::MAX`), or [`BLOCKING_TIMEOUT_MILLIS`].
pub fn hid_timeout_millis(timeout: ReadTimeout) -> (r: i32)
    ensures
        r == match timeout {
            ReadTimeout::NonBlocking => 0,
            ReadTimeout::Millis(ms) => if ms <= i32::MAX { ms as i32 } else { i32::MAX },
            ReadTimeout::Blocking => BLOCKING_TIMEOUT_MILLIS,
        },
{
    match timeout {
        ReadTimeout::NonBlocking => 0,
        ReadTimeout::Millis(ms) => if ms <= 0x7fff_ffff { ms as i32 } else { i32::MAX },
        ReadTimeout::Blocking => BLOCKING_TIMEOUT_MILLIS,
    }
}

/// Everything that can go wrong opening or using a [`Transport`].
#[derive(Debug, Clone, PartialEq, Eq)]
pub enum Error {
    /// Opening the interface itself failed (missing, permission denied,
    /// already gone).
    Open {
        /// The interface path that failed to open (e.g. `/dev/hidraw0`).
        path: String,
        /// The backend's own error message.
        reason: String,
    },
    /// A read/write/feature-report call failed after a successful open.
    Io {
        /// The backend's own error message.
        reason: String,
    },
    /// A non-blocking or timed-out read found no data available.
    WouldBlock,
}

impl Error {
    /// How each error reads.
    pub open spec fn spec_message(self) -> Seq<char> {
        match self {
            Error::Open { path, reason } => "failed to open "@ + path@ + ": "@ + reason@,
            Error::Io { reason } => "HID I/O failed: "@ + reason@,
            Error::WouldBlock => "no data available within the requested timeout"@,
        }
    }

    /// How this error reads.
    pub fn message(&self) -> (r: String)
        ensures
            r@ == self.spec_message(),
    {
        match self {
            Error::Open { path, reason } => {
                let mut m = String::from_str("failed to open ");
                m.append(path.as_str());
                m.append(": ");
                m.append(reason.as_str());
                m
            },
            Error::Io { reason } => {
                let mut m = String::from_str("HID I/O failed: ");
                m.append(reason.as_str());
                m
            },
            Error::WouldBlock => String::from_str("no data available within the requested timeout"),
        }
    }
}

/// An open channel to exactly one HID interface, able to exchange
/// Input/Output/Feature reports with it. Says nothing about what any
/// report's bytes mean.
pub trait Transport {
    /// Sends an Output report; `data` is the payload without the Report
    /// ID byte. Returns the number of payload bytes written.
    fn write_output(&self, report_id: u8, data: &[u8]) -> Result<usize, Error>;

    /// Reads the next queued Input report into `buf`, waiting per
    /// `timeout`. Returns `(report_id, payload_len)`.
    fn read_input(&self, buf: &mut [u8], timeout: ReadTimeout) -> Result<(u8, usize), Error>;

    /// Requests a Feature report by `report_id` over the control
    /// endpoint. Returns the number of payload bytes written to `buf`.
    fn get_feature(&self, report_id: u8, buf: &mut [u8]) -> Result<usize, Error>;

    /// Sends a Feature report over the control endpoint; `data` is the
    /// payload without the Report ID byte.
    fn set_feature(&self, report_id: u8, data: &[u8]) -> Result<(), Error>;
}

} // verus!
