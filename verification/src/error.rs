//! The error shared across drivers, devices and capabilities.

use vstd::prelude::*;
use vstd::string::*;
use crate::transport;

verus! {

/// Everything that can go wrong probing, opening, or using a device.
#[derive(Debug, Clone, PartialEq, Eq)]
pub enum Error {
    /// No registered driver recognizes this device.
    Unsupported,
    /// A transport operation failed while opening or using a device.
    Transport(transport::Error),
    /// A driver-specific failure not covered by [`Error::Transport`].
    Driver(String),
}

impl Error {
    /// How each error reads.
    pub open spec fn spec_message(self) -> Seq<char> {
        match self {
            Error::Unsupported => "no registered driver recognizes this device"@,
            Error::Transport(t) => t.spec_message(),
            Error::Driver(m) => m@,
        }
    }

    /// How this error reads.
    pub fn message(&self) -> (r: String)
        ensures
            r@ == self.spec_message(),
    {
        match self {
            Error::Unsupported => String::from_str("no registered driver recognizes this device"),
            Error::Transport(t) => t.message(),
            Error::Driver(m) => m.clone(),
        }
    }
}

impl From<transport::Error> for Error {
    fn from(e: transport::Error) -> (r: Self) {
        Error::Transport(e)
    }
}

impl vstd::std_specs::convert::FromSpecImpl<transport::Error> for Error {
    open spec fn obeys_from_spec() -> bool {
        true
    }

    open spec fn from_spec(e: transport::Error) -> Self {
        Error::Transport(e)
    }
}

} // verus!
