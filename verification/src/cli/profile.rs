//! `profile`'s arguments.

use vstd::prelude::*;
use crate::cli::actions::ProfileAction;

verus! {

/// `profile`'s arguments.
#[derive(Debug, Clone, PartialEq, Eq)]
pub struct Args {
    /// Which device to target, as `VID:PID` hex; needed only when more
    /// than one supported device is detected.
    pub device: Option<String>,
    /// What to do.
    pub action: ProfileAction,
}

} // verus!
