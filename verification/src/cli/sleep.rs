//! `sleep`'s arguments.

use vstd::prelude::*;

verus! {

/// What `sleep` was asked to do.
#[derive(Debug, Clone, PartialEq, Eq)]
pub enum Action {
    /// Set the timer to the named preset.
    SetTimer {
        /// The preset name, as typed.
        preset: String,
    },
    /// List every preset name.
    Presets,
}

/// `sleep`'s arguments.
#[derive(Debug, Clone, PartialEq, Eq)]
pub struct Args {
    /// Which device to target, as `VID:PID` hex; needed only when more
    /// than one supported device is detected.
    pub device: Option<String>,
    /// What to do.
    pub action: Action,
}

} // verus!
