//! `lighting`'s arguments.

use vstd::prelude::*;
use crate::cli::actions::LightingArgs;

verus! {

/// What `lighting` was asked to do.
#[derive(Debug, Clone, PartialEq, Eq)]
pub enum Action {
    /// Apply an effect.
    SetEffect(LightingArgs),
    /// List every mode name.
    Modes,
}

/// `lighting`'s arguments.
#[derive(Debug, Clone, PartialEq, Eq)]
pub struct Args {
    /// Which device to target, as `VID:PID` hex; needed only when more
    /// than one supported device is detected.
    pub device: Option<String>,
    /// What to do.
    pub action: Action,
}

} // verus!
