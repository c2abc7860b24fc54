//! The contract each device driver implements so that it can be
//! discovered and used without front ends knowing anything
//! vendor-specific.

use vstd::prelude::*;
use crate::device::Device;
use crate::error::Error;
use crate::identity::Identity;

verus! {

/// A stateless matcher/factory: given an [`Identity`], decides whether
/// it recognizes the device, and if so, opens it.
pub trait Driver {
    /// Whether this driver recognizes `identity`.
    spec fn recognizes(&self, identity: Identity) -> bool;

    /// `r` is an outcome opening `identity` can have.
    spec fn opens(&self, identity: Identity, r: Result<Box<dyn Device>, Error>) -> bool;

    /// The driver's display name.
    spec fn display_name(&self) -> &str;

    /// A short, human-readable name for logging/CLI display.
    fn name(&self) -> (r: &str)
        ensures
            r@ == self.display_name()@,
    ;

    /// Does this driver recognize the device described by `identity`?
    /// Pure inspection — no I/O.
    fn probe(&self, identity: &Identity) -> (r: bool)
        ensures
            r == self.recognizes(*identity),
    ;

    /// Opens the device, returning a live [`Device`]. Only called after
    /// [`Driver::probe`] returned `true` for the same `Identity`.
    fn open(&self, identity: &Identity) -> (r: Result<Box<dyn Device>, Error>)
        ensures
            self.opens(*identity, r),
    ;
}

} // verus!
