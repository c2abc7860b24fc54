//! The classification heuristic: which kind of device a device's declared
//! usage pairs suggest. A heuristic, not a proof: it says "worth
//! investigating", not "definitely has RGB/macros".

use vstd::prelude::*;
use crate::identity::{Identity, UsagePair};

verus! {

pub const GENERIC_DESKTOP: u16 = 0x0001;
pub const KEYBOARD: u16 = 0x0006;
pub const CONSUMER: u16 = 0x000c;
pub const VENDOR_RANGE_START: u16 = 0xff00;

/// The category a device's declared usage pairs place it in.
#[derive(Debug, Clone, Copy, PartialEq, Eq, Structural)]
pub enum Classification {
    /// Declares a standard keyboard usage pair and at least one
    /// vendor-defined usage pair — a candidate for a new driver.
    ConfigurableKeyboard,
    /// Declares a standard keyboard usage pair and nothing vendor-defined.
    Keyboard,
    /// Declares a vendor-defined usage pair but no standard keyboard one.
    VendorOnly,
    /// Matches none of the above signals this heuristic currently knows.
    UnknownHid,
}

impl Classification {
    /// The stable identifier of each category, as discovery reports
    /// record it. The identifiers are chosen by this library (the category
    /// names in snake case); no HID standard defines them.
    pub open spec fn spec_as_str(self) -> Seq<char> {
        match self {
            Classification::ConfigurableKeyboard => "configurable_keyboard"@,
            Classification::Keyboard => "keyboard"@,
            Classification::VendorOnly => "vendor_only"@,
            Classification::UnknownHid => "unknown_hid"@,
        }
    }

    /// The stable identifier of this category.
    pub fn as_str(self) -> (r: &'static str)
        ensures
            r@ == self.spec_as_str(),
    {
        match self {
            Classification::ConfigurableKeyboard => "configurable_keyboard",
            Classification::Keyboard => "keyboard",
            Classification::VendorOnly => "vendor_only",
            Classification::UnknownHid => "unknown_hid",
        }
    }
}

/// The usage pairs the heuristic looks for.
#[derive(Debug, Clone, Copy, PartialEq, Eq, Structural)]
pub enum UsageSignal {
    /// Generic Desktop / Keyboard (`0x01`/`0x06`).
    Keyboard,
    /// Any vendor-defined usage page (`0xFF00`-`0xFFFF`).
    Vendor,
    /// The Consumer page (`0x0C`), i.e. media keys.
    ConsumerControl,
}

/// Whether `pair` is an instance of `signal`.
pub open spec fn shows(pair: UsagePair, signal: UsageSignal) -> bool {
    match signal {
        UsageSignal::Keyboard => pair.usage_page == GENERIC_DESKTOP && pair.usage == KEYBOARD,
        UsageSignal::Vendor => pair.usage_page >= VENDOR_RANGE_START,
        UsageSignal::ConsumerControl => pair.usage_page == CONSUMER,
    }
}

/// Some interface of `identity` declares a usage pair showing `signal`.
pub open spec fn declares_signal(identity: Identity, signal: UsageSignal) -> bool {
    exists|i: int, j: int|
        0 <= i < identity.interfaces@.len() && 0 <= j < identity.interfaces@[i].usage_pairs@.len()
            && shows(#[trigger] identity.interfaces@[i].usage_pairs@[j], signal)
}

/// The heuristic's verdict for `identity`.
pub open spec fn spec_classify(identity: Identity) -> Classification {
    match (declares_signal(identity, UsageSignal::Keyboard), declares_signal(identity, UsageSignal::Vendor)) {
        (true, true) => Classification::ConfigurableKeyboard,
        (true, false) => Classification::Keyboard,
        (false, true) => Classification::VendorOnly,
        (false, false) => Classification::UnknownHid,
    }
}

fn pair_shows(pair: UsagePair, signal: UsageSignal) -> (r: bool)
    ensures
        r == shows(pair, signal),
{
    match signal {
        UsageSignal::Keyboard => pair.usage_page == GENERIC_DESKTOP && pair.usage == KEYBOARD,
        UsageSignal::Vendor => pair.usage_page >= VENDOR_RANGE_START,
        UsageSignal::ConsumerControl => pair.usage_page == CONSUMER,
    }
}

/// Whether any usage pair declared across all of `identity`'s interfaces
/// shows `signal`.
pub fn declares(identity: &Identity, signal: UsageSignal) -> (r: bool)
    ensures
        r == declares_signal(*identity, signal),
{
    let mut i: usize = 0;
    while i < identity.interfaces.len()
        invariant
            i <= identity.interfaces@.len(),
            forall|a: int, b: int|
                0 <= a < i && 0 <= b < identity.interfaces@[a].usage_pairs@.len()
                    ==> !shows(#[trigger] identity.interfaces@[a].usage_pairs@[b], signal),
        decreases identity.interfaces@.len() - i,
    {
        let pairs = &identity.interfaces[i].usage_pairs;
        let mut j: usize = 0;
        while j < pairs.len()
            invariant
                i < identity.interfaces@.len(),
                *pairs == identity.interfaces@[i as int].usage_pairs,
                j <= pairs@.len(),
                forall|b: int| 0 <= b < j ==> !shows(#[trigger] pairs@[b], signal),
            decreases pairs@.len() - j,
        {
            if pair_shows(pairs[j], signal) {
                return true;
            }
            j = j + 1;
        }
        i = i + 1;
    }
    false
}

/// Classifies a device by walking every usage pair declared across all
/// of its interfaces — whether those pairs came from separate interfaces
/// or from several top-level collections on the same one.
pub fn classify(identity: &Identity) -> (r: Classification)
    ensures
        r == spec_classify(*identity),
{
    let is_keyboard = declares(identity, UsageSignal::Keyboard);
    let is_vendor = declares(identity, UsageSignal::Vendor);
    match (is_keyboard, is_vendor) {
        (true, true) => Classification::ConfigurableKeyboard,
        (true, false) => Classification::Keyboard,
        (false, true) => Classification::VendorOnly,
        (false, false) => Classification::UnknownHid,
    }
}

/// Whether a device also declares a consumer-control usage pair
/// (`0x0C`/media keys). Informational only, never part of [`classify`].
pub fn has_consumer_control(identity: &Identity) -> (r: bool)
    ensures
        r == declares_signal(*identity, UsageSignal::ConsumerControl),
{
    declares(identity, UsageSignal::ConsumerControl)
}

/// A device is classified as a keyboard (configurable or not) exactly
/// when one of its interfaces declares the Generic Desktop / Keyboard
/// pair, usage page `0x0001` with usage `0x0006` (no other Generic
/// Desktop usage counts); and as having a vendor side (configurable
/// keyboard or vendor-only) exactly when one declares a pair on a
/// vendor-defined page, `0xff00` or above.
pub proof fn law_classification_follows_the_declared_pairs(identity: Identity)
    ensures
        (spec_classify(identity) == Classification::Keyboard
            || spec_classify(identity) == Classification::ConfigurableKeyboard)
            <==> identity.declares(|p: UsagePair| p.usage_page == 0x0001u16 && p.usage == 0x0006u16),
        (spec_classify(identity) == Classification::VendorOnly
            || spec_classify(identity) == Classification::ConfigurableKeyboard)
            <==> identity.declares(|p: UsagePair| p.usage_page >= 0xff00u16),
{
    let keyboard = |p: UsagePair| p.usage_page == 0x0001u16 && p.usage == 0x0006u16;
    let vendor = |p: UsagePair| p.usage_page >= 0xff00u16;
    if declares_signal(identity, UsageSignal::Keyboard) {
        let (i, j) = choose|i: int, j: int|
            0 <= i < identity.interfaces@.len() && 0 <= j < identity.interfaces@[i].usage_pairs@.len()
                && shows(#[trigger] identity.interfaces@[i].usage_pairs@[j], UsageSignal::Keyboard);
        assert(keyboard(identity.interfaces@[i].usage_pairs@[j]));
    }
    if identity.declares(keyboard) {
        let (i, j) = choose|i: int, j: int|
            0 <= i < identity.interfaces@.len() && 0 <= j < identity.interfaces@[i].usage_pairs@.len()
                && #[trigger] keyboard(identity.interfaces@[i].usage_pairs@[j]);
        assert(shows(identity.interfaces@[i].usage_pairs@[j], UsageSignal::Keyboard));
    }
    if declares_signal(identity, UsageSignal::Vendor) {
        let (i, j) = choose|i: int, j: int|
            0 <= i < identity.interfaces@.len() && 0 <= j < identity.interfaces@[i].usage_pairs@.len()
                && shows(#[trigger] identity.interfaces@[i].usage_pairs@[j], UsageSignal::Vendor);
        assert(vendor(identity.interfaces@[i].usage_pairs@[j]));
    }
    if identity.declares(vendor) {
        let (i, j) = choose|i: int, j: int|
            0 <= i < identity.interfaces@.len() && 0 <= j < identity.interfaces@[i].usage_pairs@.len()
                && #[trigger] vendor(identity.interfaces@[i].usage_pairs@[j]);
        assert(shows(identity.interfaces@[i].usage_pairs@[j], UsageSignal::Vendor));
    }
}

} // verus!
