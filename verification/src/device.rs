//! A handle to an already-open, communicating peripheral, and the
//! optional capabilities it may expose.

use vstd::prelude::*;
use crate::capability::{Battery, Lighting, Profiles, Rgb, SleepTimer};
use crate::identity::Identity;

verus! {

/// A live handle to an opened peripheral. Each capability accessor
/// returns the capability the device has, or `None`; the spec functions
/// name what each accessor returns.
pub trait Device {
    /// What this device is.
    spec fn identity_view(&self) -> Identity;

    /// The RGB capability, if the device has one.
    spec fn rgb_handle(&self) -> Option<&dyn Rgb>;

    /// The battery capability, if the device has one.
    spec fn battery_handle(&self) -> Option<&dyn Battery>;

    /// The profiles capability, if the device has one.
    spec fn profiles_handle(&self) -> Option<&dyn Profiles>;

    /// The lighting-effects capability, if the device has one.
    spec fn lighting_handle(&self) -> Option<&dyn Lighting>;

    /// The idle sleep-timer capability, if the device has one.
    spec fn sleep_timer_handle(&self) -> Option<&dyn SleepTimer>;

    /// What this device is — the same [`Identity`] its driver matched.
    fn identity(&self) -> (r: &Identity)
        ensures
            *r == self.identity_view(),
    ;

    /// `Some` if this device supports RGB lighting control.
    fn rgb(&self) -> (r: Option<&dyn Rgb>)
        ensures
            r == self.rgb_handle(),
    ;

    /// `Some` if this device reports a battery level.
    fn battery(&self) -> (r: Option<&dyn Battery>)
        ensures
            r == self.battery_handle(),
    ;

    /// `Some` if this device supports switching between stored profiles.
    fn profiles(&self) -> (r: Option<&dyn Profiles>)
        ensures
            r == self.profiles_handle(),
    ;

    /// `Some` if this device supports animated lighting effects.
    fn lighting(&self) -> (r: Option<&dyn Lighting>)
        ensures
            r == self.lighting_handle(),
    ;

    /// `Some` if this device has an idle lighting-sleep timer.
    fn sleep_timer(&self) -> (r: Option<&dyn SleepTimer>)
        ensures
            r == self.sleep_timer_handle(),
    ;
}

} // verus!
