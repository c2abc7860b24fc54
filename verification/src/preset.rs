//! Host-side presets: a named snapshot of a lighting effect and/or an
//! idle-timer setting, re-applied on demand through the device's
//! capabilities. Not the device-stored profiles capability.

use vstd::prelude::*;
use crate::capability::{Lighting, LightingEffect, SleepTime, SleepTimer};
use crate::device::Device;
use crate::error::Error;

verus! {

/// A snapshot of lighting/sleep-timer settings. Either field may be
/// absent.
#[derive(Debug, Clone, Copy, PartialEq, Eq, Structural)]
pub struct Preset {
    /// The lighting effect to apply, if this preset sets one.
    pub lighting: Option<LightingEffect>,
    /// The sleep-timer setting to apply, if this preset sets one.
    pub sleep_time: Option<SleepTime>,
}

/// The outcome of the sleep-timer step of applying a preset: nothing to
/// do without a setting; a driver error when the device has no timer;
/// otherwise exactly what handing the setting to the timer gave.
pub open spec fn sleep_step(sleep_time: Option<SleepTime>, timer: Option<&dyn SleepTimer>, r: Result<(), Error>) -> bool {
    match sleep_time {
        None => r is Ok,
        Some(t) => match timer {
            None => r matches Err(Error::Driver(m)) && m@ == "device does not support a sleep timer"@,
            Some(timer) => timer.sets_sleep_time(t, r),
        },
    }
}

/// The outcome of applying a preset to a device whose lighting and sleep
/// timer capabilities are `lighting` and `timer`: first the lighting
/// step (a driver error without the capability, else the effect handed
/// to it, stopping at its error), then the sleep-timer step.
pub open spec fn apply_outcome(
    preset: Preset,
    lighting: Option<&dyn Lighting>,
    timer: Option<&dyn SleepTimer>,
    r: Result<(), Error>,
) -> bool {
    match preset.lighting {
        None => sleep_step(preset.sleep_time, timer, r),
        Some(effect) => match lighting {
            None => r matches Err(Error::Driver(m)) && m@ == "device does not support lighting"@,
            Some(l) => exists|applied: Result<(), Error>| #[trigger] l.sets_effect(effect, applied) && match applied {
                Err(e) => r == Err::<(), Error>(e),
                Ok(_) => sleep_step(preset.sleep_time, timer, r),
            },
        },
    }
}

impl Preset {
    /// Applies every field this preset carries to `device`, in order
    /// (lighting, then sleep timer). Fails fast on the first capability
    /// the device doesn't support (a [`Error::Driver`]) or the first call
    /// that errors; already-applied fields are not rolled back.
    pub fn apply<D: Device + ?Sized>(&self, device: &D) -> (r: Result<(), Error>)
        ensures
            apply_outcome(*self, device.lighting_handle(), device.sleep_timer_handle(), r),
    {
        if let Some(effect) = self.lighting {
            let lighting = match device.lighting() {
                Some(l) => l,
                None => return Err(Error::Driver("device does not support lighting".to_owned())),
            };
            let applied = lighting.set_effect(effect);
            let ghost seen = applied;
            assert(lighting.sets_effect(effect, seen));
            match applied {
                Ok(()) => {},
                Err(e) => return Err(e),
            }
        }
        if let Some(sleep_time) = self.sleep_time {
            let sleep_timer = match device.sleep_timer() {
                Some(t) => t,
                None => return Err(Error::Driver("device does not support a sleep timer".to_owned())),
            };
            return sleep_timer.set_sleep_time(sleep_time);
        }
        Ok(())
    }
}

/// Applying a preset hands the device the preset's own settings: its
/// lighting effect, unchanged, to the lighting capability, whose error
/// is then the result; after the lighting step succeeds (or where the
/// preset sets no lighting), its sleep-timer setting, unchanged, to the
/// sleep timer, whose outcome is then the result; a preset that sets
/// nothing succeeds.
pub proof fn law_apply_hands_over_the_settings(
    preset: Preset,
    lighting: Option<&dyn Lighting>,
    timer: Option<&dyn SleepTimer>,
    r: Result<(), Error>,
)
    requires
        apply_outcome(preset, lighting, timer, r),
    ensures
        preset.lighting is Some && lighting is Some ==> exists|applied: Result<(), Error>|
            #[trigger] lighting->Some_0.sets_effect(preset.lighting->Some_0, applied)
                && (applied is Err ==> r == applied)
                && (applied is Ok && preset.sleep_time is Some && timer is Some
                    ==> timer->Some_0.sets_sleep_time(preset.sleep_time->Some_0, r)),
        preset.lighting is None && preset.sleep_time is Some && timer is Some
            ==> timer->Some_0.sets_sleep_time(preset.sleep_time->Some_0, r),
        preset.lighting is None && preset.sleep_time is None ==> r is Ok,
{
}

} // verus!
