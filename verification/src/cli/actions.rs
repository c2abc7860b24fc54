//! What each device-targeting subcommand does once a device is open:
//! which capability it needs, how it reads its arguments, which device
//! call it makes, and which exit code each outcome carries.

use vstd::prelude::*;
use vstd::string::*;
use vstd::utf8::is_ascii_chars;
use crate::capability::{
    Direction, Lighting, LightingEffect, LightingMode, Profiles, Rgb, RgbColor, SleepTime, SleepTimer,
};
use crate::device::Device;
use crate::error::Error;
use crate::cli::rgb::{parse_hex_color, spec_parse_hex_color, trim_leading, ColorError};
use crate::cli::device::{EXIT_FAILED, EXIT_USAGE};
use crate::cli::format::{append_padded, decimal_digits, padded_decimal, hex4_digits};
use crate::cli::hex::{hex_char, hex_digit_str, hex_digit_value};

verus! {

/// The optional device capabilities subcommands use.
#[derive(Debug, Clone, Copy, PartialEq, Eq, Structural)]
pub enum Capability {
    /// A solid RGB color.
    Rgb,
    /// Stored profiles.
    Profiles,
    /// Animated lighting effects.
    Lighting,
    /// The idle lighting-sleep timer.
    SleepTimer,
}

/// The device call a subcommand made.
#[derive(Debug, Clone, Copy, PartialEq, Eq, Structural)]
pub enum DeviceCall {
    /// Reading the color.
    ReadColor,
    /// Setting the color.
    SetColor,
    /// Reading the active profile.
    ReadProfile,
    /// Switching profiles.
    SwitchProfile,
    /// Applying a lighting effect.
    SetLightingEffect,
    /// Setting the sleep timer.
    SetSleepTimer,
}

/// Why a subcommand failed.
#[derive(Debug, Clone, PartialEq, Eq)]
pub enum Failure {
    /// The device lacks the capability the subcommand needs.
    Unsupported(Capability),
    /// `--color` is not an `RRGGBB` color.
    InvalidColor {
        /// The text given.
        text: String,
        /// Why it does not parse.
        error: ColorError,
    },
    /// `--mode` names no lighting mode.
    UnknownMode {
        /// The text given.
        text: String,
    },
    /// `--direction` names no direction.
    UnknownDirection {
        /// The text given.
        text: String,
    },
    /// The sleep preset names no preset.
    UnknownSleepPreset {
        /// The text given.
        text: String,
    },
    /// A preset would set nothing.
    NothingToSave,
    /// The device call itself failed.
    Device {
        /// Which call.
        call: DeviceCall,
        /// How it failed.
        error: Error,
    },
}

impl Failure {
    /// A usage problem for what the caller typed, a failure otherwise.
    pub open spec fn spec_exit_code(self) -> i32 {
        match self {
            Failure::Unsupported(_) | Failure::Device { .. } => EXIT_FAILED,
            _ => EXIT_USAGE,
        }
    }

    /// The process exit code this failure ends with.
    pub fn exit_code(&self) -> (r: i32)
        ensures
            r == self.spec_exit_code(),
    {
        match self {
            Failure::Unsupported(_) | Failure::Device { .. } => EXIT_FAILED,
            _ => EXIT_USAGE,
        }
    }
}

/// The text given, as an owned string.
fn owned(s: &str) -> (r: String)
    ensures
        r@ == s@,
{
    s.to_owned()
}

/// The lighting effect these `--mode`, `--color` and `--direction` texts
/// and levels describe, if all three texts parse.
pub open spec fn spec_build_effect(mode: Seq<char>, color: Seq<char>, brightness: u8, speed: u8, direction: Seq<char>) -> Option<LightingEffect> {
    match (LightingMode::spec_from_name(mode), spec_parse_hex_color(color), Direction::spec_from_name(direction)) {
        (Some(m), Ok(c), Some(d)) => Some(LightingEffect { mode: m, color: c, brightness, speed, direction: d }),
        _ => None,
    }
}

/// `f` is the failure reading these `--mode`, `--color` and
/// `--direction` texts gives: the first of them, in that order, that
/// does not parse.
pub open spec fn effect_failure(mode: Seq<char>, color: Seq<char>, direction: Seq<char>, f: Failure) -> bool {
    match (LightingMode::spec_from_name(mode), spec_parse_hex_color(color), Direction::spec_from_name(direction)) {
        (None, _, _) => f matches Failure::UnknownMode { text } && text@ == mode,
        (Some(_), Err(e), _) => f matches Failure::InvalidColor { text, error } && text@ == color && error == e,
        (Some(_), Ok(_), None) => f matches Failure::UnknownDirection { text } && text@ == direction,
        (Some(_), Ok(_), Some(_)) => false,
    }
}

/// Reads `--mode`, `--color` and `--direction` (in that order) into a
/// lighting effect with the given brightness and speed.
pub fn build_effect(mode: &str, color: &str, brightness: u8, speed: u8, direction: &str) -> (r: Result<LightingEffect, Failure>)
    ensures
        match (LightingMode::spec_from_name(mode@), spec_parse_hex_color(color@), Direction::spec_from_name(direction@)) {
            (None, _, _) => r matches Err(Failure::UnknownMode { text }) && text@ == mode@,
            (Some(_), Err(e), _) => r matches Err(Failure::InvalidColor { text, error }) && text@ == color@ && error == e,
            (Some(_), Ok(_), None) => r matches Err(Failure::UnknownDirection { text }) && text@ == direction@,
            (Some(m), Ok(c), Some(d)) => r == Ok::<LightingEffect, Failure>(
                LightingEffect { mode: m, color: c, brightness, speed, direction: d }),
        },
{
    let mode_value = match LightingMode::from_name(mode) {
        Some(m) => m,
        None => return Err(Failure::UnknownMode { text: owned(mode) }),
    };
    let color_value = match parse_hex_color(color) {
        Ok(c) => c,
        Err(error) => return Err(Failure::InvalidColor { text: owned(color), error }),
    };
    let direction_value = match Direction::from_name(direction) {
        Some(d) => d,
        None => return Err(Failure::UnknownDirection { text: owned(direction) }),
    };
    Ok(LightingEffect { mode: mode_value, color: color_value, brightness, speed, direction: direction_value })
}

/// What `rgb` was asked to do.
#[derive(Debug, Clone, PartialEq, Eq)]
pub enum RgbAction {
    /// Read the current color.
    Get,
    /// Set the color to this `RRGGBB` text.
    SetColor {
        /// The color, as typed.
        color: String,
    },
}

/// A color as `rgb get` prints it: six lowercase hexadecimal digits.
pub open spec fn color_text(c: RgbColor) -> Seq<char> {
    hex4_digits(c.r as u16).subrange(2, 4) + hex4_digits(c.g as u16).subrange(2, 4) + hex4_digits(c.b as u16).subrange(2, 4)
}

fn append_hex2(s: &mut String, v: u8)
    ensures
        final(s)@ == old(s)@ + hex4_digits(v as u16).subrange(2, 4),
{
    s.append(hex_digit_str(v / 16));
    s.append(hex_digit_str(v % 16));
    assert(final(s)@ =~= old(s)@ + hex4_digits(v as u16).subrange(2, 4));
}

/// A color as `rgb get` prints it, as `{:02x}{:02x}{:02x}` writes its
/// channels.
pub fn color_hex(c: RgbColor) -> (r: String)
    ensures
        r@ == color_text(c),
{
    let mut text = String::new();
    append_hex2(&mut text, c.r);
    append_hex2(&mut text, c.g);
    append_hex2(&mut text, c.b);
    assert(text@ =~= color_text(c));
    text
}

/// What `rgb` gives for `action` on a device whose RGB capability is
/// `handle`: unsupported without one; for `get`, the color the device
/// read, as text, or the read's error; for `set`, the color parse error,
/// or, with the parsed color handed to the device, `color set` or the
/// device's error.
pub open spec fn rgb_outcome(handle: Option<&dyn Rgb>, action: RgbAction, r: Result<Option<String>, Failure>) -> bool {
    match handle {
        None => r == Err::<Option<String>, Failure>(Failure::Unsupported(Capability::Rgb)),
        Some(rgb) => match action {
            RgbAction::Get => exists|read: Result<RgbColor, Error>| #[trigger] rgb.reads_color(read) && match read {
                Ok(c) => r matches Ok(Some(text)) && text@ == color_text(c),
                Err(e) => r == Err::<Option<String>, Failure>(Failure::Device { call: DeviceCall::ReadColor, error: e }),
            },
            RgbAction::SetColor { color } => match spec_parse_hex_color(color@) {
                Err(e) => r matches Err(Failure::InvalidColor { text, error }) && text@ == color@ && error == e,
                Ok(c) => exists|written: Result<(), Error>| #[trigger] rgb.writes_color(c, written) && match written {
                    Ok(_) => r matches Ok(Some(text)) && text@ == "color set"@,
                    Err(e) => r == Err::<Option<String>, Failure>(Failure::Device { call: DeviceCall::SetColor, error: e }),
                },
            },
        },
    }
}

/// Runs `rgb get`/`rgb set` against an opened device: the device must
/// have the RGB capability; `set` needs a valid color; a device call
/// failure is reported as such.
pub fn rgb_act<D: Device + ?Sized>(opened: &D, action: &RgbAction) -> (r: Result<Option<String>, Failure>)
    ensures
        rgb_outcome(opened.rgb_handle(), *action, r),
{
    let rgb = match opened.rgb() {
        Some(rgb) => rgb,
        None => return Err(Failure::Unsupported(Capability::Rgb)),
    };
    match action {
        RgbAction::Get => {
            let read = rgb.get_color();
            let ghost seen = read;
            let r = match read {
                Ok(c) => Ok(Some(color_hex(c))),
                Err(error) => Err(Failure::Device { call: DeviceCall::ReadColor, error }),
            };
            assert(rgb.reads_color(seen));
            r
        },
        RgbAction::SetColor { color } => {
            let parsed = match parse_hex_color(color.as_str()) {
                Ok(c) => c,
                Err(error) => return Err(Failure::InvalidColor { text: color.clone(), error }),
            };
            let written = rgb.set_color(parsed);
            let ghost seen = written;
            let r = match written {
                Ok(()) => Ok(Some(String::from_str("color set"))),
                Err(error) => Err(Failure::Device { call: DeviceCall::SetColor, error }),
            };
            assert(rgb.writes_color(parsed, seen));
            r
        },
    }
}

/// What `profile` was asked to do.
#[derive(Debug, Clone, Copy, PartialEq, Eq, Structural)]
pub enum ProfileAction {
    /// Show the active profile.
    Get,
    /// Switch to this profile.
    SetProfile {
        /// The profile index.
        profile: u8,
    },
}

/// What `profile` gives for `action` on a device whose profiles
/// capability is `handle`: unsupported without one; for `get`, the
/// profile the device read, in decimal, or the read's error; for `set`,
/// with the profile handed to the device, the confirmation or the
/// device's error.
pub open spec fn profile_outcome(handle: Option<&dyn Profiles>, action: ProfileAction, r: Result<String, Failure>) -> bool {
    match handle {
        None => r == Err::<String, Failure>(Failure::Unsupported(Capability::Profiles)),
        Some(profiles) => match action {
            ProfileAction::Get => exists|read: Result<u8, Error>| #[trigger] profiles.reads_profile(read) && match read {
                Ok(p) => r matches Ok(text) && text@ == decimal_digits(p as nat),
                Err(e) => r == Err::<String, Failure>(Failure::Device { call: DeviceCall::ReadProfile, error: e }),
            },
            ProfileAction::SetProfile { profile } => exists|switched: Result<(), Error>|
                #[trigger] profiles.switches_profile(profile, switched) && match switched {
                    Ok(_) => r matches Ok(text) && text@ == "switched to profile "@ + decimal_digits(profile as nat),
                    Err(e) => r == Err::<String, Failure>(Failure::Device { call: DeviceCall::SwitchProfile, error: e }),
                },
        },
    }
}

/// Runs `profile get`/`profile set` against an opened device.
pub fn profile_act<D: Device + ?Sized>(opened: &D, action: ProfileAction) -> (r: Result<String, Failure>)
    ensures
        profile_outcome(opened.profiles_handle(), action, r),
{
    let profiles = match opened.profiles() {
        Some(p) => p,
        None => return Err(Failure::Unsupported(Capability::Profiles)),
    };
    match action {
        ProfileAction::Get => {
            let read = profiles.active_profile();
            let ghost seen = read;
            let r = match read {
                Ok(active) => {
                    let mut text = String::new();
                    append_padded(&mut text, active as u64, 1);
                    proof {
                        lemma_unpadded(active as nat);
                        assert(text@ =~= decimal_digits(active as nat));
                    }
                    Ok(text)
                },
                Err(error) => Err(Failure::Device { call: DeviceCall::ReadProfile, error }),
            };
            assert(profiles.reads_profile(seen));
            r
        },
        ProfileAction::SetProfile { profile } => {
            let switched = profiles.set_active_profile(profile);
            let ghost seen = switched;
            let r = match switched {
                Ok(()) => {
                    let mut text = String::from_str("switched to profile ");
                    append_padded(&mut text, profile as u64, 1);
                    proof {
                        lemma_unpadded(profile as nat);
                        assert(text@ =~= "switched to profile "@ + decimal_digits(profile as nat));
                    }
                    Ok(text)
                },
                Err(error) => Err(Failure::Device { call: DeviceCall::SwitchProfile, error }),
            };
            assert(profiles.switches_profile(profile, seen));
            r
        },
    }
}

/// Decimal digits are never empty, so padding to one character adds
/// nothing.
pub proof fn lemma_unpadded(n: nat)
    ensures
        decimal_digits(n).len() >= 1,
        padded_decimal(n as int, 1) == decimal_digits(n),
    decreases n,
{
    if n >= 10 {
        lemma_unpadded(n / 10);
    }
    assert(padded_decimal(n as int, 1) =~= decimal_digits(n));
}

/// The arguments of `lighting set`.
#[derive(Debug, Clone, PartialEq, Eq)]
pub struct LightingArgs {
    /// Effect mode name.
    pub mode: String,
    /// `RRGGBB` color.
    pub color: String,
    /// Brightness, device-specific range.
    pub brightness: u8,
    /// Animation speed, device-specific range.
    pub speed: u8,
    /// Direction name.
    pub direction: String,
}

/// What `lighting set` gives for `args` on a device whose lighting
/// capability is `handle`: unsupported without one; otherwise the first
/// flag that does not parse, or, with the effect the flags describe
/// handed to the device, the confirmation or the device's error.
pub open spec fn lighting_outcome(handle: Option<&dyn Lighting>, args: LightingArgs, r: Result<String, Failure>) -> bool {
    match handle {
        None => r == Err::<String, Failure>(Failure::Unsupported(Capability::Lighting)),
        Some(lighting) => match spec_build_effect(args.mode@, args.color@, args.brightness, args.speed, args.direction@) {
            None => r matches Err(f) && effect_failure(args.mode@, args.color@, args.direction@, f),
            Some(effect) => exists|applied: Result<(), Error>| #[trigger] lighting.sets_effect(effect, applied) && match applied {
                Ok(_) => r matches Ok(text) && text@ == "lighting set to "@ + effect.mode.spec_name(),
                Err(e) => r == Err::<String, Failure>(Failure::Device { call: DeviceCall::SetLightingEffect, error: e }),
            },
        },
    }
}

/// Runs `lighting set` against an opened device: the device must have
/// the lighting capability, then the effect is read from the arguments
/// and applied.
pub fn lighting_act<D: Device + ?Sized>(opened: &D, args: &LightingArgs) -> (r: Result<String, Failure>)
    ensures
        lighting_outcome(opened.lighting_handle(), *args, r),
{
    let lighting = match opened.lighting() {
        Some(l) => l,
        None => return Err(Failure::Unsupported(Capability::Lighting)),
    };
    let effect = match build_effect(args.mode.as_str(), args.color.as_str(), args.brightness, args.speed, args.direction.as_str()) {
        Ok(e) => e,
        Err(f) => return Err(f),
    };
    let applied = lighting.set_effect(effect);
    let ghost seen = applied;
    let r = match applied {
        Ok(()) => {
            let mut text = String::from_str("lighting set to ");
            text.append(effect.mode.name());
            Ok(text)
        },
        Err(error) => Err(Failure::Device { call: DeviceCall::SetLightingEffect, error }),
    };
    assert(lighting.sets_effect(effect, seen));
    r
}

/// What `sleep set` gives for the preset name `preset` on a device whose
/// sleep timer is `handle`: unsupported without one; otherwise the
/// unknown name, or, with the named setting handed to the device, the
/// confirmation or the device's error.
pub open spec fn sleep_outcome(handle: Option<&dyn SleepTimer>, preset: Seq<char>, r: Result<String, Failure>) -> bool {
    match handle {
        None => r == Err::<String, Failure>(Failure::Unsupported(Capability::SleepTimer)),
        Some(timer) => match SleepTime::spec_from_name(preset) {
            None => r matches Err(Failure::UnknownSleepPreset { text }) && text@ == preset,
            Some(time) => exists|set: Result<(), Error>| #[trigger] timer.sets_sleep_time(time, set) && match set {
                Ok(_) => r matches Ok(text) && text@ == "sleep timer set to "@ + time.spec_name(),
                Err(e) => r == Err::<String, Failure>(Failure::Device { call: DeviceCall::SetSleepTimer, error: e }),
            },
        },
    }
}

/// Runs `sleep set <preset>` against an opened device: the device must
/// have a sleep timer, then the preset name is read and applied.
pub fn sleep_act<D: Device + ?Sized>(opened: &D, preset: &str) -> (r: Result<String, Failure>)
    ensures
        sleep_outcome(opened.sleep_timer_handle(), preset@, r),
{
    let sleep_timer = match opened.sleep_timer() {
        Some(t) => t,
        None => return Err(Failure::Unsupported(Capability::SleepTimer)),
    };
    let parsed = match SleepTime::from_name(preset) {
        Some(t) => t,
        None => return Err(Failure::UnknownSleepPreset { text: owned(preset) }),
    };
    let set = sleep_timer.set_sleep_time(parsed);
    let ghost seen = set;
    let r = match set {
        Ok(()) => {
            let mut text = String::from_str("sleep timer set to ");
            text.append(parsed.name());
            Ok(text)
        },
        Err(error) => Err(Failure::Device { call: DeviceCall::SetSleepTimer, error }),
    };
    assert(sleep_timer.sets_sleep_time(parsed, seen));
    r
}

/// The color six hexadecimal digits `t` spell, two digits per channel in
/// the order red, green, blue, the first digit of each pair the more
/// significant.
pub open spec fn digits_color(t: Seq<char>) -> RgbColor {
    RgbColor {
        r: (16 * hex_digit_value(t[0]).unwrap() + hex_digit_value(t[1]).unwrap()) as u8,
        g: (16 * hex_digit_value(t[2]).unwrap() + hex_digit_value(t[3]).unwrap()) as u8,
        b: (16 * hex_digit_value(t[4]).unwrap() + hex_digit_value(t[5]).unwrap()) as u8,
    }
}

/// Six hexadecimal digits, with or without one leading `#`, parse as the
/// color they spell: red from the first two, green from the next two,
/// blue from the last two.
pub proof fn law_hex_color_reads_digit_pairs(t: Seq<char>)
    requires
        t.len() == 6,
        forall|i: int| 0 <= i < 6 ==> #[trigger] hex_digit_value(t[i]) is Some,
    ensures
        spec_parse_hex_color(t) == Ok::<RgbColor, ColorError>(digits_color(t)),
        spec_parse_hex_color(seq!['#'] + t) == Ok::<RgbColor, ColorError>(digits_color(t)),
{
    assert(hex_digit_value(t[0]) is Some);
    assert(hex_digit_value(t[1]) is Some);
    assert(hex_digit_value(t[2]) is Some);
    assert(hex_digit_value(t[3]) is Some);
    assert(hex_digit_value(t[4]) is Some);
    assert(hex_digit_value(t[5]) is Some);
    assert(trim_leading(t, '#') == t);
    assert((seq!['#'] + t).drop_first() =~= t);
    assert(trim_leading(seq!['#'] + t, '#') == trim_leading(t, '#'));
    assert(is_ascii_chars(t));
}

/// `rgb set` on a device with an RGB capability hands that capability
/// exactly the color its text parses as, and reports `color set` only
/// when the device accepts it: for six hexadecimal digits, the color
/// whose red is the first pair, green the second and blue the third.
pub proof fn law_rgb_set_hands_over_the_parsed_color(
    handle: Option<&dyn Rgb>,
    color: String,
    r: Result<Option<String>, Failure>,
)
    requires
        handle is Some,
        rgb_outcome(handle, RgbAction::SetColor { color }, r),
        spec_parse_hex_color(color@) is Ok,
    ensures
        exists|written: Result<(), Error>| #[trigger]
            handle->Some_0.writes_color(spec_parse_hex_color(color@)->Ok_0, written),
        color@.len() == 6 && (forall|i: int| 0 <= i < 6 ==> #[trigger] hex_digit_value(color@[i]) is Some)
            ==> exists|written: Result<(), Error>| #[trigger] handle->Some_0.writes_color(digits_color(color@), written),
        r is Ok ==> r->Ok_0 is Some && r->Ok_0->Some_0@ == "color set"@,
{
    if color@.len() == 6 && (forall|i: int| 0 <= i < 6 ==> #[trigger] hex_digit_value(color@[i]) is Some) {
        law_hex_color_reads_digit_pairs(color@);
    }
}

/// Reading `--mode`, `--color` and `--direction` succeeds exactly when
/// all three parse, and then the effect has the named mode, the parsed
/// color, the named direction, and the brightness and speed as given
/// (brightness as brightness, speed as speed).
pub proof fn law_effect_carries_the_flags(
    mode: Seq<char>,
    color: Seq<char>,
    brightness: u8,
    speed: u8,
    direction: Seq<char>,
)
    ensures
        spec_build_effect(mode, color, brightness, speed, direction) is Some
            <==> (LightingMode::spec_from_name(mode) is Some && spec_parse_hex_color(color) is Ok
                && Direction::spec_from_name(direction) is Some),
        spec_build_effect(mode, color, brightness, speed, direction) is Some ==> ({
            let e = spec_build_effect(mode, color, brightness, speed, direction)->Some_0;
            &&& e.mode == LightingMode::spec_from_name(mode)->Some_0
            &&& e.color == spec_parse_hex_color(color)->Ok_0
            &&& e.brightness == brightness
            &&& e.speed == speed
            &&& e.direction == Direction::spec_from_name(direction)->Some_0
        }),
{
}

/// `lighting set` on a device with a lighting capability, with flags
/// that all parse, hands that capability exactly the effect the flags
/// describe (the `--brightness` value as its brightness, the `--speed`
/// value as its speed), and reports `lighting set to <mode>` only when
/// the device accepts it.
pub proof fn law_lighting_set_hands_over_the_flags(
    handle: Option<&dyn Lighting>,
    args: LightingArgs,
    r: Result<String, Failure>,
)
    requires
        handle is Some,
        lighting_outcome(handle, args, r),
        LightingMode::spec_from_name(args.mode@) is Some,
        spec_parse_hex_color(args.color@) is Ok,
        Direction::spec_from_name(args.direction@) is Some,
    ensures
        exists|applied: Result<(), Error>| #[trigger] handle->Some_0.sets_effect(
            LightingEffect {
                mode: LightingMode::spec_from_name(args.mode@)->Some_0,
                color: spec_parse_hex_color(args.color@)->Ok_0,
                brightness: args.brightness,
                speed: args.speed,
                direction: Direction::spec_from_name(args.direction@)->Some_0,
            },
            applied,
        ),
        r is Ok ==> r->Ok_0@ == "lighting set to "@ + LightingMode::spec_from_name(args.mode@)->Some_0.spec_name(),
{
}

/// `profile set` on a device with a profiles capability hands that
/// capability exactly the profile index given, and reports `switched to
/// profile <index>` only when the device accepts it.
pub proof fn law_profile_set_hands_over_the_index(
    handle: Option<&dyn Profiles>,
    profile: u8,
    r: Result<String, Failure>,
)
    requires
        handle is Some,
        profile_outcome(handle, ProfileAction::SetProfile { profile }, r),
    ensures
        exists|switched: Result<(), Error>| #[trigger] handle->Some_0.switches_profile(profile, switched),
        r is Ok ==> r->Ok_0@ == "switched to profile "@ + decimal_digits(profile as nat),
{
}

/// `sleep set` on a device with a sleep timer, with a preset name that
/// names a setting, hands the timer exactly that setting, and reports
/// `sleep timer set to <name>` only when the device accepts it.
pub proof fn law_sleep_set_hands_over_the_named_setting(
    handle: Option<&dyn SleepTimer>,
    preset: Seq<char>,
    r: Result<String, Failure>,
)
    requires
        handle is Some,
        sleep_outcome(handle, preset, r),
        SleepTime::spec_from_name(preset) is Some,
    ensures
        exists|set: Result<(), Error>| #[trigger] handle->Some_0.sets_sleep_time(SleepTime::spec_from_name(preset)->Some_0, set),
        r is Ok ==> r->Ok_0@ == "sleep timer set to "@ + SleepTime::spec_from_name(preset)->Some_0.spec_name(),
{
}

} // verus!
