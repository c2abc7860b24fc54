//! How a device exposes optional features (RGB, battery, profiles,
//! lighting effects, idle timer), and the vocabulary those features
//! speak: colors, lighting modes, directions and sleep presets.

use vstd::prelude::*;
use crate::text::{ascii_lower, eq_ignore_ascii_case, eq_ignore_ascii_case_spec};
use crate::error::Error;

verus! {

/// Devices that can report and change a solid RGB color. Each
/// implementation says, through its spec functions, which outcomes its
/// calls can have.
pub trait Rgb {
    /// `r` is an outcome reading the color can have.
    spec fn reads_color(&self, r: Result<RgbColor, Error>) -> bool;

    /// `r` is an outcome setting the color to `color` can have.
    spec fn writes_color(&self, color: RgbColor, r: Result<(), Error>) -> bool;

    /// Reads the device's current color.
    fn get_color(&self) -> (r: Result<RgbColor, Error>)
        ensures
            self.reads_color(r),
    ;

    /// Sets the device's color.
    fn set_color(&self, color: RgbColor) -> (r: Result<(), Error>)
        ensures
            self.writes_color(color, r),
    ;
}

/// Devices that report a battery level.
pub trait Battery {
    /// Battery level, `0`-`100`.
    fn level_percent(&self) -> Result<u8, Error>;
}

/// Devices that store multiple configuration profiles switchable at runtime.
pub trait Profiles {
    /// `r` is an outcome reading the active profile can have.
    spec fn reads_profile(&self, r: Result<u8, Error>) -> bool;

    /// `r` is an outcome switching to `profile` can have.
    spec fn switches_profile(&self, profile: u8, r: Result<(), Error>) -> bool;

    /// The currently active profile's index.
    fn active_profile(&self) -> (r: Result<u8, Error>)
        ensures
            self.reads_profile(r),
    ;

    /// Switches to a different stored profile.
    fn set_active_profile(&self, profile: u8) -> (r: Result<(), Error>)
        ensures
            self.switches_profile(profile, r),
    ;
}

/// Devices that support animated lighting effects beyond a single solid
/// [`RgbColor`].
pub trait Lighting {
    /// `r` is an outcome applying `effect` can have.
    spec fn sets_effect(&self, effect: LightingEffect, r: Result<(), Error>) -> bool;

    /// Applies a full lighting effect.
    fn set_effect(&self, effect: LightingEffect) -> (r: Result<(), Error>)
        ensures
            self.sets_effect(effect, r),
    ;
}

/// Devices with an idle timer that puts their lighting to sleep after a
/// period of inactivity.
pub trait SleepTimer {
    /// `r` is an outcome setting the idle time to `time` can have.
    spec fn sets_sleep_time(&self, time: SleepTime, r: Result<(), Error>) -> bool;

    /// Sets how long the device stays idle before its lighting sleeps.
    fn set_sleep_time(&self, time: SleepTime) -> (r: Result<(), Error>)
        ensures
            self.sets_sleep_time(time, r),
    ;
}

/// An RGB color, 8 bits per channel.
#[derive(Debug, Clone, Copy, PartialEq, Eq, Structural)]
pub struct RgbColor {
    /// Red channel.
    pub r: u8,
    /// Green channel.
    pub g: u8,
    /// Blue channel.
    pub b: u8,
}

/// How long a device waits, idle, before its lighting sleeps.
#[derive(Debug, Clone, Copy, PartialEq, Eq, Structural)]
pub enum SleepTime {
    /// Never sleep.
    Never,
    /// Sleep after one minute idle.
    OneMinute,
    /// Sleep after five minutes idle.
    FiveMinutes,
    /// Sleep after thirty minutes idle.
    ThirtyMinutes,
}

impl SleepTime {
    /// Every preset.
    pub const ALL: [SleepTime; 4] = [SleepTime::Never, SleepTime::OneMinute, SleepTime::FiveMinutes, SleepTime::ThirtyMinutes];

    /// The sequence of every variant, in the order of [`Self::ALL`].
    pub open spec fn spec_all() -> Seq<SleepTime> {
        seq![SleepTime::Never, SleepTime::OneMinute, SleepTime::FiveMinutes, SleepTime::ThirtyMinutes]
    }

    /// The display name of each variant.
    pub open spec fn spec_name(self) -> Seq<char> {
        match self {
            SleepTime::Never => seq!['n', 'e', 'v', 'e', 'r'],
            SleepTime::OneMinute => seq!['1', 'm'],
            SleepTime::FiveMinutes => seq!['5', 'm'],
            SleepTime::ThirtyMinutes => seq!['3', '0', 'm'],
        }
    }

    /// The variant whose name equals `s` up to ASCII case, if there is one.
    pub open spec fn spec_from_name(s: Seq<char>) -> Option<SleepTime> {
        if exists|v: SleepTime| eq_ignore_ascii_case_spec(#[trigger] v.spec_name(), s) {
            Some(choose|v: SleepTime| eq_ignore_ascii_case_spec(#[trigger] v.spec_name(), s))
        } else {
            None
        }
    }

    /// Index of each variant in [`Self::ALL`].
    pub open spec fn spec_index(self) -> int {
        match self {
            SleepTime::Never => 0,
            SleepTime::OneMinute => 1,
            SleepTime::FiveMinutes => 2,
            SleepTime::ThirtyMinutes => 3,
        }
    }

    /// Recovers a variant from its name's length and first two lowercased characters.
    pub open spec fn spec_decode_key(len: nat, c0: char, c1: char) -> Option<SleepTime> {
        if len == 5 && c0 == 'n' && c1 == 'e' {
            Some(SleepTime::Never)
        } else if len == 2 && c0 == '1' && c1 == 'm' {
            Some(SleepTime::OneMinute)
        } else if len == 2 && c0 == '5' && c1 == 'm' {
            Some(SleepTime::FiveMinutes)
        } else if len == 3 && c0 == '3' && c1 == '0' {
            Some(SleepTime::ThirtyMinutes)
        } else {
            None
        }
    }

    /// A short name, for CLI display/parsing.
    pub fn name(self) -> (r: &'static str)
        ensures
            r@ == self.spec_name(),
    {
        match self {
            SleepTime::Never => {
                proof {
                    reveal_strlit("never");
                }
                "never"
            },
            SleepTime::OneMinute => {
                proof {
                    reveal_strlit("1m");
                }
                "1m"
            },
            SleepTime::FiveMinutes => {
                proof {
                    reveal_strlit("5m");
                }
                "5m"
            },
            SleepTime::ThirtyMinutes => {
                proof {
                    reveal_strlit("30m");
                }
                "30m"
            },
        }
    }

    /// Parses [`Self::name`]'s output back into a variant, ignoring ASCII case.
    pub fn from_name(name: &str) -> (r: Option<SleepTime>)
        ensures
            r == Self::spec_from_name(name@),
    {
        let all = Self::ALL;
        assert(all@ == Self::spec_all());
        let mut i: usize = 0;
        while i < all.len()
            invariant
                i <= all.len(),
                all@ == Self::spec_all(),
                forall|j: int| 0 <= j < i ==> !eq_ignore_ascii_case_spec(#[trigger] all@[j].spec_name(), name@),
            decreases all.len() - i,
        {
            let v = all[i];
            if eq_ignore_ascii_case(v.name(), name) {
                proof {
                    let w = choose|w: SleepTime| eq_ignore_ascii_case_spec(#[trigger] w.spec_name(), name@);
                    crate::text::lemma_eq_ignore_ascii_case_symmetric(w.spec_name(), name@);
                    crate::text::lemma_eq_ignore_ascii_case_transitive(v.spec_name(), name@, w.spec_name());
                    Self::lemma_names_distinct(v, w);
                }
                return Some(v);
            }
            i = i + 1;
        }
        assert forall|v: SleepTime| !eq_ignore_ascii_case_spec(#[trigger] v.spec_name(), name@) by {
            Self::lemma_all_covers(v);
            assert(all@[v.spec_index()] == v);
        }
        None
    }

    /// The one-byte value each preset has on the wire.
    pub open spec fn spec_value(self) -> u8 {
        self.spec_index() as u8
    }

    /// The one-byte value of this preset (its position in [`Self::ALL`]).
    pub fn value(self) -> (r: u8)
        ensures
            r == self.spec_value(),
    {
        match self {
            SleepTime::Never => 0,
            SleepTime::OneMinute => 1,
            SleepTime::FiveMinutes => 2,
            SleepTime::ThirtyMinutes => 3,
        }
    }


    /// Each variant sits in [`Self::ALL`] at its index.
    pub proof fn lemma_all_covers(v: SleepTime)
        ensures
            0 <= v.spec_index() < Self::spec_all().len(),
            Self::spec_all()[v.spec_index()] == v,
    {
    }

    /// A name determines its variant through its length and first two characters.
    pub proof fn lemma_decode_key(v: SleepTime)
        ensures
            v.spec_name().len() >= 2,
            Self::spec_decode_key(v.spec_name().len(), ascii_lower(v.spec_name()[0]), ascii_lower(v.spec_name()[1])) == Some(v),
    {
    }

    /// No two variants have names that are equal up to ASCII case.
    pub proof fn lemma_names_distinct(a: SleepTime, b: SleepTime)
        requires
            eq_ignore_ascii_case_spec(a.spec_name(), b.spec_name()),
        ensures
            a == b,
    {
        Self::lemma_decode_key(a);
        Self::lemma_decode_key(b);
        assert(ascii_lower(a.spec_name()[0]) == ascii_lower(b.spec_name()[0]));
        assert(ascii_lower(a.spec_name()[1]) == ascii_lower(b.spec_name()[1]));
    }

    /// Parsing a variant's own name gives that variant back.
    pub proof fn name_round_trips(v: SleepTime)
        ensures
            Self::spec_from_name(v.spec_name()) == Some(v),
    {
        crate::text::lemma_eq_ignore_ascii_case_reflexive(v.spec_name());
        let w = choose|w: SleepTime| eq_ignore_ascii_case_spec(#[trigger] w.spec_name(), v.spec_name());
        Self::lemma_names_distinct(w, v);
    }

    /// Parsing ignores ASCII case: two inputs equal up to case parse alike.
    pub proof fn from_name_ignores_case(s: Seq<char>, t: Seq<char>)
        requires
            eq_ignore_ascii_case_spec(s, t),
        ensures
            Self::spec_from_name(s) == Self::spec_from_name(t),
    {
        crate::text::lemma_eq_ignore_ascii_case_symmetric(s, t);
        assert forall|v: SleepTime| eq_ignore_ascii_case_spec(v.spec_name(), s) <==> eq_ignore_ascii_case_spec(#[trigger] v.spec_name(), t) by {
            if eq_ignore_ascii_case_spec(v.spec_name(), s) {
                crate::text::lemma_eq_ignore_ascii_case_transitive(v.spec_name(), s, t);
            }
            if eq_ignore_ascii_case_spec(v.spec_name(), t) {
                crate::text::lemma_eq_ignore_ascii_case_transitive(v.spec_name(), t, s);
            }
        }
        if exists|v: SleepTime| eq_ignore_ascii_case_spec(#[trigger] v.spec_name(), s) {
            let a = choose|v: SleepTime| eq_ignore_ascii_case_spec(#[trigger] v.spec_name(), s);
            let b = choose|v: SleepTime| eq_ignore_ascii_case_spec(#[trigger] v.spec_name(), t);
            assert(eq_ignore_ascii_case_spec(a.spec_name(), t));
            assert(eq_ignore_ascii_case_spec(b.spec_name(), t));
            crate::text::lemma_eq_ignore_ascii_case_symmetric(b.spec_name(), t);
            crate::text::lemma_eq_ignore_ascii_case_transitive(a.spec_name(), t, b.spec_name());
            Self::lemma_names_distinct(a, b);
        }
    }
}

/// A full lighting effect: which [`LightingMode`] to run, its color, and
/// its brightness/speed/direction. `brightness`/`speed` are raw,
/// device-specific ranges (0-5 on the AK820).
#[derive(Debug, Clone, Copy, PartialEq, Eq, Structural)]
pub struct LightingEffect {
    /// Which animation (or `Static`/`Off`) to run.
    pub mode: LightingMode,
    /// The effect's primary color. Ignored by modes that don't use one.
    pub color: RgbColor,
    /// Brightness, device-specific range.
    pub brightness: u8,
    /// Animation speed, device-specific range.
    pub speed: u8,
    /// Which way the animation runs, for modes that support one.
    pub direction: Direction,
}

const VERTICAL_DIRECTIONS: [Direction; 2] = [Direction::Up, Direction::Down];

const HORIZONTAL_DIRECTIONS: [Direction; 2] = [Direction::Left, Direction::Right];

const NO_DIRECTIONS: [Direction; 0] = [];

/// Every lighting effect mode the AK820 exposes, in wire-opcode order.
#[derive(Debug, Clone, Copy, PartialEq, Eq, Structural)]
pub enum LightingMode {
    /// Lighting off entirely.
    Off,
    /// A single solid color.
    Static,
    /// A single key lit on press.
    SingleOn,
    /// A single key lit, then turned off on press.
    SingleOff,
    /// Random keys glittering.
    Glittering,
    /// A falling-keys animation.
    Falling,
    /// A colorful, multi-hue animation.
    Colourful,
    /// A breathing (fade in/out) effect.
    Breath,
    /// A spectrum-cycling animation.
    Spectrum,
    /// An animation radiating outward from the center.
    Outward,
    /// A scrolling animation; runs up or down.
    Scrolling,
    /// A rolling animation; runs left or right.
    Rolling,
    /// A rotating animation.
    Rotating,
    /// An exploding animation.
    Explode,
    /// A launching animation.
    Launch,
    /// A ripple animation.
    Ripples,
    /// A flowing animation; runs left or right.
    Flowing,
    /// A pulsating animation.
    Pulsating,
    /// A tilt animation; runs left or right.
    Tilt,
    /// A shuttle animation.
    Shuttle,
}

impl LightingMode {
    /// Every mode, in wire-opcode order.
    pub const ALL: [LightingMode; 20] = [LightingMode::Off, LightingMode::Static, LightingMode::SingleOn, LightingMode::SingleOff, LightingMode::Glittering, LightingMode::Falling, LightingMode::Colourful, LightingMode::Breath, LightingMode::Spectrum, LightingMode::Outward, LightingMode::Scrolling, LightingMode::Rolling, LightingMode::Rotating, LightingMode::Explode, LightingMode::Launch, LightingMode::Ripples, LightingMode::Flowing, LightingMode::Pulsating, LightingMode::Tilt, LightingMode::Shuttle];

    /// The sequence of every variant, in the order of [`Self::ALL`].
    pub open spec fn spec_all() -> Seq<LightingMode> {
        seq![LightingMode::Off, LightingMode::Static, LightingMode::SingleOn, LightingMode::SingleOff, LightingMode::Glittering, LightingMode::Falling, LightingMode::Colourful, LightingMode::Breath, LightingMode::Spectrum, LightingMode::Outward, LightingMode::Scrolling, LightingMode::Rolling, LightingMode::Rotating, LightingMode::Explode, LightingMode::Launch, LightingMode::Ripples, LightingMode::Flowing, LightingMode::Pulsating, LightingMode::Tilt, LightingMode::Shuttle]
    }

    /// The display name of each variant.
    pub open spec fn spec_name(self) -> Seq<char> {
        match self {
            LightingMode::Off => seq!['o', 'f', 'f'],
            LightingMode::Static => seq!['s', 't', 'a', 't', 'i', 'c'],
            LightingMode::SingleOn => seq!['s', 'i', 'n', 'g', 'l', 'e', '-', 'o', 'n'],
            LightingMode::SingleOff => seq!['s', 'i', 'n', 'g', 'l', 'e', '-', 'o', 'f', 'f'],
            LightingMode::Glittering => seq!['g', 'l', 'i', 't', 't', 'e', 'r', 'i', 'n', 'g'],
            LightingMode::Falling => seq!['f', 'a', 'l', 'l', 'i', 'n', 'g'],
            LightingMode::Colourful => seq!['c', 'o', 'l', 'o', 'u', 'r', 'f', 'u', 'l'],
            LightingMode::Breath => seq!['b', 'r', 'e', 'a', 't', 'h'],
            LightingMode::Spectrum => seq!['s', 'p', 'e', 'c', 't', 'r', 'u', 'm'],
            LightingMode::Outward => seq!['o', 'u', 't', 'w', 'a', 'r', 'd'],
            LightingMode::Scrolling => seq!['s', 'c', 'r', 'o', 'l', 'l', 'i', 'n', 'g'],
            LightingMode::Rolling => seq!['r', 'o', 'l', 'l', 'i', 'n', 'g'],
            LightingMode::Rotating => seq!['r', 'o', 't', 'a', 't', 'i', 'n', 'g'],
            LightingMode::Explode => seq!['e', 'x', 'p', 'l', 'o', 'd', 'e'],
            LightingMode::Launch => seq!['l', 'a', 'u', 'n', 'c', 'h'],
            LightingMode::Ripples => seq!['r', 'i', 'p', 'p', 'l', 'e', 's'],
            LightingMode::Flowing => seq!['f', 'l', 'o', 'w', 'i', 'n', 'g'],
            LightingMode::Pulsating => seq!['p', 'u', 'l', 's', 'a', 't', 'i', 'n', 'g'],
            LightingMode::Tilt => seq!['t', 'i', 'l', 't'],
            LightingMode::Shuttle => seq!['s', 'h', 'u', 't', 't', 'l', 'e'],
        }
    }

    /// The variant whose name equals `s` up to ASCII case, if there is one.
    pub open spec fn spec_from_name(s: Seq<char>) -> Option<LightingMode> {
        if exists|v: LightingMode| eq_ignore_ascii_case_spec(#[trigger] v.spec_name(), s) {
            Some(choose|v: LightingMode| eq_ignore_ascii_case_spec(#[trigger] v.spec_name(), s))
        } else {
            None
        }
    }

    /// Index of each variant in [`Self::ALL`].
    pub open spec fn spec_index(self) -> int {
        match self {
            LightingMode::Off => 0,
            LightingMode::Static => 1,
            LightingMode::SingleOn => 2,
            LightingMode::SingleOff => 3,
            LightingMode::Glittering => 4,
            LightingMode::Falling => 5,
            LightingMode::Colourful => 6,
            LightingMode::Breath => 7,
            LightingMode::Spectrum => 8,
            LightingMode::Outward => 9,
            LightingMode::Scrolling => 10,
            LightingMode::Rolling => 11,
            LightingMode::Rotating => 12,
            LightingMode::Explode => 13,
            LightingMode::Launch => 14,
            LightingMode::Ripples => 15,
            LightingMode::Flowing => 16,
            LightingMode::Pulsating => 17,
            LightingMode::Tilt => 18,
            LightingMode::Shuttle => 19,
        }
    }

    /// Recovers a variant from its name's length and first two lowercased characters.
    pub open spec fn spec_decode_key(len: nat, c0: char, c1: char) -> Option<LightingMode> {
        if len == 3 && c0 == 'o' && c1 == 'f' {
            Some(LightingMode::Off)
        } else if len == 6 && c0 == 's' && c1 == 't' {
            Some(LightingMode::Static)
        } else if len == 9 && c0 == 's' && c1 == 'i' {
            Some(LightingMode::SingleOn)
        } else if len == 10 && c0 == 's' && c1 == 'i' {
            Some(LightingMode::SingleOff)
        } else if len == 10 && c0 == 'g' && c1 == 'l' {
            Some(LightingMode::Glittering)
        } else if len == 7 && c0 == 'f' && c1 == 'a' {
            Some(LightingMode::Falling)
        } else if len == 9 && c0 == 'c' && c1 == 'o' {
            Some(LightingMode::Colourful)
        } else if len == 6 && c0 == 'b' && c1 == 'r' {
            Some(LightingMode::Breath)
        } else if len == 8 && c0 == 's' && c1 == 'p' {
            Some(LightingMode::Spectrum)
        } else if len == 7 && c0 == 'o' && c1 == 'u' {
            Some(LightingMode::Outward)
        } else if len == 9 && c0 == 's' && c1 == 'c' {
            Some(LightingMode::Scrolling)
        } else if len == 7 && c0 == 'r' && c1 == 'o' {
            Some(LightingMode::Rolling)
        } else if len == 8 && c0 == 'r' && c1 == 'o' {
            Some(LightingMode::Rotating)
        } else if len == 7 && c0 == 'e' && c1 == 'x' {
            Some(LightingMode::Explode)
        } else if len == 6 && c0 == 'l' && c1 == 'a' {
            Some(LightingMode::Launch)
        } else if len == 7 && c0 == 'r' && c1 == 'i' {
            Some(LightingMode::Ripples)
        } else if len == 7 && c0 == 'f' && c1 == 'l' {
            Some(LightingMode::Flowing)
        } else if len == 9 && c0 == 'p' && c1 == 'u' {
            Some(LightingMode::Pulsating)
        } else if len == 4 && c0 == 't' && c1 == 'i' {
            Some(LightingMode::Tilt)
        } else if len == 7 && c0 == 's' && c1 == 'h' {
            Some(LightingMode::Shuttle)
        } else {
            None
        }
    }

    /// A lowercase-hyphenated name, for CLI display/parsing.
    pub fn name(self) -> (r: &'static str)
        ensures
            r@ == self.spec_name(),
    {
        match self {
            LightingMode::Off => {
                proof {
                    reveal_strlit("off");
                }
                "off"
            },
            LightingMode::Static => {
                proof {
                    reveal_strlit("static");
                }
                "static"
            },
            LightingMode::SingleOn => {
                proof {
                    reveal_strlit("single-on");
                }
                "single-on"
            },
            LightingMode::SingleOff => {
                proof {
                    reveal_strlit("single-off");
                }
                "single-off"
            },
            LightingMode::Glittering => {
                proof {
                    reveal_strlit("glittering");
                }
                "glittering"
            },
            LightingMode::Falling => {
                proof {
                    reveal_strlit("falling");
                }
                "falling"
            },
            LightingMode::Colourful => {
                proof {
                    reveal_strlit("colourful");
                }
                "colourful"
            },
            LightingMode::Breath => {
                proof {
                    reveal_strlit("breath");
                }
                "breath"
            },
            LightingMode::Spectrum => {
                proof {
                    reveal_strlit("spectrum");
                }
                "spectrum"
            },
            LightingMode::Outward => {
                proof {
                    reveal_strlit("outward");
                }
                "outward"
            },
            LightingMode::Scrolling => {
                proof {
                    reveal_strlit("scrolling");
                }
                "scrolling"
            },
            LightingMode::Rolling => {
                proof {
                    reveal_strlit("rolling");
                }
                "rolling"
            },
            LightingMode::Rotating => {
                proof {
                    reveal_strlit("rotating");
                }
                "rotating"
            },
            LightingMode::Explode => {
                proof {
                    reveal_strlit("explode");
                }
                "explode"
            },
            LightingMode::Launch => {
                proof {
                    reveal_strlit("launch");
                }
                "launch"
            },
            LightingMode::Ripples => {
                proof {
                    reveal_strlit("ripples");
                }
                "ripples"
            },
            LightingMode::Flowing => {
                proof {
                    reveal_strlit("flowing");
                }
                "flowing"
            },
            LightingMode::Pulsating => {
                proof {
                    reveal_strlit("pulsating");
                }
                "pulsating"
            },
            LightingMode::Tilt => {
                proof {
                    reveal_strlit("tilt");
                }
                "tilt"
            },
            LightingMode::Shuttle => {
                proof {
                    reveal_strlit("shuttle");
                }
                "shuttle"
            },
        }
    }

    /// Parses [`Self::name`]'s output back into a variant, ignoring ASCII case.
    pub fn from_name(name: &str) -> (r: Option<LightingMode>)
        ensures
            r == Self::spec_from_name(name@),
    {
        let all = Self::ALL;
        assert(all@ == Self::spec_all());
        let mut i: usize = 0;
        while i < all.len()
            invariant
                i <= all.len(),
                all@ == Self::spec_all(),
                forall|j: int| 0 <= j < i ==> !eq_ignore_ascii_case_spec(#[trigger] all@[j].spec_name(), name@),
            decreases all.len() - i,
        {
            let v = all[i];
            if eq_ignore_ascii_case(v.name(), name) {
                proof {
                    let w = choose|w: LightingMode| eq_ignore_ascii_case_spec(#[trigger] w.spec_name(), name@);
                    crate::text::lemma_eq_ignore_ascii_case_symmetric(w.spec_name(), name@);
                    crate::text::lemma_eq_ignore_ascii_case_transitive(v.spec_name(), name@, w.spec_name());
                    Self::lemma_names_distinct(v, w);
                }
                return Some(v);
            }
            i = i + 1;
        }
        assert forall|v: LightingMode| !eq_ignore_ascii_case_spec(#[trigger] v.spec_name(), name@) by {
            Self::lemma_all_covers(v);
            assert(all@[v.spec_index()] == v);
        }
        None
    }

    /// The wire opcode of each mode: its position in [`Self::ALL`].
    pub open spec fn spec_opcode(self) -> u8 {
        self.spec_index() as u8
    }

    /// The wire opcode of this mode, `0x00` (`Off`) to `0x13` (`Shuttle`).
    pub fn opcode(self) -> (r: u8)
        ensures
            r == self.spec_opcode(),
    {
        match self {
            LightingMode::Off => 0,
            LightingMode::Static => 1,
            LightingMode::SingleOn => 2,
            LightingMode::SingleOff => 3,
            LightingMode::Glittering => 4,
            LightingMode::Falling => 5,
            LightingMode::Colourful => 6,
            LightingMode::Breath => 7,
            LightingMode::Spectrum => 8,
            LightingMode::Outward => 9,
            LightingMode::Scrolling => 10,
            LightingMode::Rolling => 11,
            LightingMode::Rotating => 12,
            LightingMode::Explode => 13,
            LightingMode::Launch => 14,
            LightingMode::Ripples => 15,
            LightingMode::Flowing => 16,
            LightingMode::Pulsating => 17,
            LightingMode::Tilt => 18,
            LightingMode::Shuttle => 19,
        }
    }

    /// Which directions each mode honours.
    pub open spec fn spec_supported_directions(self) -> Seq<Direction> {
        match self {
            LightingMode::Scrolling => seq![Direction::Up, Direction::Down],
            LightingMode::Rolling | LightingMode::Flowing | LightingMode::Tilt => seq![Direction::Left, Direction::Right],
            _ => seq![],
        }
    }

    /// Which [`Direction`]s this mode honours, if any.
    pub fn supported_directions(self) -> (r: &'static [Direction])
        ensures
            r@ == self.spec_supported_directions(),
    {
        match self {
            LightingMode::Scrolling => &VERTICAL_DIRECTIONS,
            LightingMode::Rolling | LightingMode::Flowing | LightingMode::Tilt => &HORIZONTAL_DIRECTIONS,
            _ => &NO_DIRECTIONS,
        }
    }


    /// Each variant sits in [`Self::ALL`] at its index.
    pub proof fn lemma_all_covers(v: LightingMode)
        ensures
            0 <= v.spec_index() < Self::spec_all().len(),
            Self::spec_all()[v.spec_index()] == v,
    {
    }

    /// A name determines its variant through its length and first two characters.
    pub proof fn lemma_decode_key(v: LightingMode)
        ensures
            v.spec_name().len() >= 2,
            Self::spec_decode_key(v.spec_name().len(), ascii_lower(v.spec_name()[0]), ascii_lower(v.spec_name()[1])) == Some(v),
    {
    }

    /// No two variants have names that are equal up to ASCII case.
    pub proof fn lemma_names_distinct(a: LightingMode, b: LightingMode)
        requires
            eq_ignore_ascii_case_spec(a.spec_name(), b.spec_name()),
        ensures
            a == b,
    {
        Self::lemma_decode_key(a);
        Self::lemma_decode_key(b);
        assert(ascii_lower(a.spec_name()[0]) == ascii_lower(b.spec_name()[0]));
        assert(ascii_lower(a.spec_name()[1]) == ascii_lower(b.spec_name()[1]));
    }

    /// Parsing a variant's own name gives that variant back.
    pub proof fn name_round_trips(v: LightingMode)
        ensures
            Self::spec_from_name(v.spec_name()) == Some(v),
    {
        crate::text::lemma_eq_ignore_ascii_case_reflexive(v.spec_name());
        let w = choose|w: LightingMode| eq_ignore_ascii_case_spec(#[trigger] w.spec_name(), v.spec_name());
        Self::lemma_names_distinct(w, v);
    }

    /// Parsing ignores ASCII case: two inputs equal up to case parse alike.
    pub proof fn from_name_ignores_case(s: Seq<char>, t: Seq<char>)
        requires
            eq_ignore_ascii_case_spec(s, t),
        ensures
            Self::spec_from_name(s) == Self::spec_from_name(t),
    {
        crate::text::lemma_eq_ignore_ascii_case_symmetric(s, t);
        assert forall|v: LightingMode| eq_ignore_ascii_case_spec(v.spec_name(), s) <==> eq_ignore_ascii_case_spec(#[trigger] v.spec_name(), t) by {
            if eq_ignore_ascii_case_spec(v.spec_name(), s) {
                crate::text::lemma_eq_ignore_ascii_case_transitive(v.spec_name(), s, t);
            }
            if eq_ignore_ascii_case_spec(v.spec_name(), t) {
                crate::text::lemma_eq_ignore_ascii_case_transitive(v.spec_name(), t, s);
            }
        }
        if exists|v: LightingMode| eq_ignore_ascii_case_spec(#[trigger] v.spec_name(), s) {
            let a = choose|v: LightingMode| eq_ignore_ascii_case_spec(#[trigger] v.spec_name(), s);
            let b = choose|v: LightingMode| eq_ignore_ascii_case_spec(#[trigger] v.spec_name(), t);
            assert(eq_ignore_ascii_case_spec(a.spec_name(), t));
            assert(eq_ignore_ascii_case_spec(b.spec_name(), t));
            crate::text::lemma_eq_ignore_ascii_case_symmetric(b.spec_name(), t);
            crate::text::lemma_eq_ignore_ascii_case_transitive(a.spec_name(), t, b.spec_name());
            Self::lemma_names_distinct(a, b);
        }
    }
}
/// The direction an animated [`LightingMode`] runs in.
#[derive(Debug, Clone, Copy, PartialEq, Eq, Structural)]
pub enum Direction {
    /// Leftward.
    Left,
    /// Downward.
    Down,
    /// Upward.
    Up,
    /// Rightward.
    Right,
}

impl Direction {
    /// Every direction.
    pub const ALL: [Direction; 4] = [Direction::Left, Direction::Down, Direction::Up, Direction::Right];

    /// The sequence of every variant, in the order of [`Self::ALL`].
    pub open spec fn spec_all() -> Seq<Direction> {
        seq![Direction::Left, Direction::Down, Direction::Up, Direction::Right]
    }

    /// The display name of each variant.
    pub open spec fn spec_name(self) -> Seq<char> {
        match self {
            Direction::Left => seq!['l', 'e', 'f', 't'],
            Direction::Down => seq!['d', 'o', 'w', 'n'],
            Direction::Up => seq!['u', 'p'],
            Direction::Right => seq!['r', 'i', 'g', 'h', 't'],
        }
    }

    /// The variant whose name equals `s` up to ASCII case, if there is one.
    pub open spec fn spec_from_name(s: Seq<char>) -> Option<Direction> {
        if exists|v: Direction| eq_ignore_ascii_case_spec(#[trigger] v.spec_name(), s) {
            Some(choose|v: Direction| eq_ignore_ascii_case_spec(#[trigger] v.spec_name(), s))
        } else {
            None
        }
    }

    /// Index of each variant in [`Self::ALL`].
    pub open spec fn spec_index(self) -> int {
        match self {
            Direction::Left => 0,
            Direction::Down => 1,
            Direction::Up => 2,
            Direction::Right => 3,
        }
    }

    /// Recovers a variant from its name's length and first two lowercased characters.
    pub open spec fn spec_decode_key(len: nat, c0: char, c1: char) -> Option<Direction> {
        if len == 4 && c0 == 'l' && c1 == 'e' {
            Some(Direction::Left)
        } else if len == 4 && c0 == 'd' && c1 == 'o' {
            Some(Direction::Down)
        } else if len == 2 && c0 == 'u' && c1 == 'p' {
            Some(Direction::Up)
        } else if len == 5 && c0 == 'r' && c1 == 'i' {
            Some(Direction::Right)
        } else {
            None
        }
    }

    /// A lowercase name, for CLI display/parsing.
    pub fn name(self) -> (r: &'static str)
        ensures
            r@ == self.spec_name(),
    {
        match self {
            Direction::Left => {
                proof {
                    reveal_strlit("left");
                }
                "left"
            },
            Direction::Down => {
                proof {
                    reveal_strlit("down");
                }
                "down"
            },
            Direction::Up => {
                proof {
                    reveal_strlit("up");
                }
                "up"
            },
            Direction::Right => {
                proof {
                    reveal_strlit("right");
                }
                "right"
            },
        }
    }

    /// Parses [`Self::name`]'s output back into a variant, ignoring ASCII case.
    pub fn from_name(name: &str) -> (r: Option<Direction>)
        ensures
            r == Self::spec_from_name(name@),
    {
        let all = Self::ALL;
        assert(all@ == Self::spec_all());
        let mut i: usize = 0;
        while i < all.len()
            invariant
                i <= all.len(),
                all@ == Self::spec_all(),
                forall|j: int| 0 <= j < i ==> !eq_ignore_ascii_case_spec(#[trigger] all@[j].spec_name(), name@),
            decreases all.len() - i,
        {
            let v = all[i];
            if eq_ignore_ascii_case(v.name(), name) {
                proof {
                    let w = choose|w: Direction| eq_ignore_ascii_case_spec(#[trigger] w.spec_name(), name@);
                    crate::text::lemma_eq_ignore_ascii_case_symmetric(w.spec_name(), name@);
                    crate::text::lemma_eq_ignore_ascii_case_transitive(v.spec_name(), name@, w.spec_name());
                    Self::lemma_names_distinct(v, w);
                }
                return Some(v);
            }
            i = i + 1;
        }
        assert forall|v: Direction| !eq_ignore_ascii_case_spec(#[trigger] v.spec_name(), name@) by {
            Self::lemma_all_covers(v);
            assert(all@[v.spec_index()] == v);
        }
        None
    }

    /// The one-byte value each direction has on the wire.
    pub open spec fn spec_value(self) -> u8 {
        self.spec_index() as u8
    }

    /// The one-byte value of this direction (its position in [`Self::ALL`]).
    pub fn value(self) -> (r: u8)
        ensures
            r == self.spec_value(),
    {
        match self {
            Direction::Left => 0,
            Direction::Down => 1,
            Direction::Up => 2,
            Direction::Right => 3,
        }
    }


    /// Each variant sits in [`Self::ALL`] at its index.
    pub proof fn lemma_all_covers(v: Direction)
        ensures
            0 <= v.spec_index() < Self::spec_all().len(),
            Self::spec_all()[v.spec_index()] == v,
    {
    }

    /// A name determines its variant through its length and first two characters.
    pub proof fn lemma_decode_key(v: Direction)
        ensures
            v.spec_name().len() >= 2,
            Self::spec_decode_key(v.spec_name().len(), ascii_lower(v.spec_name()[0]), ascii_lower(v.spec_name()[1])) == Some(v),
    {
    }

    /// No two variants have names that are equal up to ASCII case.
    pub proof fn lemma_names_distinct(a: Direction, b: Direction)
        requires
            eq_ignore_ascii_case_spec(a.spec_name(), b.spec_name()),
        ensures
            a == b,
    {
        Self::lemma_decode_key(a);
        Self::lemma_decode_key(b);
        assert(ascii_lower(a.spec_name()[0]) == ascii_lower(b.spec_name()[0]));
        assert(ascii_lower(a.spec_name()[1]) == ascii_lower(b.spec_name()[1]));
    }

    /// Parsing a variant's own name gives that variant back.
    pub proof fn name_round_trips(v: Direction)
        ensures
            Self::spec_from_name(v.spec_name()) == Some(v),
    {
        crate::text::lemma_eq_ignore_ascii_case_reflexive(v.spec_name());
        let w = choose|w: Direction| eq_ignore_ascii_case_spec(#[trigger] w.spec_name(), v.spec_name());
        Self::lemma_names_distinct(w, v);
    }

    /// Parsing ignores ASCII case: two inputs equal up to case parse alike.
    pub proof fn from_name_ignores_case(s: Seq<char>, t: Seq<char>)
        requires
            eq_ignore_ascii_case_spec(s, t),
        ensures
            Self::spec_from_name(s) == Self::spec_from_name(t),
    {
        crate::text::lemma_eq_ignore_ascii_case_symmetric(s, t);
        assert forall|v: Direction| eq_ignore_ascii_case_spec(v.spec_name(), s) <==> eq_ignore_ascii_case_spec(#[trigger] v.spec_name(), t) by {
            if eq_ignore_ascii_case_spec(v.spec_name(), s) {
                crate::text::lemma_eq_ignore_ascii_case_transitive(v.spec_name(), s, t);
            }
            if eq_ignore_ascii_case_spec(v.spec_name(), t) {
                crate::text::lemma_eq_ignore_ascii_case_transitive(v.spec_name(), t, s);
            }
        }
        if exists|v: Direction| eq_ignore_ascii_case_spec(#[trigger] v.spec_name(), s) {
            let a = choose|v: Direction| eq_ignore_ascii_case_spec(#[trigger] v.spec_name(), s);
            let b = choose|v: Direction| eq_ignore_ascii_case_spec(#[trigger] v.spec_name(), t);
            assert(eq_ignore_ascii_case_spec(a.spec_name(), t));
            assert(eq_ignore_ascii_case_spec(b.spec_name(), t));
            crate::text::lemma_eq_ignore_ascii_case_symmetric(b.spec_name(), t);
            crate::text::lemma_eq_ignore_ascii_case_transitive(a.spec_name(), t, b.spec_name());
            Self::lemma_names_distinct(a, b);
        }
    }
}
} // verus!
