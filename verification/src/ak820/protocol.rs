//! AK820 wire-level packet layout: the control-packet command bytes and
//! the two 64-byte packet builders.

use vstd::prelude::*;
use crate::capability::{Direction, LightingMode};

verus! {

/// The Report ID shared by every `START`/`START_MODE`/`FINISH`/`SLEEP`
/// control packet — distinct from a lighting-data packet's Report ID,
/// which is that packet's own mode value.
pub const CONTROL_REPORT_ID: u8 = 0x04;
/// Control-packet command byte: begin a configuration transaction.
pub const CMD_START: u8 = 0x18;
/// Control-packet command byte: the packet that follows is a lighting
/// mode+color data packet.
pub const CMD_MODE: u8 = 0x13;
/// Control-packet command byte: end a configuration transaction.
pub const CMD_FINISH: u8 = 0xf0;
/// Control-packet command byte: the packet that follows is a sleep-timer
/// data packet.
pub const CMD_SLEEP: u8 = 0x17;

/// The highest brightness value the device accepts.
pub const MAX_BRIGHTNESS: u8 = 5;
/// The highest animation-speed value the device accepts.
pub const MAX_SPEED: u8 = 5;

/// The length of every packet.
pub const PACKET_LEN: usize = 64;

/// How long the keyboard stays idle before its lighting sleeps, with its
/// one-byte wire value.
#[derive(Debug, Clone, Copy, PartialEq, Eq, Structural)]
pub enum SleepTime {
    /// Never sleep.
    Never,
    /// Sleep after one minute idle.
    OneMinute,
    /// Sleep after five minutes idle.
    FiveMinutes,
    /// Sleep after thirty minutes idle.
    ThirtyMinutes,
}

impl SleepTime {
    /// The wire value of each setting.
    pub open spec fn spec_value(self) -> u8 {
        match self {
            SleepTime::Never => 0,
            SleepTime::OneMinute => 1,
            SleepTime::FiveMinutes => 2,
            SleepTime::ThirtyMinutes => 3,
        }
    }

    /// The wire value of this setting.
    pub fn value(self) -> (r: u8)
        ensures
            r == self.spec_value(),
    {
        match self {
            SleepTime::Never => 0,
            SleepTime::OneMinute => 1,
            SleepTime::FiveMinutes => 2,
            SleepTime::ThirtyMinutes => 3,
        }
    }
}

/// A control packet: byte 0 is [`CONTROL_REPORT_ID`], byte 1 the
/// command, byte 8 a flag, every other byte zero.
pub open spec fn spec_control_packet(command: u8, byte8: u8) -> Seq<u8> {
    Seq::new(64, |i: int| if i == 0 { CONTROL_REPORT_ID } else if i == 1 { command } else if i == 8 { byte8 } else { 0u8 })
}

/// `v`, capped at `max`.
pub open spec fn capped(v: u8, max: u8) -> u8 {
    if v < max { v } else { max }
}

/// A lighting data packet: mode (which doubles as the report ID), color,
/// rainbow flag, capped brightness and speed, direction, and the
/// `0x55 0xaa` trailer at bytes 14-15; every other byte zero.
pub open spec fn spec_mode_data_packet(
    mode: LightingMode,
    r: u8,
    g: u8,
    b: u8,
    rainbow: bool,
    brightness: u8,
    speed: u8,
    direction: Direction,
) -> Seq<u8> {
    Seq::new(64, |i: int|
        if i == 0 { mode.spec_opcode() }
        else if i == 1 { r }
        else if i == 2 { g }
        else if i == 3 { b }
        else if i == 8 { if rainbow { 1u8 } else { 0u8 } }
        else if i == 9 { capped(brightness, MAX_BRIGHTNESS) }
        else if i == 10 { capped(speed, MAX_SPEED) }
        else if i == 11 { direction.spec_value() }
        else if i == 14 { 0x55u8 }
        else if i == 15 { 0xaau8 }
        else { 0u8 })
}

/// Builds a `START`/`START_MODE`/`FINISH`/`SLEEP`-style control packet.
pub fn control_packet(command: u8, byte8: u8) -> (pkt: [u8; 64])
    ensures
        pkt@ == spec_control_packet(command, byte8),
{
    let mut pkt = [0u8; 64];
    pkt[0] = CONTROL_REPORT_ID;
    pkt[1] = command;
    pkt[8] = byte8;
    assert(pkt@ =~= spec_control_packet(command, byte8));
    pkt
}

/// Builds a lighting mode+color data packet. Byte 0 (the mode value)
/// doubles as this packet's own wire Report ID; brightness and speed are
/// capped at the device's maxima.
pub fn mode_data_packet(
    mode: LightingMode,
    r: u8,
    g: u8,
    b: u8,
    rainbow: bool,
    brightness: u8,
    speed: u8,
    direction: Direction,
) -> (pkt: [u8; 64])
    ensures
        pkt@ == spec_mode_data_packet(mode, r, g, b, rainbow, brightness, speed, direction),
{
    let mut pkt = [0u8; 64];
    pkt[0] = mode.opcode();
    pkt[1] = r;
    pkt[2] = g;
    pkt[3] = b;
    pkt[8] = if rainbow { 1 } else { 0 };
    pkt[9] = if brightness < MAX_BRIGHTNESS { brightness } else { MAX_BRIGHTNESS };
    pkt[10] = if speed < MAX_SPEED { speed } else { MAX_SPEED };
    pkt[11] = direction.value();
    pkt[14] = 0x55;
    pkt[15] = 0xaa;
    assert(pkt@ =~= spec_mode_data_packet(mode, r, g, b, rainbow, brightness, speed, direction));
    pkt
}

/// A lighting data packet carries its arguments at fixed places: the mode
/// value at byte 0, the color at bytes 1-3, the rainbow flag (1 or 0) at
/// byte 8, the brightness argument at byte 9 and the speed argument at
/// byte 10 (each lowered to the device's maximum where it is above it),
/// the direction at byte 11 and `0x55 0xaa` at bytes 14-15; every other
/// byte of the 64 is zero.
pub proof fn law_mode_data_packet_layout(
    mode: LightingMode,
    r: u8,
    g: u8,
    b: u8,
    rainbow: bool,
    brightness: u8,
    speed: u8,
    direction: Direction,
)
    ensures
        ({
            let pkt = spec_mode_data_packet(mode, r, g, b, rainbow, brightness, speed, direction);
            &&& pkt.len() == 64
            &&& pkt[0] == mode.spec_opcode()
            &&& pkt[1] == r && pkt[2] == g && pkt[3] == b
            &&& pkt[8] == (if rainbow { 1u8 } else { 0u8 })
            &&& brightness <= MAX_BRIGHTNESS ==> pkt[9] == brightness
            &&& brightness > MAX_BRIGHTNESS ==> pkt[9] == MAX_BRIGHTNESS
            &&& speed <= MAX_SPEED ==> pkt[10] == speed
            &&& speed > MAX_SPEED ==> pkt[10] == MAX_SPEED
            &&& pkt[11] == direction.spec_value()
            &&& pkt[14] == 0x55 && pkt[15] == 0xaa
            &&& forall|i: int| 0 <= i < 64 && !(i <= 3 || (8 <= i <= 11) || i == 14 || i == 15) ==> pkt[i] == 0
        }),
{
}

} // verus!
