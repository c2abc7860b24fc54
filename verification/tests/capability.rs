use opm::capability::{Direction, LightingMode, SleepTime};

#[test]
fn lighting_mode_name_round_trips() {
    for mode in LightingMode::ALL.iter() {
        assert_eq!(LightingMode::from_name(mode.name()), Some(*mode));
    }
}

#[test]
fn lighting_mode_from_name_is_case_insensitive() {
    assert_eq!(
        LightingMode::from_name("STATIC"),
        Some(LightingMode::Static)
    );
    assert_eq!(
        LightingMode::from_name("Single-On"),
        Some(LightingMode::SingleOn)
    );
}

#[test]
fn lighting_mode_from_name_rejects_unknown() {
    assert_eq!(LightingMode::from_name("not-a-real-mode"), None);
}

#[test]
fn direction_name_round_trips() {
    for direction in Direction::ALL.iter() {
        assert_eq!(Direction::from_name(direction.name()), Some(*direction));
    }
}

#[test]
fn direction_from_name_rejects_unknown() {
    assert_eq!(Direction::from_name("sideways"), None);
}

#[test]
fn sleep_time_name_round_trips() {
    for time in SleepTime::ALL.iter() {
        assert_eq!(SleepTime::from_name(time.name()), Some(*time));
    }
}

#[test]
fn sleep_time_from_name_rejects_unknown() {
    assert_eq!(SleepTime::from_name("2 hours"), None);
}

#[test]
fn names_are_exact_strings() {
    assert_eq!(LightingMode::SingleOff.name(), "single-off");
    assert_eq!(LightingMode::Colourful.name(), "colourful");
    assert_eq!(Direction::Right.name(), "right");
    assert_eq!(SleepTime::ThirtyMinutes.name(), "30m");
    assert_eq!(SleepTime::from_name("5M"), Some(SleepTime::FiveMinutes));
    assert_eq!(LightingMode::from_name(""), None);
    assert_eq!(LightingMode::from_name("static "), None);
}

#[test]
fn opcodes_follow_wire_order() {
    assert_eq!(LightingMode::Off.opcode(), 0x00);
    assert_eq!(LightingMode::Breath.opcode(), 0x07);
    assert_eq!(LightingMode::Scrolling.opcode(), 0x0a);
    assert_eq!(LightingMode::Shuttle.opcode(), 0x13);
    assert_eq!(Direction::Right.value(), 3);
    assert_eq!(SleepTime::FiveMinutes.value(), 2);
    for (i, mode) in LightingMode::ALL.iter().enumerate() {
        assert_eq!(mode.opcode() as usize, i);
    }
}

#[test]
fn supported_directions_per_mode() {
    assert_eq!(LightingMode::Scrolling.supported_directions(), &[Direction::Up, Direction::Down]);
    assert_eq!(LightingMode::Rolling.supported_directions(), &[Direction::Left, Direction::Right]);
    assert_eq!(LightingMode::Flowing.supported_directions(), &[Direction::Left, Direction::Right]);
    assert_eq!(LightingMode::Tilt.supported_directions(), &[Direction::Left, Direction::Right]);
    assert!(LightingMode::Static.supported_directions().is_empty());
}
