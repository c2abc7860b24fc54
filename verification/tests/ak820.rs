use opm::ak820::driver::{not_yet_implemented, vendor_interface, AjazzAk820Driver, UsbTarget};
use opm::ak820::plan::{set_color_plan, Step};
use opm::ak820::protocol::{
    control_packet, mode_data_packet, CMD_FINISH, CMD_MODE, CMD_START, CONTROL_REPORT_ID, MAX_BRIGHTNESS,
};
use opm::capability::{Direction, LightingMode, RgbColor};
use opm::error::Error;
use opm::identity::{Identity, Interface, UsagePair};

const VENDOR_ID: u16 = 0x0c45;
const PRODUCT_ID: u16 = 0x800a;
const VENDOR_USAGE_PAIR: UsagePair = UsagePair {
    usage_page: 0xff13,
    usage: 0x01,
};

fn identity_with_interfaces(interfaces: Vec<Interface>) -> Identity {
    Identity {
        vendor_id: VENDOR_ID,
        product_id: PRODUCT_ID,
        manufacturer: Some("SONiX".to_owned()),
        product: Some("AK820".to_owned()),
        serial: None,
        interfaces,
    }
}

fn interface(interface_number: i32, usage_pairs: Vec<UsagePair>) -> Interface {
    Interface {
        interface_number,
        path: format!("/dev/hidraw{interface_number}"),
        usage_pairs,
        report_ids: Vec::new(),
    }
}

fn real_ak820_identity() -> Identity {
    identity_with_interfaces(vec![
        interface(
            0,
            vec![UsagePair {
                usage_page: 0x01,
                usage: 0x06,
            }],
        ),
        interface(
            1,
            vec![
                UsagePair {
                    usage_page: 0x0c,
                    usage: 0x01,
                },
                UsagePair {
                    usage_page: 0xffff,
                    usage: 0x01,
                },
            ],
        ),
        interface(
            2,
            vec![UsagePair {
                usage_page: 0xff68,
                usage: 0x61,
            }],
        ),
        interface(3, vec![VENDOR_USAGE_PAIR]),
    ])
}

#[test]
fn probe_matches_the_real_ak820_vid_pid() {
    let driver = AjazzAk820Driver;
    assert!(driver.probe(&real_ak820_identity()));
}

#[test]
fn probe_rejects_a_different_product_id() {
    let driver = AjazzAk820Driver;
    let mut other = real_ak820_identity();
    other.product_id = 0x0000;
    assert!(!driver.probe(&other));
}

#[test]
fn probe_rejects_a_different_vendor_id() {
    let driver = AjazzAk820Driver;
    let mut other = real_ak820_identity();
    other.vendor_id = 0x0000;
    assert!(!driver.probe(&other));
}

#[test]
fn vendor_interface_finds_the_dedicated_vendor_interface() {
    let identity = real_ak820_identity();
    assert_eq!(
        vendor_interface(&identity).map(|iface| iface.interface_number),
        Some(3)
    );
}

#[test]
fn open_fails_cleanly_when_the_vendor_interface_is_missing() {
    let driver = AjazzAk820Driver;
    let identity = identity_with_interfaces(vec![interface(
        0,
        vec![UsagePair {
            usage_page: 0x01,
            usage: 0x06,
        }],
    )]);

    let err = match driver.open_target(&identity) {
        Err(err) => err,
        Ok(_) => panic!("expected an error"),
    };
    assert!(matches!(err, Error::Driver(_)));
}

#[test]
fn open_target_names_the_vendor_interface() {
    let driver = AjazzAk820Driver;
    assert_eq!(driver.name(), "Ajazz AK820");
    assert_eq!(
        driver.open_target(&real_ak820_identity()),
        Ok(UsbTarget { vendor_id: VENDOR_ID, product_id: PRODUCT_ID, interface_number: 3 })
    );
    let bad = identity_with_interfaces(vec![interface(-1, vec![VENDOR_USAGE_PAIR])]);
    assert_eq!(
        driver.open_target(&bad),
        Err(Error::Driver("AK820: vendor interface has no usable USB interface number (-1)".to_owned()))
    );
    assert_eq!(
        driver.open_target(&identity_with_interfaces(vec![])),
        Err(Error::Driver("AK820: no interface declares the expected vendor usage pair (0xff13/0x01)".to_owned()))
    );
}

#[test]
fn set_color_sends_the_start_mode_data_finish_sequence() {
    let color = RgbColor {
        r: 0xfe,
        g: 0xb9,
        b: 0x73,
    };
    let plan = set_color_plan(color);

    let expected_packets = [
        control_packet(CMD_START, 0x01),
        control_packet(CMD_MODE, 0x01),
        mode_data_packet(
            LightingMode::Breath,
            color.r,
            color.g,
            color.b,
            false,
            MAX_BRIGHTNESS,
            0,
            Direction::Left,
        ),
        control_packet(CMD_FINISH, 0x01),
    ];

    let calls: Vec<(u8, Vec<u8>)> = plan
        .iter()
        .filter_map(|step| match step {
            Step::SetFeature { report_id, data } => Some((*report_id, data.clone())),
            _ => None,
        })
        .collect();
    assert_eq!(calls.len(), expected_packets.len());
    for (call, packet) in calls.iter().zip(expected_packets.iter()) {
        assert_eq!(call.0, packet[0]);
        assert_eq!(call.1.as_slice(), &packet[1..]);
    }

    let get_feature_report_ids: Vec<u8> = plan
        .iter()
        .filter_map(|step| match step {
            Step::DiscardFeature { report_id } => Some(*report_id),
            _ => None,
        })
        .collect();
    assert_eq!(
        get_feature_report_ids.as_slice(),
        &[CONTROL_REPORT_ID, CONTROL_REPORT_ID, CONTROL_REPORT_ID]
    );
}

#[test]
fn set_color_plan_paces_every_packet() {
    let plan = set_color_plan(RgbColor { r: 1, g: 2, b: 3 });
    assert_eq!(plan.len(), 4 + 3 + 4 + 1);
    assert!(matches!(plan[1], Step::DiscardFeature { report_id: 4 }));
    assert!(matches!(plan[2], Step::Pause { millis: 10 }));
    assert!(matches!(plan[7], Step::Pause { millis: 10 }));
    assert!(matches!(plan[11], Step::Pause { millis: 100 }));
}

#[test]
fn packets_have_the_documented_layout() {
    let ctrl = control_packet(CMD_START, 0x01);
    assert_eq!(&ctrl[..9], &[0x04, 0x18, 0, 0, 0, 0, 0, 0, 0x01]);
    assert!(ctrl[9..].iter().all(|&b| b == 0));
    let data = mode_data_packet(LightingMode::Spectrum, 1, 2, 3, true, 9, 7, Direction::Up);
    assert_eq!(&data[..16], &[0x08, 1, 2, 3, 0, 0, 0, 0, 1, 5, 5, 2, 0, 0, 0x55, 0xaa]);
    assert!(data[16..].iter().all(|&b| b == 0));
}

#[test]
fn not_yet_implemented_names_the_capability() {
    match not_yet_implemented("Profiles::active_profile") {
        Error::Driver(m) => assert!(m.starts_with("AK820: Profiles::active_profile not yet implemented")),
        other => panic!("unexpected {other:?}"),
    }
}
