use opm::frames::{
    feature_request_value, framed_report, interrupt_endpoint, missing_endpoint, payload_written, unframe_feature,
    unframe_input, usb_path, usb_timeout_millis, Endpoint, InterfaceSetting,
};
use opm::transport::{hid_timeout_millis, Error, ReadTimeout};

#[test]
fn reports_go_out_behind_their_id() {
    assert_eq!(framed_report(0x04, &[1, 2, 3]), vec![0x04, 1, 2, 3]);
    assert_eq!(framed_report(0, &[]), vec![0]);
    assert_eq!(payload_written(65), 64);
    assert_eq!(payload_written(0), 0);
}

#[test]
fn input_reports_split_into_id_and_payload() {
    let raw = [7u8, 10, 20, 30];
    let mut buf = [9u8; 3];
    assert_eq!(unframe_input(&raw, 3, &mut buf), Ok((7, 2)));
    assert_eq!(buf, [10, 20, 9]);
    let mut untouched = [9u8; 3];
    assert_eq!(unframe_input(&raw, 0, &mut untouched), Err(Error::WouldBlock));
    assert_eq!(untouched, [9, 9, 9]);
}

#[test]
fn feature_reports_split_and_saturate() {
    let raw = [4u8, 1, 2, 3];
    let mut buf = [0u8; 3];
    assert_eq!(unframe_feature(&raw, 4, &mut buf), 3);
    assert_eq!(buf, [1, 2, 3]);
    let mut empty = [5u8; 3];
    assert_eq!(unframe_feature(&raw, 0, &mut empty), 0);
    assert_eq!(empty, [5, 5, 5]);
}

#[test]
fn feature_requests_carry_the_report_type_and_id() {
    assert_eq!(feature_request_value(0), 0x0300);
    assert_eq!(feature_request_value(0x04), 0x0304);
    assert_eq!(feature_request_value(0xff), 0x03ff);
}

#[test]
fn each_backend_gets_its_timeout() {
    assert_eq!(usb_timeout_millis(ReadTimeout::NonBlocking), 1);
    assert_eq!(usb_timeout_millis(ReadTimeout::Millis(250)), 250);
    assert_eq!(usb_timeout_millis(ReadTimeout::Blocking), 5_000);
    assert_eq!(hid_timeout_millis(ReadTimeout::NonBlocking), 0);
    assert_eq!(hid_timeout_millis(ReadTimeout::Millis(u32::MAX)), i32::MAX);
    assert_eq!(hid_timeout_millis(ReadTimeout::Blocking), 5_000);
}

#[test]
fn usb_interfaces_are_named_by_ids_and_number() {
    assert_eq!(usb_path(0x0c45, 0x800a, 3), "usb:0c45:800a/if3");
    assert_eq!(usb_path(0x1, 0xffff, 255), "usb:0001:ffff/if255");
}

fn setting(interface_number: u8, endpoints: Vec<Endpoint>) -> InterfaceSetting {
    InterfaceSetting { interface_number, endpoints }
}

#[test]
fn interrupt_endpoint_searches_the_first_setting_of_the_interface() {
    let settings = vec![
        setting(0, vec![Endpoint { address: 0x81, inbound: true, interrupt: true }]),
        setting(
            3,
            vec![
                Endpoint { address: 0x83, inbound: true, interrupt: false },
                Endpoint { address: 0x84, inbound: true, interrupt: true },
                Endpoint { address: 0x04, inbound: false, interrupt: true },
            ],
        ),
        setting(3, vec![Endpoint { address: 0x05, inbound: false, interrupt: true }]),
    ];
    assert_eq!(interrupt_endpoint(&settings, 3, true), Some(0x84));
    assert_eq!(interrupt_endpoint(&settings, 3, false), Some(0x04));
    assert_eq!(interrupt_endpoint(&settings, 0, false), None);
    assert_eq!(interrupt_endpoint(&settings, 7, true), None);
}

#[test]
fn missing_endpoints_are_io_errors() {
    assert_eq!(
        missing_endpoint(3, true),
        Error::Io { reason: "interface 3 has no In interrupt endpoint".to_owned() }
    );
    assert_eq!(
        missing_endpoint(0, false),
        Error::Io { reason: "interface 0 has no Out interrupt endpoint".to_owned() }
    );
}

#[test]
fn unframing_gives_back_what_was_framed() {
    let framed = framed_report(0x09, &[0xde, 0xad, 0xbe]);
    let mut buf = [0u8; 3];
    assert_eq!(unframe_input(&framed, framed.len(), &mut buf), Ok((0x09, 3)));
    assert_eq!(buf, [0xde, 0xad, 0xbe]);
}
