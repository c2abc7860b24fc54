use opm::capability::{Direction, LightingEffect, LightingMode, RgbColor, SleepTime};
use opm::cli::actions::{build_effect, color_hex, Failure};
use opm::cli::date::{civil_from_days, today_utc_date};
use opm::cli::device::{candidate_line, parse_vid_pid, select_device, SelectError, VidPidError};
use opm::cli::discover::{classification_label, device_line, interface_line, table_lines};
use opm::cli::format::hex4;
use opm::cli::hex::IntErrorKind;
use opm::cli::host::{kernel_version, os_version};
use opm::cli::info::info_lines;
use opm::cli::list::list_line;
use opm::cli::preset::{preset_from_args, preset_names, preset_path};
use opm::cli::report::{build, Host};
use opm::cli::rgb::{parse_hex_color, ColorError};
use opm::discovery::classify::Classification;
use opm::discovery::path_map::PathMap;
use opm::discovery::Discovered;
use opm::identity::{Identity, Interface, UsagePair};
use opm::preset::Preset;

#[test]
fn known_epoch_days_map_to_known_dates() {
    assert_eq!(civil_from_days(0), (1970, 1, 1));
    assert_eq!(civil_from_days(11_017), (2000, 3, 1));
    assert_eq!(civil_from_days(20_643), (2026, 7, 9));
}

#[test]
fn civil_from_days_handles_leap_days_and_negative_days() {
    assert_eq!(civil_from_days(-1), (1969, 12, 31));
    assert_eq!(civil_from_days(11_016), (2000, 2, 29));
    assert_eq!(civil_from_days(-719_468), (0, 3, 1));
    assert_eq!(civil_from_days(-719_469), (0, 2, 29));
    assert_eq!(civil_from_days(47_540), (2100, 2, 28));
    assert_eq!(civil_from_days(47_541), (2100, 3, 1));
}

#[test]
fn today_utc_date_formats_the_civil_date() {
    assert_eq!(today_utc_date(0), "1970-01-01");
    assert_eq!(today_utc_date(20_643), "2026-07-09");
    assert_eq!(today_utc_date(3_000_000), "10183-09-21");
}

#[test]
fn parses_a_valid_color() {
    assert_eq!(
        parse_hex_color("ff0000"),
        Ok(RgbColor {
            r: 0xff,
            g: 0,
            b: 0
        })
    );
    assert_eq!(
        parse_hex_color("#7c5cff"),
        Ok(RgbColor {
            r: 0x7c,
            g: 0x5c,
            b: 0xff
        })
    );
}

#[test]
fn rejects_wrong_length() {
    assert!(parse_hex_color("fff").is_err());
    assert!(parse_hex_color("ff00000").is_err());
}

#[test]
fn rejects_non_hex_ascii() {
    assert!(parse_hex_color("zzzzzz").is_err());
}

#[test]
fn rejects_multibyte_utf8_without_panicking() {
    assert!(parse_hex_color("aé1é").is_err());
}

#[test]
fn color_parsing_edge_cases() {
    assert_eq!(parse_hex_color("##ABCDEF"), Ok(RgbColor { r: 0xab, g: 0xcd, b: 0xef }));
    assert_eq!(parse_hex_color("+f0000"), Err(ColorError::InvalidDigit));
    assert_eq!(parse_hex_color("-f0000"), Err(ColorError::InvalidDigit));
    assert_eq!(parse_hex_color("éééééé"), Err(ColorError::WrongLength));
    assert_eq!(parse_hex_color("fff"), Err(ColorError::WrongLength));
    assert_eq!(parse_hex_color("zzzzzz"), Err(ColorError::InvalidDigit));
    assert_eq!(ColorError::WrongLength.message(), "expected 6 hex digits, e.g. ff0000");
}

#[test]
fn vid_pid_parsing() {
    assert_eq!(parse_vid_pid("0c45:800a"), Ok((0x0c45, 0x800a)));
    assert_eq!(parse_vid_pid("0x0C45:0x800A"), Ok((0x0c45, 0x800a)));
    assert_eq!(parse_vid_pid("0x0x1:+2"), Ok((1, 2)));
    assert_eq!(parse_vid_pid("0c45"), Err(VidPidError::MissingSeparator));
    assert_eq!(
        parse_vid_pid("zz:1"),
        Err(VidPidError::BadVendorId { text: "zz".to_owned(), kind: IntErrorKind::InvalidDigit })
    );
    assert_eq!(
        parse_vid_pid("1:10000"),
        Err(VidPidError::BadProductId { text: "10000".to_owned(), kind: IntErrorKind::PosOverflow })
    );
    assert_eq!(
        parse_vid_pid(":1"),
        Err(VidPidError::BadVendorId { text: String::new(), kind: IntErrorKind::Empty })
    );
    assert_eq!(
        parse_vid_pid("1:2:3"),
        Err(VidPidError::BadProductId { text: "2:3".to_owned(), kind: IntErrorKind::InvalidDigit })
    );
}

fn device(vendor_id: u16, product_id: u16) -> Discovered {
    Discovered {
        identity: Identity {
            vendor_id,
            product_id,
            manufacturer: None,
            product: Some("AK820".to_owned()),
            serial: Some("S1".to_owned()),
            interfaces: vec![Interface {
                interface_number: 3,
                path: "/dev/hidraw3".to_owned(),
                usage_pairs: vec![UsagePair { usage_page: 0xff13, usage: 0x0001 }],
                report_ids: vec![4],
            }],
        },
        classification: Classification::VendorOnly,
    }
}

#[test]
fn select_device_picks_exactly_one() {
    let none: Vec<Discovered> = vec![];
    let one = vec![device(0x0c45, 0x800a)];
    let two = vec![device(0x0c45, 0x800a), device(0x1111, 0x0001)];
    assert!(matches!(select_device(&none, None), Err(SelectError::NoneSupported)));
    assert_eq!(select_device(&one, None).unwrap().identity.product_id, 0x800a);
    assert!(matches!(select_device(&two, None), Err(SelectError::Ambiguous)));
    assert_eq!(select_device(&two, Some("1111:0001")).unwrap().identity.vendor_id, 0x1111);
    assert!(matches!(select_device(&two, Some("2222:0001")), Err(SelectError::NoMatch)));
    assert!(matches!(
        select_device(&two, Some("nonsense")),
        Err(SelectError::InvalidSelector(VidPidError::MissingSeparator))
    ));
}

#[test]
fn classification_labels() {
    assert_eq!(classification_label(Classification::ConfigurableKeyboard), "Configurable Keyboard");
    assert_eq!(classification_label(Classification::VendorOnly), "Vendor-only");
    assert_eq!(classification_label(Classification::UnknownHid), "Unknown HID");
}

#[test]
fn hex4_matches_the_alternate_hex_format() {
    assert_eq!(hex4(0x0c45), format!("{:#06x}", 0x0c45u16));
    assert_eq!(hex4(0), "0x0000");
    assert_eq!(hex4(0xffff), "0xffff");
}

#[test]
fn report_redacts_serials_unless_asked() {
    let discovered = vec![device(0x0c45, 0x800a)];
    let host = Host {
        os: "linux".to_owned(),
        os_version: "unknown".to_owned(),
        kernel_version: "6.0".to_owned(),
        arch: "x86_64".to_owned(),
        hidapi_backend: "linux-static-hidraw".to_owned(),
    };
    let mut accessible = PathMap::new();
    accessible.insert("/dev/hidraw3".to_owned(), true);
    let redacted = build(&discovered, false, host.clone(), "0.1.0", &accessible);
    assert_eq!(redacted.schema_version, "1.0");
    assert_eq!(redacted.devices[0].serial_number, None);
    assert_eq!(redacted.devices[0].vendor_id, "0x0c45");
    assert_eq!(redacted.devices[0].product_id, "0x800a");
    assert_eq!(redacted.devices[0].classification, "vendor_only");
    assert_eq!(redacted.devices[0].driver_status, "unsupported");
    assert!(redacted.devices[0].interfaces[0].accessible);
    assert_eq!(redacted.devices[0].interfaces[0].usage_pairs[0].usage_page, "0xff13");
    assert_eq!(redacted.devices[0].interfaces[0].report_ids, vec![4]);
    let full = build(&discovered, true, host, "0.1.0", &PathMap::new());
    assert_eq!(full.devices[0].serial_number.as_deref(), Some("S1"));
    assert!(!full.devices[0].interfaces[0].accessible);
}

#[test]
fn build_effect_reads_mode_color_and_direction_in_order() {
    assert_eq!(
        build_effect("Breath", "#010203", 5, 2, "RIGHT"),
        Ok(LightingEffect {
            mode: LightingMode::Breath,
            color: RgbColor { r: 1, g: 2, b: 3 },
            brightness: 5,
            speed: 2,
            direction: Direction::Right,
        })
    );
    assert_eq!(build_effect("nope", "zz", 5, 3, "x"), Err(Failure::UnknownMode { text: "nope".to_owned() }));
    assert_eq!(
        build_effect("static", "zz", 5, 3, "x"),
        Err(Failure::InvalidColor { text: "zz".to_owned(), error: ColorError::WrongLength })
    );
    assert_eq!(build_effect("static", "ffffff", 5, 3, "x"), Err(Failure::UnknownDirection { text: "x".to_owned() }));
}

#[test]
fn preset_save_needs_something_to_save() {
    assert_eq!(preset_from_args(None, "ffffff", 5, 3, "left", None), Err(Failure::NothingToSave));
    assert_eq!(
        preset_from_args(None, "ffffff", 5, 3, "left", Some("2 hours")),
        Err(Failure::UnknownSleepPreset { text: "2 hours".to_owned() })
    );
    assert_eq!(
        preset_from_args(None, "ffffff", 5, 3, "left", Some("5m")),
        Ok(Preset { lighting: None, sleep_time: Some(SleepTime::FiveMinutes) })
    );
    let both = preset_from_args(Some("spectrum"), "010203", 5, 2, "right", Some("never")).unwrap();
    assert_eq!(both.lighting.unwrap().mode, LightingMode::Spectrum);
    assert_eq!(both.sleep_time, Some(SleepTime::Never));
    assert!(preset_from_args(Some("spectrum"), "nothex", 5, 2, "right", None).is_err());
}

#[test]
fn preset_paths_join_like_paths() {
    assert_eq!(preset_path("/home/u/.config/opm/presets", "evening"), "/home/u/.config/opm/presets/evening.json");
    assert_eq!(preset_path("/tmp/", "a"), "/tmp/a.json");
    assert_eq!(preset_path("", "a"), "a.json");
    assert_eq!(preset_path("/tmp", "/abs/name"), "/abs/name.json");
}

#[test]
fn table_says_so_when_nothing_is_found() {
    let none: Vec<Discovered> = vec![];
    assert_eq!(table_lines(&none, true, &PathMap::new()), vec!["No HID devices detected.".to_owned()]);
}

#[test]
fn table_lists_each_device_and_its_interfaces_when_verbose() {
    let mut found = device(0x0c45, 0x800a);
    found.identity.manufacturer = Some("SONiX".to_owned());
    found.identity.interfaces.push(Interface {
        interface_number: -1,
        path: "/dev/hidraw4".to_owned(),
        usage_pairs: vec![UsagePair { usage_page: 0x0001, usage: 0x0006 }, UsagePair { usage_page: 0x000c, usage: 0x0001 }],
        report_ids: vec![],
    });
    let mut accessible = PathMap::new();
    accessible.insert("/dev/hidraw3".to_owned(), true);
    let discovered = vec![found];
    assert_eq!(
        table_lines(&discovered, false, &accessible),
        vec!["SONiX AK820 \u{2014} 0x0c45:0x800a \u{2014} 2 interface(s) \u{2014} Vendor-only \u{2014} unsupported \u{2014} permission denied".to_owned()]
    );
    accessible.insert("/dev/hidraw4".to_owned(), true);
    assert_eq!(
        table_lines(&discovered, true, &accessible),
        vec![
            "SONiX AK820 \u{2014} 0x0c45:0x800a \u{2014} 2 interface(s) \u{2014} Vendor-only \u{2014} unsupported \u{2014} ok".to_owned(),
            "  interface 3: /dev/hidraw3 [0xff13/0x0001] (report IDs [4]) (ok)".to_owned(),
            "  interface -1: /dev/hidraw4 [0x0001/0x0006, 0x000c/0x0001] (no report IDs) (ok)".to_owned(),
        ]
    );
}

#[test]
fn device_and_interface_lines_use_placeholders_and_debug_lists() {
    let mut found = device(0x1234, 0xabcd);
    found.identity.product = None;
    found.identity.interfaces.clear();
    assert_eq!(
        device_line(&found, true),
        "(unknown manufacturer) (unknown product) \u{2014} 0x1234:0xabcd \u{2014} 0 interface(s) \u{2014} Vendor-only \u{2014} unsupported \u{2014} ok"
    );
    let interface = Interface {
        interface_number: 0,
        path: "p".to_owned(),
        usage_pairs: vec![],
        report_ids: vec![1, 2, 255],
    };
    assert_eq!(interface_line(&interface, false), "  interface 0: p [] (report IDs [1, 2, 255]) (permission denied)");
}

#[test]
fn preset_names_keep_json_files_sorted() {
    let files: Vec<String> = vec!["b.json", "a.json", "notes.txt", ".json", "x.y.json", "c.JSON", "json", "B.json"]
        .into_iter()
        .map(|s| s.to_owned())
        .collect();
    assert_eq!(preset_names(&files), vec!["B".to_owned(), "a".to_owned(), "b".to_owned(), "x.y".to_owned()]);
    assert_eq!(preset_names(&vec![]), Vec::<String>::new());
}

#[test]
fn candidates_show_ids_and_product() {
    let mut found = device(0x0c45, 0x800a);
    assert_eq!(candidate_line(&found), "  0x0c45:0x800a \u{2014} AK820");
    found.identity.product = None;
    assert_eq!(candidate_line(&found), "  0x0c45:0x800a \u{2014} (unknown)");
}

#[test]
fn info_lists_identity_and_capabilities() {
    let found = device(0x0c45, 0x800a);
    assert_eq!(
        info_lines(&found.identity, true, false, true),
        vec![
            "AK820".to_owned(),
            "  manufacturer: (unknown)".to_owned(),
            "  VID:PID: 0x0c45:0x800a".to_owned(),
            "  interfaces: 1".to_owned(),
            "  capabilities:".to_owned(),
            "    rgb: true".to_owned(),
            "    battery: false".to_owned(),
            "    profiles: true".to_owned(),
        ]
    );
}

#[test]
fn list_line_names_the_driver() {
    let found = device(0x0c45, 0x800a);
    assert_eq!(list_line(&found, "Ajazz AK820"), "AK820 \u{2014} 0x0c45:0x800a \u{2014} Ajazz AK820");
}

#[test]
fn colors_print_as_six_hex_digits() {
    assert_eq!(color_hex(RgbColor { r: 0xff, g: 0x00, b: 0x0a }), "ff000a");
    assert_eq!(color_hex(RgbColor { r: 0x7c, g: 0x5c, b: 0xff }), "7c5cff");
}

#[test]
fn os_version_reads_the_first_pretty_name() {
    let release = "NAME=\"Ubuntu\"\r\nPRETTY_NAME=\"Ubuntu 24.04 LTS\"\r\nPRETTY_NAME=other\n";
    assert_eq!(os_version(Some(release)), "Ubuntu 24.04 LTS");
    assert_eq!(os_version(Some("PRETTY_NAME=bare")), "bare");
    assert_eq!(os_version(Some("NAME=x\n")), "unknown");
    assert_eq!(os_version(Some("")), "unknown");
    assert_eq!(os_version(None), "unknown");
}

#[test]
fn kernel_version_is_trimmed() {
    assert_eq!(kernel_version(Some(" 6.8.0-45-generic\n")), "6.8.0-45-generic");
    assert_eq!(kernel_version(Some("\t\n")), "");
    assert_eq!(kernel_version(None), "unknown");
}

#[test]
fn printed_ids_select_the_same_device() {
    for (vendor_id, product_id) in [(0x0c45u16, 0x800au16), (0, 0xffff), (0xabcd, 0x0001)] {
        let selector = format!("{}:{}", hex4(vendor_id), hex4(product_id));
        assert_eq!(parse_vid_pid(&selector), Ok((vendor_id, product_id)));
    }
}

#[test]
fn signed_channels_are_not_colors() {
    assert_eq!(parse_hex_color("+f+f+f"), Err(ColorError::InvalidDigit));
    assert_eq!(parse_hex_color("#0a+bcd"), Err(ColorError::InvalidDigit));
    assert_eq!(parse_hex_color("0A0b0C"), Ok(RgbColor { r: 0x0a, g: 0x0b, b: 0x0c }));
}
