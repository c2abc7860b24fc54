use opm::discovery::classify::{classify, has_consumer_control, Classification};
use opm::discovery::descriptor::{distinct_report_ids, report_ids_from_descriptor};
use opm::discovery::group::{build_identity, dedupe_by_path, group_by_topology};
use opm::discovery::path_map::PathMap;
use opm::discovery::raw::RawEntry;
use opm::discovery::{discover, Error};
use opm::identity::{Identity, Interface, UsagePair};

fn identity_with_pairs(pairs: &[(u16, u16)]) -> Identity {
    Identity {
        vendor_id: 0x0c45,
        product_id: 0x800a,
        manufacturer: None,
        product: None,
        serial: None,
        interfaces: vec![Interface {
            interface_number: 0,
            path: "/dev/hidraw0".to_owned(),
            usage_pairs: pairs
                .iter()
                .map(|&(usage_page, usage)| UsagePair { usage_page, usage })
                .collect(),
            report_ids: vec![],
        }],
    }
}

#[test]
fn keyboard_plus_vendor_usage_is_configurable_keyboard() {
    let identity = identity_with_pairs(&[(0x0001, 0x0006), (0xffff, 0x0001)]);
    assert_eq!(classify(&identity), Classification::ConfigurableKeyboard);
}

#[test]
fn keyboard_alone_is_keyboard() {
    let identity = identity_with_pairs(&[(0x0001, 0x0006)]);
    assert_eq!(classify(&identity), Classification::Keyboard);
}

#[test]
fn vendor_alone_is_vendor_only() {
    let identity = identity_with_pairs(&[(0xff13, 0x0001)]);
    assert_eq!(classify(&identity), Classification::VendorOnly);
}

#[test]
fn mouse_usage_alone_is_unknown_hid() {
    let identity = identity_with_pairs(&[(0x0001, 0x0002)]);
    assert_eq!(classify(&identity), Classification::UnknownHid);
}

#[test]
fn vendor_signal_split_across_separate_interfaces_still_counts() {
    let identity = Identity {
        vendor_id: 0x0c45,
        product_id: 0x800a,
        manufacturer: None,
        product: None,
        serial: None,
        interfaces: vec![
            Interface {
                interface_number: 0,
                path: "/dev/hidraw0".to_owned(),
                usage_pairs: vec![UsagePair {
                    usage_page: 0x0001,
                    usage: 0x0006,
                }],
                report_ids: vec![],
            },
            Interface {
                interface_number: 3,
                path: "/dev/hidraw3".to_owned(),
                usage_pairs: vec![UsagePair {
                    usage_page: 0xff13,
                    usage: 0x0001,
                }],
                report_ids: vec![],
            },
        ],
    };
    assert_eq!(classify(&identity), Classification::ConfigurableKeyboard);
}

#[test]
fn consumer_control_is_detected_but_not_part_of_classification() {
    let identity = identity_with_pairs(&[(0x0001, 0x0006), (0x000c, 0x0001)]);
    assert_eq!(classify(&identity), Classification::Keyboard);
    assert!(has_consumer_control(&identity));
}

#[test]
fn vendor_range_starts_at_ff00() {
    assert_eq!(classify(&identity_with_pairs(&[(0xff00, 0x0001)])), Classification::VendorOnly);
    assert_eq!(classify(&identity_with_pairs(&[(0xfeff, 0x0001)])), Classification::UnknownHid);
    assert!(!has_consumer_control(&identity_with_pairs(&[(0x0001, 0x0006)])));
    assert_eq!(Classification::ConfigurableKeyboard.as_str(), "configurable_keyboard");
}

fn ak820_entries() -> Vec<RawEntry> {
    let mk = |usage_page: u16, usage: u16, interface_number: i32, path: &str| RawEntry {
        vendor_id: 0x0c45,
        product_id: 0x800a,
        serial_number: Some(String::new()),
        manufacturer_string: Some("SONiX".to_owned()),
        product_string: Some("AK820".to_owned()),
        usage_page,
        usage,
        interface_number,
        path: path.to_owned(),
    };

    vec![
        mk(0x0001, 0x0006, 0, "/dev/hidraw0"),
        mk(0x000c, 0x0001, 1, "/dev/hidraw1"),
        mk(0x0001, 0x0080, 1, "/dev/hidraw1"),
        mk(0x0001, 0x0006, 1, "/dev/hidraw1"),
        mk(0x0001, 0x0002, 1, "/dev/hidraw1"),
        mk(0xffff, 0x0001, 1, "/dev/hidraw1"),
        mk(0xff68, 0x0061, 2, "/dev/hidraw2"),
        mk(0xff13, 0x0001, 3, "/dev/hidraw3"),
    ]
}

#[test]
fn dedupe_collapses_shared_path_into_one_interface_with_all_usage_pairs() {
    let interfaces = dedupe_by_path(&ak820_entries());

    assert_eq!(interfaces.len(), 4, "4 distinct paths, not 8 raw entries");

    let interface1 = interfaces
        .iter()
        .find(|i| i.path == "/dev/hidraw1")
        .expect("interface 1 present");
    assert_eq!(interface1.usage_pairs.len(), 5);
    assert_eq!(
        interface1.serial_number, None,
        "empty serial normalized to None"
    );
}

#[test]
fn group_by_topology_merges_interfaces_sharing_a_parent_and_keeps_others_separate() {
    let interfaces = dedupe_by_path(&ak820_entries());
    let shared_parent: String = "/sys/devices/pci0000:00/0000:00:14.0/usb3/3-1".into();

    let with_keys: Vec<_> = interfaces
        .into_iter()
        .map(|i| (i, shared_parent.clone()))
        .collect();

    let groups = group_by_topology(with_keys);

    assert_eq!(groups.len(), 1, "all 4 AK820 interfaces share one parent");
    assert_eq!(groups[0].len(), 4);
}

#[test]
fn group_by_topology_keeps_different_parents_separate() {
    let interfaces = dedupe_by_path(&ak820_entries());
    let ak820_parent: String = "/sys/devices/.../usb3/3-1".into();
    let other_device_parent: String = "/sys/devices/.../usb3/3-2".into();

    let with_keys: Vec<_> = interfaces
        .into_iter()
        .enumerate()
        .map(|(i, interface)| {
            let key = if i == 0 {
                other_device_parent.clone()
            } else {
                ak820_parent.clone()
            };
            (interface, key)
        })
        .collect();

    let groups = group_by_topology(with_keys);
    assert_eq!(groups.len(), 2);
}

#[test]
fn build_identity_uses_first_interfaces_shared_fields() {
    let interfaces = dedupe_by_path(&ak820_entries());
    let identity = build_identity(interfaces, &PathMap::new());

    assert_eq!(identity.vendor_id, 0x0c45);
    assert_eq!(identity.product_id, 0x800a);
    assert_eq!(identity.manufacturer.as_deref(), Some("SONiX"));
    assert_eq!(identity.product.as_deref(), Some("AK820"));
    assert_eq!(identity.serial, None);
    assert_eq!(identity.interfaces.len(), 4);
}

#[test]
fn dedupe_keeps_first_seen_order_and_pair_order() {
    let interfaces = dedupe_by_path(&ak820_entries());
    let paths: Vec<&str> = interfaces.iter().map(|i| i.path.as_str()).collect();
    assert_eq!(paths, vec!["/dev/hidraw0", "/dev/hidraw1", "/dev/hidraw2", "/dev/hidraw3"]);
    assert_eq!(interfaces[1].interface_number, 1);
    assert_eq!(
        interfaces[1].usage_pairs,
        vec![
            UsagePair { usage_page: 0x000c, usage: 0x0001 },
            UsagePair { usage_page: 0x0001, usage: 0x0080 },
            UsagePair { usage_page: 0x0001, usage: 0x0006 },
            UsagePair { usage_page: 0x0001, usage: 0x0002 },
            UsagePair { usage_page: 0xffff, usage: 0x0001 },
        ]
    );
}

#[test]
fn non_empty_serial_is_kept() {
    let mut entries = ak820_entries();
    entries[0].serial_number = Some("ABC".to_owned());
    let interfaces = dedupe_by_path(&entries);
    assert_eq!(interfaces[0].serial_number.as_deref(), Some("ABC"));
    assert_eq!(interfaces[1].serial_number, None);
}

#[test]
fn group_by_topology_interleaved_keys_keep_first_seen_order() {
    let interfaces = dedupe_by_path(&ak820_entries());
    let keys = ["b", "a", "b", "a"];
    let with_keys: Vec<_> = interfaces
        .into_iter()
        .zip(keys.iter())
        .map(|(i, k)| (i, k.to_string()))
        .collect();
    let groups = group_by_topology(with_keys);
    assert_eq!(groups.len(), 2);
    assert_eq!(groups[0].iter().map(|i| i.path.as_str()).collect::<Vec<_>>(), vec!["/dev/hidraw0", "/dev/hidraw2"]);
    assert_eq!(groups[1].iter().map(|i| i.path.as_str()).collect::<Vec<_>>(), vec!["/dev/hidraw1", "/dev/hidraw3"]);
}

#[test]
fn build_identity_attaches_report_ids_by_path() {
    let interfaces = dedupe_by_path(&ak820_entries());
    let mut ids = PathMap::new();
    ids.insert("/dev/hidraw1".to_owned(), vec![9]);
    ids.insert("/dev/hidraw1".to_owned(), vec![1, 2]);
    let identity = build_identity(interfaces, &ids);
    assert_eq!(identity.interfaces[0].report_ids, Vec::<u8>::new());
    assert_eq!(identity.interfaces[1].report_ids, vec![1, 2]);
    assert_eq!(identity.interfaces[3].interface_number, 3);
    assert_eq!(identity.interfaces[3].path, "/dev/hidraw3");
}

#[test]
fn path_map_reads_back_what_was_written() {
    let mut map: PathMap<u32> = PathMap::new();
    assert_eq!(map.get("/dev/hidraw0"), None);
    map.insert("/dev/hidraw0".to_owned(), 1);
    map.insert("/dev/hidraw1".to_owned(), 2);
    map.insert("/dev/hidraw0".to_owned(), 3);
    assert_eq!(map.get("/dev/hidraw0"), Some(&3));
    assert_eq!(map.get("/dev/hidraw1"), Some(&2));
    assert_eq!(map.get("/dev/hidraw2"), None);
}

#[test]
fn distinct_report_ids_are_sorted_and_unique() {
    assert_eq!(distinct_report_ids(&vec![Some(5), None, Some(1), Some(5), Some(255), Some(0)]), vec![0, 1, 5, 255]);
    assert_eq!(distinct_report_ids(&vec![None, None]), Vec::<u8>::new());
}

#[test]
fn report_ids_from_a_real_descriptor() {
    // Two input reports with IDs 1 and 2 (a Generic Desktop collection
    // each holding one 8-bit field), and one feature report with ID 1.
    let descriptor: Vec<u8> = vec![
        0x05, 0x01, 0x09, 0x06, 0xa1, 0x01, // Usage Page (Generic Desktop), Usage (Keyboard), Collection (Application)
        0x85, 0x02, 0x75, 0x08, 0x95, 0x01, 0x15, 0x00, 0x25, 0xff, 0x09, 0x06, 0x81, 0x02, // Report ID 2, one input byte
        0x85, 0x01, 0x09, 0x06, 0x81, 0x02, // Report ID 1, one input byte
        0x85, 0x01, 0x09, 0x06, 0xb1, 0x02, // Report ID 1, one feature byte
        0xc0, // End Collection
    ];
    assert_eq!(report_ids_from_descriptor(&descriptor).expect("parses"), vec![1, 2]);
}

#[test]
fn unparsable_descriptor_is_an_error() {
    let garbage: Vec<u8> = vec![0x05];
    assert!(matches!(report_ids_from_descriptor(&garbage), Err(Error::ParseDescriptor(_))));
}

#[test]
fn discover_groups_by_topology_and_falls_back_to_the_path() {
    let entries = ak820_entries();
    let mut usb = PathMap::new();
    for path in ["/dev/hidraw0", "/dev/hidraw1", "/dev/hidraw2"] {
        usb.insert(path.to_owned(), "/sys/devices/usb3/3-1".to_owned());
    }
    // /dev/hidraw3's topology is unknown: it becomes its own device.
    let descriptors = PathMap::new();
    let devices = discover(&entries, &usb, &descriptors);
    assert_eq!(devices.len(), 2);
    assert_eq!(devices[0].identity.interfaces.len(), 3);
    assert_eq!(devices[0].classification, Classification::ConfigurableKeyboard);
    assert_eq!(devices[1].identity.interfaces.len(), 1);
    assert_eq!(devices[1].identity.interfaces[0].path, "/dev/hidraw3");
    assert_eq!(devices[1].classification, Classification::VendorOnly);
}

#[test]
fn discovery_keeps_every_distinct_interface_exactly_once() {
    let entries = ak820_entries();
    let mut usb = PathMap::new();
    usb.insert("/dev/hidraw1".to_owned(), "/sys/devices/usb3/3-1".to_owned());
    usb.insert("/dev/hidraw3".to_owned(), "/sys/devices/usb3/3-1".to_owned());
    let devices = discover(&entries, &usb, &PathMap::new());
    let mut paths: Vec<String> = devices
        .iter()
        .flat_map(|d| d.identity.interfaces.iter().map(|i| i.path.clone()))
        .collect();
    paths.sort();
    assert_eq!(paths, vec!["/dev/hidraw0", "/dev/hidraw1", "/dev/hidraw2", "/dev/hidraw3"]);
    assert_eq!(devices.len(), 3);
}

#[test]
fn descriptors_the_parser_is_not_handed_are_refused() {
    // A Usage before any Usage Page.
    assert!(matches!(report_ids_from_descriptor(&[0x09, 0x01, 0xa1, 0x01]), Err(Error::UnhandledDescriptor)));
    // A Usage Page set inside a Push level is gone after the Pop.
    assert!(matches!(
        report_ids_from_descriptor(&[0xa4, 0x05, 0x01, 0xb4, 0x09, 0x06]),
        Err(Error::UnhandledDescriptor)
    ));
    // Reports whose bit positions would pass 32 bits.
    assert!(matches!(
        report_ids_from_descriptor(&[0x05, 0x01, 0x09, 0x06, 0x77, 0x00, 0x00, 0x01, 0x00, 0x97, 0x00, 0x80, 0x00, 0x00, 0x81, 0x02]),
        Err(Error::UnhandledDescriptor)
    ));
}

#[test]
fn push_and_pop_are_parsed() {
    // Report ID 1 with one constant input byte, set up inside a Push/Pop
    // pair; the Usage Page set before the Push survives the Pop.
    let descriptor: Vec<u8> = vec![
        0x05, 0x01, 0x09, 0x06, 0xa1, 0x01, // Usage Page, Usage, Collection (Application)
        0xa4, 0x85, 0x01, 0x75, 0x08, 0x95, 0x01, 0x81, 0x01, 0xb4, // Push, Report ID 1, one constant byte, Pop
        0x09, 0x06, 0xc0, // Usage, End Collection
    ];
    assert_eq!(report_ids_from_descriptor(&descriptor).expect("parses"), vec![1]);
    // A large Usage range is handed to the parser too.
    let ranged: Vec<u8> = vec![
        0x05, 0x01, 0x85, 0x02, 0x19, 0x00, 0x2b, 0x00, 0x00, 0x01, 0x00, 0x75, 0x08, 0x95, 0x01, 0x81, 0x00,
    ];
    assert_eq!(report_ids_from_descriptor(&ranged).expect("parses"), vec![2]);
    // A Pop with nothing pushed is the parser's own error.
    assert!(matches!(report_ids_from_descriptor(&[0x05, 0x01, 0xb4]), Err(Error::ParseDescriptor(_))));
}

#[test]
fn empty_manufacturer_and_product_strings_are_absent() {
    let mut entries = ak820_entries();
    for e in entries.iter_mut() {
        e.manufacturer_string = Some(String::new());
        e.product_string = Some(String::new());
    }
    let interfaces = dedupe_by_path(&entries);
    let identity = build_identity(interfaces, &PathMap::new());
    assert_eq!(identity.manufacturer, None);
    assert_eq!(identity.product, None);
    assert_eq!(identity.serial, None);
}
