//! The whole discovery pipeline over already-gathered inputs: raw
//! enumeration entries, each interface's resolved USB device (topology
//! key) and each interface's raw report descriptor.

use vstd::prelude::*;
use crate::identity::Identity;
use crate::discovery::raw::RawEntry;
use crate::discovery::path_map::PathMap;
use crate::discovery::classify::{classify, spec_classify, Classification};
use crate::discovery::descriptor::{declared_ids, parsed_report_id_fields, parser_accepts_shape, report_ids_from_descriptor};
use crate::discovery::group::{
    build_identity, dedupe_by_path, non_empty, first_seen_keys, group_by_topology, group_sizes, is_dedupe_of,
    law_grouping_keeps_every_interface, lemma_first_seen_keys, members_at, InterfaceEntry,
};

verus! {

/// One physical device found by [`discover`], already grouped and
/// classified.
#[derive(Debug, Clone)]
pub struct Discovered {
    /// Everything known about the device without opening it.
    pub identity: Identity,
    /// The category the classification heuristic placed it in.
    pub classification: Classification,
}

/// The report IDs an interface at `path` is listed with: those its
/// descriptor declares, or none when the descriptor is missing, is not of
/// the shape the parser is handed, or the parser rejects it.
pub open spec fn descriptor_report_ids(descriptors: Map<Seq<char>, Vec<u8>>, path: Seq<char>) -> Seq<u8> {
    if descriptors.contains_key(path) && parser_accepts_shape(descriptors[path]@) {
        match parsed_report_id_fields(descriptors[path]@) {
            Some(fields) => declared_ids(fields),
            None => Seq::empty(),
        }
    } else {
        Seq::empty()
    }
}

/// Each interface paired with its grouping key: the USB device it
/// resolved to, or its own path when that could not be resolved.
pub open spec fn keyed_by_topology(interfaces: Seq<InterfaceEntry>, usb_devices: Map<Seq<char>, String>) -> Seq<(InterfaceEntry, String)> {
    Seq::new(interfaces.len(), |i: int|
        (interfaces[i], if usb_devices.contains_key(interfaces[i].path@) { usb_devices[interfaces[i].path@] } else { interfaces[i].path }))
}

/// `identity` was built from the non-empty `group`: device-level fields
/// from its first interface (empty strings read as absent), one interface
/// per member with the report IDs its descriptor declares.
pub open spec fn built_from(identity: Identity, group: Seq<InterfaceEntry>, descriptors: Map<Seq<char>, Vec<u8>>) -> bool {
    &&& group.len() > 0
    &&& identity.vendor_id == group[0].vendor_id
    &&& identity.product_id == group[0].product_id
    &&& identity.manufacturer == non_empty(group[0].manufacturer_string)
    &&& identity.product == non_empty(group[0].product_string)
    &&& identity.serial == non_empty(group[0].serial_number)
    &&& identity.interfaces@.len() == group.len()
    &&& forall|k: int| 0 <= k < group.len() ==> {
        let interface = #[trigger] identity.interfaces@[k];
        &&& interface.interface_number == group[k].interface_number
        &&& interface.path@ == group[k].path@
        &&& interface.usage_pairs@ == group[k].usage_pairs@
        &&& interface.report_ids@ == descriptor_report_ids(descriptors, group[k].path@)
    }
}

/// `devices` holds one entry per topology group of `keyed`, in
/// first-seen order, each built from its group and classified.
pub open spec fn discovered_from(devices: Seq<Discovered>, keyed: Seq<(InterfaceEntry, String)>, descriptors: Map<Seq<char>, Vec<u8>>) -> bool {
    &&& devices.len() == first_seen_keys(keyed).len()
    &&& forall|k: int| 0 <= k < devices.len() ==> {
        &&& built_from(#[trigger] devices[k].identity, members_at(keyed, first_seen_keys(keyed)[k]), descriptors)
        &&& devices[k].classification == spec_classify(devices[k].identity)
    }
}

/// How many interfaces `devices` hold together.
pub open spec fn interface_count(devices: Seq<Discovered>) -> int
    decreases devices.len(),
{
    if devices.len() == 0 {
        0
    } else {
        interface_count(devices.drop_last()) + devices.last().identity.interfaces@.len()
    }
}

proof fn lemma_counts_match(devices: Seq<Discovered>, keyed: Seq<(InterfaceEntry, String)>, keys: Seq<Seq<char>>, j: int)
    requires
        devices.len() == keys.len(),
        0 <= j <= devices.len(),
        forall|k: int| 0 <= k < devices.len() ==>
            (#[trigger] devices[k]).identity.interfaces@.len() == members_at(keyed, keys[k]).len(),
    ensures
        interface_count(devices.take(j)) == group_sizes(keyed, keys.take(j)),
    decreases j,
{
    if j > 0 {
        lemma_counts_match(devices, keyed, keys, j - 1);
        assert(devices.take(j).drop_last() =~= devices.take(j - 1));
        assert(keys.take(j).drop_last() =~= keys.take(j - 1));
        assert(devices.take(j).last() == devices[j - 1]);
        assert(keys.take(j).last() == keys[j - 1]);
    }
}

/// Discovery neither loses nor duplicates an interface: the devices it
/// finds hold, together, exactly the interfaces it grouped.
pub proof fn law_discovery_keeps_every_interface(
    devices: Seq<Discovered>,
    interfaces: Seq<InterfaceEntry>,
    usb_devices: Map<Seq<char>, String>,
    descriptors: Map<Seq<char>, Vec<u8>>,
)
    requires
        discovered_from(devices, keyed_by_topology(interfaces, usb_devices), descriptors),
    ensures
        interface_count(devices) == interfaces.len(),
{
    let keyed = keyed_by_topology(interfaces, usb_devices);
    let keys = first_seen_keys(keyed);
    assert forall|k: int| 0 <= k < devices.len() implies
        (#[trigger] devices[k]).identity.interfaces@.len() == members_at(keyed, keys[k]).len() by {
        assert(built_from(devices[k].identity, members_at(keyed, keys[k]), descriptors));
    }
    lemma_counts_match(devices, keyed, keys, devices.len() as int);
    assert(devices.take(devices.len() as int) =~= devices);
    assert(keys.take(keys.len() as int) =~= keys);
    law_grouping_keeps_every_interface(keyed);
}

/// Every member of a group is one of the grouped items.
pub proof fn lemma_members_come_from(items: Seq<(InterfaceEntry, String)>, key: Seq<char>)
    ensures
        forall|t: int| 0 <= t < members_at(items, key).len() ==>
            exists|s: int| 0 <= s < items.len() && items[s].0 == #[trigger] members_at(items, key)[t],
        (exists|s: int| 0 <= s < items.len() && #[trigger] items[s].1@ == key) ==> members_at(items, key).len() > 0,
    decreases items.len(),
{
    if items.len() > 0 {
        let init = items.drop_last();
        lemma_members_come_from(init, key);
        let m = members_at(items, key);
        assert forall|t: int| 0 <= t < m.len() implies
            exists|s: int| 0 <= s < items.len() && items[s].0 == #[trigger] m[t] by {
            if t < members_at(init, key).len() {
                let s = choose|s: int| 0 <= s < init.len() && init[s].0 == members_at(init, key)[t];
                assert(items[s] == init[s]);
            } else {
                assert(items[items.len() - 1].0 == m[t]);
            }
        }
        if exists|s: int| 0 <= s < items.len() && #[trigger] items[s].1@ == key {
            let s = choose|s: int| 0 <= s < items.len() && #[trigger] items[s].1@ == key;
            if s < items.len() - 1 {
                assert(init[s] == items[s]);
            }
        }
    }
}

/// Enumerates nothing itself: given every raw HID entry, the USB device
/// each interface path resolved to (absent when it could not be
/// resolved) and each interface path's raw report descriptor (absent
/// when unreadable), groups the interfaces into physical devices and
/// classifies each one. An interface whose topology could not be
/// resolved becomes its own device; an unreadable or unparsable
/// descriptor leaves that interface without report IDs.
pub fn discover(
    entries: &[RawEntry],
    usb_devices: &PathMap<String>,
    descriptors: &PathMap<Vec<u8>>,
) -> (r: Vec<Discovered>)
    ensures
        exists|interfaces: Seq<InterfaceEntry>|
            is_dedupe_of(interfaces, entries@)
            && discovered_from(r@, keyed_by_topology(interfaces, usb_devices.view()), descriptors.view()),
{
    let interfaces = dedupe_by_path(entries);
    let ghost deduped = interfaces@;
    let ghost keyed = keyed_by_topology(deduped, usb_devices.view());
    let n = interfaces.len();

    // Report IDs per path, read off each interface's descriptor.
    let mut report_ids_by_path: PathMap<Vec<u8>> = PathMap::new();
    let mut i: usize = 0;
    while i < n
        invariant
            n == interfaces@.len(),
            interfaces@ == deduped,
            i <= n,
            forall|j: int| 0 <= j < i ==> #[trigger] report_ids_by_path.view().contains_key(deduped[j].path@)
                && report_ids_by_path.view()[deduped[j].path@]@ == descriptor_report_ids(descriptors.view(), deduped[j].path@),
        decreases n - i,
    {
        let path = &interfaces[i].path;
        let ids = match descriptors.get(path.as_str()) {
            Some(bytes) => match report_ids_from_descriptor(bytes.as_slice()) {
                Ok(ids) => ids,
                Err(_) => Vec::new(),
            },
            None => Vec::new(),
        };
        proof {
            assert(ids@ =~= descriptor_report_ids(descriptors.view(), path@));
        }
        let ghost before = report_ids_by_path.view();
        report_ids_by_path.insert(path.clone(), ids);
        proof {
            assert forall|j: int| 0 <= j < i + 1 implies #[trigger] report_ids_by_path.view().contains_key(deduped[j].path@)
                && report_ids_by_path.view()[deduped[j].path@]@ == descriptor_report_ids(descriptors.view(), deduped[j].path@) by {
                if deduped[j].path@ != path@ {
                    assert(before.contains_key(deduped[j].path@));
                }
            }
        }
        i = i + 1;
    }

    // Each interface paired with its topology key.
    let mut rest = interfaces;
    let mut with_topology: Vec<(InterfaceEntry, String)> = Vec::new();
    let mut i: usize = 0;
    proof {
        assert(rest@ =~= deduped.skip(0));
    }
    while rest.len() > 0
        invariant
            n == deduped.len(),
            i <= n,
            rest@ == deduped.skip(i as int),
            with_topology@ =~= keyed.take(i as int),
            keyed == keyed_by_topology(deduped, usb_devices.view()),
        decreases rest@.len(),
    {
        proof {
            assert(deduped.skip(i as int).len() == deduped.len() - i);
            assert(rest@[0] == deduped[i as int]);
        }
        let interface = rest.remove(0);
        proof {
            assert(rest@ =~= deduped.skip(i + 1));
        }
        let key = match usb_devices.get(interface.path.as_str()) {
            Some(device) => device.clone(),
            None => interface.path.clone(),
        };
        with_topology.push((interface, key));
        i = i + 1;
    }
    proof {
        assert(keyed.take(n as int) =~= keyed);
    }

    let groups = group_by_topology(with_topology);
    proof {
        lemma_first_seen_keys(keyed);
    }

    let mut devices: Vec<Discovered> = Vec::new();
    let mut rest = groups;
    let ghost all_groups = rest@;
    let total = rest.len();
    let mut k: usize = 0;
    proof {
        assert(rest@ =~= all_groups.skip(0));
    }
    while rest.len() > 0
        invariant
            k <= all_groups.len(),
            all_groups.len() == total,
            rest@ == all_groups.skip(k as int),
            all_groups.len() == first_seen_keys(keyed).len(),
            forall|g: int| 0 <= g < all_groups.len() ==> #[trigger] all_groups[g]@ == members_at(keyed, first_seen_keys(keyed)[g]),
            forall|j: int| 0 <= j < deduped.len() ==> #[trigger] report_ids_by_path.view().contains_key(deduped[j].path@)
                && report_ids_by_path.view()[deduped[j].path@]@ == descriptor_report_ids(descriptors.view(), deduped[j].path@),
            keyed == keyed_by_topology(deduped, usb_devices.view()),
            forall|q: Seq<char>| #[trigger] first_seen_keys(keyed).contains(q) ==>
                exists|s: int| 0 <= s < keyed.len() && keyed[s].1@ == q,
            devices@.len() == k,
            forall|g: int| 0 <= g < k ==> {
                &&& built_from(#[trigger] devices@[g].identity, members_at(keyed, first_seen_keys(keyed)[g]), descriptors.view())
                &&& devices@[g].classification == spec_classify(devices@[g].identity)
            },
        decreases rest@.len(),
    {
        proof {
            assert(all_groups.skip(k as int).len() == all_groups.len() - k);
            assert(rest@[0] == all_groups[k as int]);
        }
        let group = rest.remove(0);
        let ghost members = members_at(keyed, first_seen_keys(keyed)[k as int]);
        proof {
            assert(rest@ =~= all_groups.skip(k + 1));
            assert(group@ == members);
            let key = first_seen_keys(keyed)[k as int];
            assert(first_seen_keys(keyed).contains(key));
            lemma_members_come_from(keyed, key);
            assert forall|t: int| 0 <= t < members.len() implies
                #[trigger] report_ids_by_path.view().contains_key(members[t].path@)
                && report_ids_by_path.view()[members[t].path@]@ == descriptor_report_ids(descriptors.view(), members[t].path@) by {
                let s = choose|s: int| 0 <= s < keyed.len() && keyed[s].0 == members[t];
                assert(keyed[s].0 == deduped[s]);
                assert(report_ids_by_path.view().contains_key(deduped[s].path@));
            }
        }
        let identity = build_identity(group, &report_ids_by_path);
        let classification = classify(&identity);
        devices.push(Discovered { identity, classification });
        proof {
            let d = devices@[k as int];
            assert forall|t: int| 0 <= t < members.len() implies {
                let interface = #[trigger] d.identity.interfaces@[t];
                &&& interface.interface_number == members[t].interface_number
                &&& interface.path@ == members[t].path@
                &&& interface.usage_pairs@ == members[t].usage_pairs@
                &&& interface.report_ids@ == descriptor_report_ids(descriptors.view(), members[t].path@)
            } by {
                assert(report_ids_by_path.view().contains_key(members[t].path@));
            }
            assert(built_from(d.identity, members, descriptors.view()));
        }
        k = k + 1;
    }
    proof {
        assert(is_dedupe_of(deduped, entries@));
    }
    devices
}

} // verus!
