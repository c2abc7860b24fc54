//! Grouping raw enumeration entries into interfaces, and interfaces into
//! physical devices.

use vstd::prelude::*;
use crate::identity::{Identity, Interface, UsagePair};
use crate::discovery::path_map::PathMap;
use crate::discovery::raw::RawEntry;
use crate::discovery::pipeline::lemma_members_come_from;

verus! {

/// One HID interface after collapsing every raw entry that shares a `path`.
#[derive(Debug, Clone)]
pub struct InterfaceEntry {
    /// USB vendor id (same for every entry sharing this `path`).
    pub vendor_id: u16,
    /// USB product id (same for every entry sharing this `path`).
    pub product_id: u16,
    /// Serial number, normalized: an empty string is treated as absent.
    pub serial_number: Option<String>,
    /// Manufacturer string, if any.
    pub manufacturer_string: Option<String>,
    /// Product string, if any.
    pub product_string: Option<String>,
    /// The USB interface number.
    pub interface_number: i32,
    /// The OS-specific path used to open this interface later.
    pub path: String,
    /// Every top-level usage pair declared on this interface.
    pub usage_pairs: Vec<UsagePair>,
}

/// The usage pair a raw entry declares.
pub open spec fn pair_of(e: RawEntry) -> UsagePair {
    UsagePair { usage_page: e.usage_page, usage: e.usage }
}

/// The paths of `entries`, each once, in the order they first appear.
pub open spec fn first_seen_paths(entries: Seq<RawEntry>) -> Seq<Seq<char>>
    decreases entries.len(),
{
    if entries.len() == 0 {
        seq![]
    } else {
        let earlier = first_seen_paths(entries.drop_last());
        if earlier.contains(entries.last().path@) {
            earlier
        } else {
            earlier.push(entries.last().path@)
        }
    }
}

/// Every usage pair declared by an entry at `path`, in enumeration order.
pub open spec fn pairs_at(entries: Seq<RawEntry>, path: Seq<char>) -> Seq<UsagePair>
    decreases entries.len(),
{
    if entries.len() == 0 {
        seq![]
    } else {
        let earlier = pairs_at(entries.drop_last(), path);
        if entries.last().path@ == path {
            earlier.push(pair_of(entries.last()))
        } else {
            earlier
        }
    }
}

/// An empty serial number carries no information: it counts as absent.
pub open spec fn normalized_serial(serial: Option<String>) -> Option<String> {
    non_empty(serial)
}

/// An optional string, with an empty one read as absent.
pub open spec fn non_empty(text: Option<String>) -> Option<String> {
    match text {
        Some(s) => if s@.len() == 0 { None } else { Some(s) },
        None => None,
    }
}

/// `entries[i]` is the first entry at `path`.
pub open spec fn is_first_at(entries: Seq<RawEntry>, i: int, path: Seq<char>) -> bool {
    &&& 0 <= i < entries.len()
    &&& entries[i].path@ == path
    &&& forall|j: int| 0 <= j < i ==> #[trigger] entries[j].path@ != path
}

/// `out` carries the identifying fields of `e`, with its serial normalized.
pub open spec fn copies_header(out: InterfaceEntry, e: RawEntry) -> bool {
    &&& out.vendor_id == e.vendor_id
    &&& out.product_id == e.product_id
    &&& out.serial_number == normalized_serial(e.serial_number)
    &&& out.manufacturer_string == e.manufacturer_string
    &&& out.product_string == e.product_string
    &&& out.interface_number == e.interface_number
    &&& out.path@ == e.path@
}

/// `r` holds one interface per distinct path of `entries`, in first-seen
/// order, each with the fields of the first entry at that path and every
/// usage pair declared at that path.
pub open spec fn is_dedupe_of(r: Seq<InterfaceEntry>, entries: Seq<RawEntry>) -> bool {
    &&& r.len() == first_seen_paths(entries).len()
    &&& forall|k: int| 0 <= k < r.len() ==> #[trigger] r[k].path@ == first_seen_paths(entries)[k]
    &&& forall|k: int| 0 <= k < r.len() ==> #[trigger] r[k].usage_pairs@ == pairs_at(entries, r[k].path@)
    &&& forall|k: int| 0 <= k < r.len() ==>
        exists|i: int| is_first_at(entries, i, r[k].path@) && copies_header(#[trigger] r[k], entries[i])
}

/// `first_seen_paths` lists each path of `entries` exactly once.
pub proof fn lemma_first_seen_paths(entries: Seq<RawEntry>)
    ensures
        forall|a: int, b: int| 0 <= a < b < first_seen_paths(entries).len() ==>
            #[trigger] first_seen_paths(entries)[a] != #[trigger] first_seen_paths(entries)[b],
        forall|i: int| 0 <= i < entries.len() ==> first_seen_paths(entries).contains(#[trigger] entries[i].path@),
        forall|q: Seq<char>| #[trigger] first_seen_paths(entries).contains(q) ==>
            exists|i: int| 0 <= i < entries.len() && entries[i].path@ == q,
    decreases entries.len(),
{
    if entries.len() > 0 {
        let init = entries.drop_last();
        lemma_first_seen_paths(init);
        let earlier = first_seen_paths(init);
        let p = entries.last().path@;
        assert forall|i: int| 0 <= i < entries.len() implies first_seen_paths(entries).contains(#[trigger] entries[i].path@) by {
            if i < entries.len() - 1 {
                assert(init[i] == entries[i]);
                assert(earlier.contains(init[i].path@));
                if !earlier.contains(p) {
                    let w = choose|w: int| 0 <= w < earlier.len() && earlier[w] == init[i].path@;
                    assert(first_seen_paths(entries)[w] == init[i].path@);
                }
            } else {
                if !earlier.contains(p) {
                    assert(first_seen_paths(entries)[earlier.len() as int] == p);
                }
            }
        }
        assert forall|q: Seq<char>| #[trigger] first_seen_paths(entries).contains(q) implies
            exists|i: int| 0 <= i < entries.len() && entries[i].path@ == q by {
            if earlier.contains(q) {
                let i = choose|i: int| 0 <= i < init.len() && init[i].path@ == q;
                assert(entries[i] == init[i]);
            } else {
                let w = choose|w: int| 0 <= w < first_seen_paths(entries).len() && first_seen_paths(entries)[w] == q;
                assert(w == earlier.len());
                assert(entries[entries.len() - 1].path@ == q);
            }
        }
    }
}

/// Collapses raw entries sharing a `path` into one [`InterfaceEntry`]
/// each, preserving first-seen order.
pub fn dedupe_by_path(entries: &[RawEntry]) -> (r: Vec<InterfaceEntry>)
    ensures
        is_dedupe_of(r@, entries@),
        forall|a: int, b: int| 0 <= a < b < r@.len() ==> #[trigger] r@[a].path@ != #[trigger] r@[b].path@,
{
    let mut acc: Vec<InterfaceEntry> = Vec::new();
    let mut i: usize = 0;
    proof {
        assert(entries@.take(0) =~= Seq::<RawEntry>::empty());
    }
    while i < entries.len()
        invariant
            i <= entries@.len(),
            is_dedupe_of(acc@, entries@.take(i as int)),
        decreases entries@.len() - i,
    {
        let e = &entries[i];
        let ghost before = entries@.take(i as int);
        let ghost after = entries@.take(i + 1);
        proof {
            lemma_first_seen_paths(before);
            assert(after.drop_last() =~= before);
            assert(after.last() == *e);
        }
        let mut k: usize = 0;
        let mut found = false;
        while k < acc.len()
            invariant_except_break
                k <= acc@.len(),
                forall|j: int| 0 <= j < k ==> #[trigger] acc@[j].path@ != e.path@,
                !found,
            ensures
                found ==> k < acc@.len() && acc@[k as int].path@ == e.path@,
                !found ==> forall|j: int| 0 <= j < acc@.len() ==> #[trigger] acc@[j].path@ != e.path@,
            decreases acc@.len() - k,
        {
            if acc[k].path == e.path {
                found = true;
                break;
            }
            k = k + 1;
        }
        let pair = UsagePair { usage_page: e.usage_page, usage: e.usage };
        let ghost old_acc = acc@;
        if found {
            proof {
                assert(first_seen_paths(before).contains(e.path@)) by {
                    assert(first_seen_paths(before)[k as int] == e.path@);
                }
            }
            acc[k].usage_pairs.push(pair);
            proof {
                assert forall|m: int| 0 <= m < acc@.len() implies
                    exists|w: int| is_first_at(after, w, acc@[m].path@) && copies_header(#[trigger] acc@[m], after[w]) by {
                    let w = choose|w: int| is_first_at(before, w, old_acc[m].path@) && copies_header(old_acc[m], before[w]);
                    assert(after[w] == before[w]);
                    assert forall|j: int| 0 <= j < w implies #[trigger] after[j].path@ != acc@[m].path@ by {
                        assert(after[j] == before[j]);
                    }
                    assert(is_first_at(after, w, acc@[m].path@) && copies_header(acc@[m], after[w]));
                }
            }
        } else {
            proof {
                assert(!first_seen_paths(before).contains(e.path@)) by {
                    if first_seen_paths(before).contains(e.path@) {
                        let w = choose|w: int| 0 <= w < first_seen_paths(before).len() && first_seen_paths(before)[w] == e.path@;
                        assert(acc@[w].path@ == e.path@);
                    }
                }
            }
            let serial = match &e.serial_number {
                Some(s) => if s.as_str().is_empty() { None } else { Some(s.clone()) },
                None => None,
            };
            let mut pairs: Vec<UsagePair> = Vec::new();
            pairs.push(pair);
            acc.push(InterfaceEntry {
                vendor_id: e.vendor_id,
                product_id: e.product_id,
                serial_number: serial,
                manufacturer_string: e.manufacturer_string.clone(),
                product_string: e.product_string.clone(),
                interface_number: e.interface_number,
                path: e.path.clone(),
                usage_pairs: pairs,
            });
            proof {
                assert(pairs_at(before, e.path@) =~= Seq::<UsagePair>::empty()) by {
                    lemma_pairs_at_absent(before, e.path@);
                }
                assert forall|m: int| 0 <= m < acc@.len() implies
                    exists|w: int| is_first_at(after, w, acc@[m].path@) && copies_header(#[trigger] acc@[m], after[w]) by {
                    if m < old_acc.len() {
                        let w = choose|w: int| is_first_at(before, w, old_acc[m].path@) && copies_header(old_acc[m], before[w]);
                        assert(acc@[m] == old_acc[m]);
                        assert(after[w] == before[w]);
                        assert forall|j: int| 0 <= j < w implies #[trigger] after[j].path@ != acc@[m].path@ by {
                            assert(after[j] == before[j]);
                        }
                        assert(is_first_at(after, w, acc@[m].path@) && copies_header(acc@[m], after[w]));
                    } else {
                        assert forall|j: int| 0 <= j < i implies #[trigger] after[j].path@ != acc@[m].path@ by {
                            assert(after[j] == before[j]);
                            assert(first_seen_paths(before).contains(before[j].path@));
                        }
                        assert(is_first_at(after, i as int, acc@[m].path@));
                        assert(copies_header(acc@[m], after[i as int]));
                    }
                }
            }
        }
        i = i + 1;
    }
    proof {
        assert(entries@.take(entries@.len() as int) =~= entries@);
        lemma_first_seen_paths(entries@);
    }
    acc
}

/// A path that no entry carries has no usage pairs.
pub proof fn lemma_pairs_at_absent(entries: Seq<RawEntry>, path: Seq<char>)
    requires
        forall|i: int| 0 <= i < entries.len() ==> #[trigger] entries[i].path@ != path,
    ensures
        pairs_at(entries, path) == Seq::<UsagePair>::empty(),
    decreases entries.len(),
{
    if entries.len() > 0 {
        let init = entries.drop_last();
        assert forall|i: int| 0 <= i < init.len() implies #[trigger] init[i].path@ != path by {
            assert(init[i] == entries[i]);
        }
        lemma_pairs_at_absent(init, path);
        assert(entries[entries.len() - 1].path@ != path);
    }
}

/// The topology keys of `items`, each once, in the order they first appear.
pub open spec fn first_seen_keys(items: Seq<(InterfaceEntry, String)>) -> Seq<Seq<char>>
    decreases items.len(),
{
    if items.len() == 0 {
        seq![]
    } else {
        let earlier = first_seen_keys(items.drop_last());
        if earlier.contains(items.last().1@) {
            earlier
        } else {
            earlier.push(items.last().1@)
        }
    }
}

/// Every interface whose topology key is `key`, in input order.
pub open spec fn members_at(items: Seq<(InterfaceEntry, String)>, key: Seq<char>) -> Seq<InterfaceEntry>
    decreases items.len(),
{
    if items.len() == 0 {
        seq![]
    } else {
        let earlier = members_at(items.drop_last(), key);
        if items.last().1@ == key {
            earlier.push(items.last().0)
        } else {
            earlier
        }
    }
}

/// `first_seen_keys` lists each key of `items` exactly once.
pub proof fn lemma_first_seen_keys(items: Seq<(InterfaceEntry, String)>)
    ensures
        forall|a: int, b: int| 0 <= a < b < first_seen_keys(items).len() ==>
            #[trigger] first_seen_keys(items)[a] != #[trigger] first_seen_keys(items)[b],
        forall|i: int| 0 <= i < items.len() ==> first_seen_keys(items).contains(#[trigger] items[i].1@),
        forall|q: Seq<char>| #[trigger] first_seen_keys(items).contains(q) ==>
            exists|i: int| 0 <= i < items.len() && items[i].1@ == q,
    decreases items.len(),
{
    if items.len() > 0 {
        let init = items.drop_last();
        lemma_first_seen_keys(init);
        let earlier = first_seen_keys(init);
        let p = items.last().1@;
        assert forall|i: int| 0 <= i < items.len() implies first_seen_keys(items).contains(#[trigger] items[i].1@) by {
            if i < items.len() - 1 {
                assert(init[i] == items[i]);
                assert(earlier.contains(init[i].1@));
                if !earlier.contains(p) {
                    let w = choose|w: int| 0 <= w < earlier.len() && earlier[w] == init[i].1@;
                    assert(first_seen_keys(items)[w] == init[i].1@);
                }
            } else {
                if !earlier.contains(p) {
                    assert(first_seen_keys(items)[earlier.len() as int] == p);
                }
            }
        }
        assert forall|q: Seq<char>| #[trigger] first_seen_keys(items).contains(q) implies
            exists|i: int| 0 <= i < items.len() && items[i].1@ == q by {
            if earlier.contains(q) {
                let i = choose|i: int| 0 <= i < init.len() && init[i].1@ == q;
                assert(items[i] == init[i]);
            } else {
                let w = choose|w: int| 0 <= w < first_seen_keys(items).len() && first_seen_keys(items)[w] == q;
                assert(w == earlier.len());
                assert(items[items.len() - 1].1@ == q);
            }
        }
    }
}

/// A key that no item carries has no members.
pub proof fn lemma_members_at_absent(items: Seq<(InterfaceEntry, String)>, key: Seq<char>)
    requires
        forall|i: int| 0 <= i < items.len() ==> #[trigger] items[i].1@ != key,
    ensures
        members_at(items, key) == Seq::<InterfaceEntry>::empty(),
    decreases items.len(),
{
    if items.len() > 0 {
        let init = items.drop_last();
        assert forall|i: int| 0 <= i < init.len() implies #[trigger] init[i].1@ != key by {
            assert(init[i] == items[i]);
        }
        lemma_members_at_absent(init, key);
        assert(items[items.len() - 1].1@ != key);
    }
}

/// How many interfaces the groups of `keys` hold together.
pub open spec fn group_sizes(items: Seq<(InterfaceEntry, String)>, keys: Seq<Seq<char>>) -> int
    decreases keys.len(),
{
    if keys.len() == 0 {
        0
    } else {
        group_sizes(items, keys.drop_last()) + members_at(items, keys.last()).len()
    }
}

/// Dropping the last item takes it out of its own group only.
proof fn lemma_group_sizes_step(items: Seq<(InterfaceEntry, String)>, keys: Seq<Seq<char>>)
    requires
        items.len() > 0,
        forall|a: int, b: int| 0 <= a < b < keys.len() ==> #[trigger] keys[a] != #[trigger] keys[b],
    ensures
        group_sizes(items, keys) == group_sizes(items.drop_last(), keys) + if keys.contains(items.last().1@) { 1int } else { 0int },
    decreases keys.len(),
{
    if keys.len() > 0 {
        let ks = keys.drop_last();
        assert forall|a: int, b: int| 0 <= a < b < ks.len() implies #[trigger] ks[a] != #[trigger] ks[b] by {
            assert(ks[a] == keys[a] && ks[b] == keys[b]);
        }
        lemma_group_sizes_step(items, ks);
        let p = items.last().1@;
        if ks.contains(p) {
            let w = choose|w: int| 0 <= w < ks.len() && ks[w] == p;
            assert(keys[w] == p);
            assert(keys.last() != p);
            assert(keys.contains(p));
        } else if keys.last() == p {
            assert(keys[keys.len() - 1] == p);
        } else {
            assert forall|w: int| 0 <= w < keys.len() implies keys[w] != p by {
                if w < keys.len() - 1 {
                    assert(keys[w] == ks[w]);
                }
            }
        }
    }
}

/// Grouping by topology neither loses nor duplicates an interface: the
/// groups of all the keys, first seen in order, hold exactly as many
/// interfaces as were grouped.
pub proof fn law_grouping_keeps_every_interface(items: Seq<(InterfaceEntry, String)>)
    ensures
        group_sizes(items, first_seen_keys(items)) == items.len(),
    decreases items.len(),
{
    if items.len() > 0 {
        let init = items.drop_last();
        let p = items.last().1@;
        let earlier = first_seen_keys(init);
        law_grouping_keeps_every_interface(init);
        lemma_first_seen_keys(init);
        lemma_first_seen_keys(items);
        lemma_group_sizes_step(items, first_seen_keys(items));
        if earlier.contains(p) {
            assert(first_seen_keys(items) == earlier);
        } else {
            let keys = first_seen_keys(items);
            assert(keys == earlier.push(p));
            assert(keys.drop_last() =~= earlier);
            assert(keys.last() == p);
            assert forall|i: int| 0 <= i < init.len() implies #[trigger] init[i].1@ != p by {
                assert(earlier.contains(init[i].1@));
            }
            lemma_members_at_absent(init, p);
            assert(keys.contains(p)) by {
                assert(keys[keys.len() - 1] == p);
            }
            assert forall|a: int, b: int| 0 <= a < b < earlier.len() implies #[trigger] earlier[a] != #[trigger] earlier[b] by {}
            lemma_group_sizes_step(items, earlier);
        }
    }
}

/// The groups of `keys`, one after another.
pub open spec fn grouped(items: Seq<(InterfaceEntry, String)>, keys: Seq<Seq<char>>) -> Seq<InterfaceEntry>
    decreases keys.len(),
{
    if keys.len() == 0 {
        Seq::empty()
    } else {
        grouped(items, keys.drop_last()) + members_at(items, keys.last())
    }
}

/// The interfaces being grouped, in input order.
pub open spec fn grouped_interfaces(items: Seq<(InterfaceEntry, String)>) -> Seq<InterfaceEntry> {
    items.map_values(|item: (InterfaceEntry, String)| item.0)
}

/// Dropping the last item takes it out of its own group only.
proof fn lemma_grouped_step(items: Seq<(InterfaceEntry, String)>, keys: Seq<Seq<char>>)
    requires
        items.len() > 0,
        forall|a: int, b: int| 0 <= a < b < keys.len() ==> #[trigger] keys[a] != #[trigger] keys[b],
    ensures
        grouped(items, keys).to_multiset() == if keys.contains(items.last().1@) {
            grouped(items.drop_last(), keys).to_multiset().insert(items.last().0)
        } else {
            grouped(items.drop_last(), keys).to_multiset()
        },
    decreases keys.len(),
{
    broadcast use vstd::multiset::group_multiset_axioms;
    broadcast use vstd::seq_lib::group_to_multiset_ensures;
    let init = items.drop_last();
    let x = items.last().0;
    let p = items.last().1@;
    if keys.len() > 0 {
        let ks = keys.drop_last();
        let k = keys.last();
        assert forall|a: int, b: int| 0 <= a < b < ks.len() implies #[trigger] ks[a] != #[trigger] ks[b] by {
            assert(ks[a] == keys[a] && ks[b] == keys[b]);
        }
        lemma_grouped_step(items, ks);
        vstd::seq_lib::lemma_multiset_commutative(grouped(items, ks), members_at(items, k));
        vstd::seq_lib::lemma_multiset_commutative(grouped(init, ks), members_at(init, k));
        if k == p {
            vstd::seq_lib::to_multiset_build(members_at(init, k), x);
            assert(keys.contains(p)) by {
                assert(keys[keys.len() - 1] == p);
            }
            if ks.contains(p) {
                let w = choose|w: int| 0 <= w < ks.len() && ks[w] == p;
                assert(keys[w] == p);
                assert(false);
            }
            assert(grouped(items, keys).to_multiset() =~= grouped(init, keys).to_multiset().insert(x));
        } else if ks.contains(p) {
            let w = choose|w: int| 0 <= w < ks.len() && ks[w] == p;
            assert(keys[w] == p);
            assert(keys.contains(p));
            assert(grouped(items, keys).to_multiset() =~= grouped(init, keys).to_multiset().insert(x));
        } else {
            assert forall|w: int| 0 <= w < keys.len() implies keys[w] != p by {
                if w < keys.len() - 1 {
                    assert(keys[w] == ks[w]);
                }
            }
            assert(!keys.contains(p));
            assert(grouped(items, keys).to_multiset() =~= grouped(init, keys).to_multiset());
        }
    } else {
        assert(grouped(items, keys) =~= Seq::<InterfaceEntry>::empty());
        assert(grouped(init, keys) =~= Seq::<InterfaceEntry>::empty());
    }
}

/// Grouping by topology is a permutation into non-empty groups: the
/// groups of all the keys, first seen in order, hold exactly the grouped
/// interfaces (as a multiset), and every group has a member.
pub proof fn law_grouping_is_a_permutation(items: Seq<(InterfaceEntry, String)>)
    ensures
        grouped(items, first_seen_keys(items)).to_multiset() == grouped_interfaces(items).to_multiset(),
        forall|k: int| 0 <= k < first_seen_keys(items).len() ==> #[trigger] members_at(items, first_seen_keys(items)[k]).len() > 0,
    decreases items.len(),
{
    broadcast use vstd::multiset::group_multiset_axioms;
    broadcast use vstd::seq_lib::group_to_multiset_ensures;
    lemma_first_seen_keys(items);
    assert forall|k: int| 0 <= k < first_seen_keys(items).len() implies #[trigger] members_at(items, first_seen_keys(items)[k]).len() > 0 by {
        let q = first_seen_keys(items)[k];
        assert(first_seen_keys(items).contains(q));
        lemma_members_come_from(items, q);
    }
    if items.len() == 0 {
        assert(grouped(items, first_seen_keys(items)) =~= Seq::<InterfaceEntry>::empty());
        assert(grouped_interfaces(items) =~= Seq::<InterfaceEntry>::empty());
    } else {
        let init = items.drop_last();
        let x = items.last().0;
        let p = items.last().1@;
        let earlier = first_seen_keys(init);
        law_grouping_is_a_permutation(init);
        lemma_first_seen_keys(init);
        assert(grouped_interfaces(items) =~= grouped_interfaces(init).push(x));
        vstd::seq_lib::to_multiset_build(grouped_interfaces(init), x);
        if earlier.contains(p) {
            assert(first_seen_keys(items) == earlier);
            lemma_grouped_step(items, earlier);
        } else {
            let keys = first_seen_keys(items);
            assert(keys == earlier.push(p));
            assert(keys.drop_last() =~= earlier);
            assert forall|i: int| 0 <= i < init.len() implies #[trigger] init[i].1@ != p by {
                assert(earlier.contains(init[i].1@));
            }
            lemma_members_at_absent(init, p);
            lemma_grouped_step(items, earlier);
            assert(members_at(items, p) =~= seq![x]);
            vstd::seq_lib::lemma_multiset_commutative(grouped(items, earlier), members_at(items, p));
            vstd::seq_lib::to_multiset_build(Seq::<InterfaceEntry>::empty(), x);
            assert(seq![x] =~= Seq::<InterfaceEntry>::empty().push(x));
            assert(grouped(items, keys).to_multiset() =~= grouped_interfaces(items).to_multiset());
        }
    }
}

/// Groups already-deduped interfaces into physical devices by their
/// resolved OS topology key (never by serial number): one group per
/// distinct key, in first-seen order, each holding every interface with
/// that key in input order.
pub fn group_by_topology(interfaces: Vec<(InterfaceEntry, String)>) -> (r: Vec<Vec<InterfaceEntry>>)
    ensures
        r@.len() == first_seen_keys(interfaces@).len(),
        forall|k: int| 0 <= k < r@.len() ==> #[trigger] r@[k]@ == members_at(interfaces@, first_seen_keys(interfaces@)[k]),
{
    let ghost all = interfaces@;
    let n = interfaces.len();
    let mut rest = interfaces;
    let mut keys: Vec<String> = Vec::new();
    let mut groups: Vec<Vec<InterfaceEntry>> = Vec::new();
    let mut i: usize = 0;
    proof {
        assert(all.take(0) =~= Seq::<(InterfaceEntry, String)>::empty());
        assert(rest@ =~= all.skip(0));
        assert(all.len() == n);
    }
    while rest.len() > 0
        invariant
            i <= all.len(),
            all.len() <= usize::MAX,
            rest@ == all.skip(i as int),
            keys@.len() == groups@.len(),
            groups@.len() == first_seen_keys(all.take(i as int)).len(),
            forall|k: int| 0 <= k < keys@.len() ==> #[trigger] keys@[k]@ == first_seen_keys(all.take(i as int))[k],
            forall|k: int| 0 <= k < groups@.len() ==>
                #[trigger] groups@[k]@ == members_at(all.take(i as int), first_seen_keys(all.take(i as int))[k]),
        decreases rest@.len(),
    {
        let ghost before = all.take(i as int);
        let ghost after = all.take(i + 1);
        proof {
            lemma_first_seen_keys(before);
            assert(all.skip(i as int).len() == all.len() - i);
            assert(i < all.len());
            assert(after.drop_last() =~= before);
            assert(rest@[0] == all[i as int]);
        }
        let (iface, key) = rest.remove(0);
        proof {
            assert(after.last() == (iface, key));
            assert(rest@ =~= all.skip(i + 1));
        }
        let mut k: usize = 0;
        let mut found = false;
        while k < keys.len()
            invariant_except_break
                k <= keys@.len(),
                forall|j: int| 0 <= j < k ==> #[trigger] keys@[j]@ != key@,
                !found,
            ensures
                found ==> k < keys@.len() && keys@[k as int]@ == key@,
                !found ==> forall|j: int| 0 <= j < keys@.len() ==> #[trigger] keys@[j]@ != key@,
            decreases keys@.len() - k,
        {
            if keys[k] == key {
                found = true;
                break;
            }
            k = k + 1;
        }
        let ghost old_groups = groups@;
        if found {
            proof {
                assert(first_seen_keys(before)[k as int] == key@);
                assert(first_seen_keys(before).contains(key@));
            }
            groups[k].push(iface);
            proof {
                assert forall|m: int| 0 <= m < groups@.len() implies
                    #[trigger] groups@[m]@ == members_at(after, first_seen_keys(after)[m]) by {
                    if m != k {
                        assert(groups@[m] == old_groups[m]);
                    }
                }
            }
        } else {
            proof {
                assert(!first_seen_keys(before).contains(key@)) by {
                    if first_seen_keys(before).contains(key@) {
                        let w = choose|w: int| 0 <= w < first_seen_keys(before).len() && first_seen_keys(before)[w] == key@;
                        assert(keys@[w]@ == key@);
                    }
                }
                assert forall|j: int| 0 <= j < before.len() implies #[trigger] before[j].1@ != key@ by {
                    assert(first_seen_keys(before).contains(before[j].1@));
                }
                lemma_members_at_absent(before, key@);
            }
            let mut group: Vec<InterfaceEntry> = Vec::new();
            group.push(iface);
            groups.push(group);
            keys.push(key);
            proof {
                assert forall|m: int| 0 <= m < groups@.len() implies
                    #[trigger] groups@[m]@ == members_at(after, first_seen_keys(after)[m]) by {
                    if m < old_groups.len() {
                        assert(groups@[m] == old_groups[m]);
                    } else {
                        assert(groups@[m]@ =~= seq![after.last().0]);
                    }
                }
            }
        }
        i = i + 1;
    }
    proof {
        assert(all.skip(i as int).len() == 0);
        assert(all.take(i as int) =~= all);
    }
    groups
}

/// The report ids recorded for `path`, or none if nothing was recorded.
pub open spec fn report_ids_for(report_ids_by_path: Map<Seq<char>, Vec<u8>>, path: Seq<char>) -> Seq<u8> {
    if report_ids_by_path.contains_key(path) {
        report_ids_by_path[path]@
    } else {
        Seq::empty()
    }
}

/// `interface` describes `entry`, with the report ids recorded for its path.
pub open spec fn describes(interface: Interface, entry: InterfaceEntry, report_ids_by_path: Map<Seq<char>, Vec<u8>>) -> bool {
    &&& interface.interface_number == entry.interface_number
    &&& interface.path@ == entry.path@
    &&& interface.usage_pairs@ == entry.usage_pairs@
    &&& interface.report_ids@ == report_ids_for(report_ids_by_path, entry.path@)
}

/// An optional string, with an empty one read as absent.
fn drop_empty(text: Option<String>) -> (r: Option<String>)
    ensures
        r == non_empty(text),
{
    match text {
        Some(t) => if t.as_str().is_empty() { None } else { Some(t) },
        None => None,
    }
}

/// Builds an [`Identity`] from one physical device's grouped interfaces:
/// the device-level fields come from the first interface (an empty
/// manufacturer, product or serial string read as absent), and each
/// interface keeps its own number, path and usage pairs, plus the report
/// ids `report_ids_by_path` records for its path (none if absent).
pub fn build_identity(group: Vec<InterfaceEntry>, report_ids_by_path: &PathMap<Vec<u8>>) -> (r: Identity)
    requires
        group@.len() > 0,
    ensures
        r.vendor_id == group@[0].vendor_id,
        r.product_id == group@[0].product_id,
        r.manufacturer == non_empty(group@[0].manufacturer_string),
        r.product == non_empty(group@[0].product_string),
        r.serial == non_empty(group@[0].serial_number),
        r.interfaces@.len() == group@.len(),
        forall|k: int| 0 <= k < group@.len() ==>
            describes(#[trigger] r.interfaces@[k], group@[k], report_ids_by_path.view()),
{
    let ghost all = group@;
    let n = group.len();
    let vendor_id = group[0].vendor_id;
    let product_id = group[0].product_id;
    let mut rest = group;
    let mut manufacturer: Option<String> = None;
    let mut product: Option<String> = None;
    let mut serial: Option<String> = None;
    let mut interfaces: Vec<Interface> = Vec::new();
    let mut i: usize = 0;
    proof {
        assert(rest@ =~= all.skip(0));
    }
    while rest.len() > 0
        invariant
            n == all.len(),
            all.len() > 0,
            i <= all.len(),
            rest@ == all.skip(i as int),
            interfaces@.len() == i,
            i > 0 ==> manufacturer == non_empty(all[0].manufacturer_string),
            i > 0 ==> product == non_empty(all[0].product_string),
            i > 0 ==> serial == non_empty(all[0].serial_number),
            forall|k: int| 0 <= k < i ==> describes(#[trigger] interfaces@[k], all[k], report_ids_by_path.view()),
        decreases rest@.len(),
    {
        proof {
            assert(all.skip(i as int).len() == all.len() - i);
            assert(rest@[0] == all[i as int]);
        }
        let entry = rest.remove(0);
        proof {
            assert(rest@ =~= all.skip(i + 1));
        }
        let report_ids = match report_ids_by_path.get(entry.path.as_str()) {
            Some(ids) => ids.clone(),
            None => Vec::new(),
        };
        proof {
            assert(report_ids@ =~= report_ids_for(report_ids_by_path.view(), entry.path@));
        }
        if i == 0 {
            manufacturer = drop_empty(entry.manufacturer_string);
            product = drop_empty(entry.product_string);
            serial = drop_empty(entry.serial_number);
        }
        interfaces.push(Interface {
            interface_number: entry.interface_number,
            path: entry.path,
            usage_pairs: entry.usage_pairs,
            report_ids,
        });
        i = i + 1;
    }
    Identity { vendor_id, product_id, manufacturer, product, serial, interfaces }
}

} // verus!
