//! A small map keyed by interface path: what the discovery pipeline
//! learns about each path (its report ids, its topology key, its raw
//! report descriptor) without relying on hashing.

use vstd::prelude::*;
use crate::text::str_equal;

verus! {

/// No key occurs twice in `s`.
pub open spec fn keys_distinct<V>(s: Seq<(String, V)>) -> bool {
    forall|a: int, b: int| 0 <= a < s.len() && 0 <= b < s.len() && a != b ==>
        #[trigger] s[a].0@ != #[trigger] s[b].0@
}

/// The map that a list of (key, value) entries with distinct keys stands for.
pub open spec fn entries_view<V>(s: Seq<(String, V)>) -> Map<Seq<char>, V> {
    Map::new(
        |k: Seq<char>| exists|i: int| 0 <= i < s.len() && #[trigger] s[i].0@ == k,
        |k: Seq<char>| s[choose|i: int| 0 <= i < s.len() && #[trigger] s[i].0@ == k].1,
    )
}

/// Each entry is found under its own key.
pub proof fn lemma_entries_view_at<V>(s: Seq<(String, V)>, j: int)
    requires
        keys_distinct(s),
        0 <= j < s.len(),
    ensures
        entries_view(s).contains_key(s[j].0@),
        entries_view(s)[s[j].0@] == s[j].1,
{
    let k = s[j].0@;
    assert(exists|i: int| 0 <= i < s.len() && #[trigger] s[i].0@ == k);
    let w = choose|i: int| 0 <= i < s.len() && #[trigger] s[i].0@ == k;
    if w != j {
        assert(s[w].0@ != s[j].0@);
    }
}

/// The entry list with the one entry at `path` (if any) taken out.
pub open spec fn without_key<V>(old: Seq<(String, V)>, i: int) -> Seq<(String, V)> {
    if i < old.len() {
        old.remove(i)
    } else {
        old
    }
}

/// Where entry `j` of `without_key(old, i)` came from in `old`.
pub open spec fn source_index(old_len: int, i: int, j: int) -> int {
    if i < old_len && j >= i {
        j + 1
    } else {
        j
    }
}

/// Taking out the entry found at `path` and appending a new entry there
/// is a map insertion, and keeps the keys distinct.
pub proof fn lemma_view_replace<V>(old: Seq<(String, V)>, i: int, path: String, value: V)
    requires
        keys_distinct(old),
        0 <= i <= old.len(),
        forall|j: int| 0 <= j < i ==> #[trigger] old[j].0@ != path@,
        i < old.len() ==> old[i].0@ == path@,
    ensures
        keys_distinct(without_key(old, i).push((path, value))),
        entries_view(without_key(old, i).push((path, value))) == entries_view(old).insert(path@, value),
{
    let kept = without_key(old, i);
    let new = kept.push((path, value));
    assert forall|j: int| 0 <= j < kept.len() implies #[trigger] kept[j] == old[source_index(old.len() as int, i, j)]
        && old[source_index(old.len() as int, i, j)].0@ != path@ by {
        if i < old.len() && j >= i {
            assert(old[j + 1].0@ != old[i].0@);
        }
    }
    assert(keys_distinct(new)) by {
        assert forall|a: int, b: int| 0 <= a < new.len() && 0 <= b < new.len() && a != b implies
            #[trigger] new[a].0@ != #[trigger] new[b].0@ by {
            if a < kept.len() && b < kept.len() {
                assert(new[a] == kept[a] && new[b] == kept[b]);
                assert(kept[a] == old[source_index(old.len() as int, i, a)]);
                assert(kept[b] == old[source_index(old.len() as int, i, b)]);
            } else if a < kept.len() {
                assert(new[a] == kept[a]);
                assert(kept[a] == old[source_index(old.len() as int, i, a)]);
            } else {
                assert(new[b] == kept[b]);
                assert(kept[b] == old[source_index(old.len() as int, i, b)]);
            }
        }
    }
    let lhs = entries_view(new);
    let rhs = entries_view(old).insert(path@, value);
    assert forall|k: Seq<char>| lhs.contains_key(k) <==> rhs.contains_key(k) by {
        if k != path@ {
            if lhs.contains_key(k) {
                let j = choose|j: int| 0 <= j < new.len() && #[trigger] new[j].0@ == k;
                assert(j < kept.len());
                assert(new[j] == kept[j]);
                assert(kept[j] == old[source_index(old.len() as int, i, j)]);
            }
            if rhs.contains_key(k) {
                let m = choose|m: int| 0 <= m < old.len() && #[trigger] old[m].0@ == k;
                let j = if i < old.len() && m > i { m - 1 } else { m };
                assert(m != i || i >= old.len());
                assert(kept[j] == old[source_index(old.len() as int, i, j)]);
                assert(new[j] == kept[j]);
            }
        } else {
            assert(new[kept.len() as int].0@ == path@);
        }
    }
    assert forall|k: Seq<char>| #[trigger] lhs.contains_key(k) implies lhs[k] == rhs[k] by {
        if k == path@ {
            lemma_entries_view_at(new, kept.len() as int);
        } else {
            let j = choose|j: int| 0 <= j < new.len() && #[trigger] new[j].0@ == k;
            assert(j < kept.len());
            assert(new[j] == kept[j]);
            assert(kept[j] == old[source_index(old.len() as int, i, j)]);
            lemma_entries_view_at(new, j);
            lemma_entries_view_at(old, source_index(old.len() as int, i, j));
        }
    }
    assert(lhs =~= rhs);
}

/// A map from interface paths to values; each path appears at most once.
pub struct PathMap<V> {
    entries: Vec<(String, V)>,
}

impl<V> PathMap<V> {
    /// No path is stored twice.
    #[verifier::type_invariant]
    spec fn wf(self) -> bool {
        keys_distinct(self.entries@)
    }

    /// The paths stored, each with its value.
    pub closed spec fn view(self) -> Map<Seq<char>, V> {
        entries_view(self.entries@)
    }

    /// An empty map.
    pub fn new() -> (r: Self)
        ensures
            r.view() == Map::<Seq<char>, V>::empty(),
    {
        let r = PathMap { entries: Vec::new() };
        assert(r.view() =~= Map::<Seq<char>, V>::empty());
        r
    }

    /// Looks up `path`.
    pub fn get(&self, path: &str) -> (r: Option<&V>)
        ensures
            r is Some <==> self.view().contains_key(path@),
            r matches Some(v) ==> *v == self.view()[path@],
    {
        proof {
            use_type_invariant(self);
        }
        let mut i: usize = 0;
        while i < self.entries.len()
            invariant
                i <= self.entries@.len(),
                keys_distinct(self.entries@),
                forall|j: int| 0 <= j < i ==> #[trigger] self.entries@[j].0@ != path@,
            decreases self.entries@.len() - i,
        {
            if str_equal(self.entries[i].0.as_str(), path) {
                proof {
                    lemma_entries_view_at(self.entries@, i as int);
                }
                return Some(&self.entries[i].1);
            }
            i = i + 1;
        }
        None
    }

    /// Stores `value` under `path`, replacing any earlier value there.
    pub fn insert(&mut self, path: String, value: V)
        ensures
            final(self).view() == old(self).view().insert(path@, value),
    {
        proof {
            use_type_invariant(&*self);
        }
        let mut entries: Vec<(String, V)> = Vec::new();
        std::mem::swap(&mut entries, &mut self.entries);
        let ghost old_entries = entries@;
        assert(old_entries == old(self).entries@);
        let mut i: usize = 0;
        while i < entries.len()
            invariant
                i <= entries@.len(),
                entries@ == old_entries,
                forall|j: int| 0 <= j < i ==> #[trigger] entries@[j].0@ != path@,
            ensures
                i <= entries@.len(),
                entries@ == old_entries,
                forall|j: int| 0 <= j < i ==> #[trigger] entries@[j].0@ != path@,
                i < entries@.len() ==> entries@[i as int].0@ == path@,
            decreases entries@.len() - i,
        {
            if entries[i].0 == path {
                break;
            }
            i = i + 1;
        }
        if i < entries.len() {
            entries.remove(i);
        }
        proof {
            assert(entries@ == without_key(old_entries, i as int));
            lemma_view_replace(old_entries, i as int, path, value);
        }
        entries.push((path, value));
        self.entries = entries;
    }
}

} // verus!
