//! Maps kept as vectors of keyed entries: each key at most once, looked up by its characters.
//! A store holds its sessions, meters and tombstones this way; `as_map` is what they mean.

use vstd::prelude::*;
use vstd::pervasive::VecAdditionalExecFns;
use crate::text::str_eq;

verus! {

/// Whether some entry is keyed by `key`.
pub open spec fn keyed<V>(entries: Seq<(String, V)>, key: Seq<char>) -> bool {
    exists|i: int| 0 <= i < entries.len() && (#[trigger] entries[i]).0@ == key
}

/// No two entries share a key.
pub open spec fn unique_keys<V>(entries: Seq<(String, V)>) -> bool {
    forall|i: int, j: int|
        0 <= i < entries.len() && 0 <= j < entries.len() && (#[trigger] entries[i]).0@
            == (#[trigger] entries[j]).0@ ==> i == j
}

/// The position of the entry keyed by `key`, when there is one.
pub open spec fn key_index<V>(entries: Seq<(String, V)>, key: Seq<char>) -> int {
    choose|i: int| 0 <= i < entries.len() && (#[trigger] entries[i]).0@ == key
}

/// The map the entries spell out.
pub open spec fn as_map<V>(entries: Seq<(String, V)>) -> Map<Seq<char>, V> {
    Map::new(|k: Seq<char>| keyed(entries, k), |k: Seq<char>| entries[key_index(entries, k)].1)
}

/// A meter: the value kept under `key`, or zero when there is none.
pub open spec fn meter(entries: Seq<(String, u64)>, key: Seq<char>) -> u64 {
    if as_map(entries).contains_key(key) { as_map(entries)[key] } else { 0 }
}

/// With unique keys, the entry at `i` is what the map holds under its key.
pub proof fn lemma_entry<V>(entries: Seq<(String, V)>, i: int)
    requires
        unique_keys(entries),
        0 <= i < entries.len(),
    ensures
        as_map(entries).contains_key(entries[i].0@),
        as_map(entries)[entries[i].0@] == entries[i].1,
        key_index(entries, entries[i].0@) == i,
{
    assert(keyed(entries, entries[i].0@));
    let j = key_index(entries, entries[i].0@);
    assert(entries[j].0@ == entries[i].0@);
}

/// Replacing the value at `i` keeps the keys unique and replaces that key's value in the map.
pub proof fn lemma_update<V>(entries: Seq<(String, V)>, i: int, key: String, value: V)
    requires
        unique_keys(entries),
        0 <= i < entries.len(),
        key@ == entries[i].0@,
    ensures
        unique_keys(entries.update(i, (key, value))),
        as_map(entries.update(i, (key, value))) == as_map(entries).insert(key@, value),
{
    let next = entries.update(i, (key, value));
    assert forall|a: int, b: int|
        0 <= a < next.len() && 0 <= b < next.len() && (#[trigger] next[a]).0@ == (#[trigger] next[b]).0@ implies a == b by {
        assert(next[a].0@ == entries[a].0@);
        assert(next[b].0@ == entries[b].0@);
    }
    assert forall|k: Seq<char>| #[trigger] keyed(next, k) <==> keyed(entries, k) || k == entries[i].0@ by {
        if keyed(entries, k) {
            let j = key_index(entries, k);
            assert(next[j].0@ == k);
        }
        if keyed(next, k) {
            let j = key_index(next, k);
            assert(entries[j].0@ == k);
        }
        if k == entries[i].0@ {
            assert(next[i].0@ == k);
        }
    }
    assert forall|k: Seq<char>| keyed(next, k) implies #[trigger] as_map(next)[k] == as_map(entries).insert(entries[i].0@, value)[k] by {
        let j = key_index(next, k);
        lemma_entry(next, j);
        if j != i {
            assert(next[j] == entries[j]);
            lemma_entry(entries, j);
        }
    }
    assert(as_map(next) =~= as_map(entries).insert(entries[i].0@, value));
}

/// Appending an entry under a fresh key keeps the keys unique and adds the key to the map.
pub proof fn lemma_push<V>(entries: Seq<(String, V)>, key: String, value: V)
    requires
        unique_keys(entries),
        !keyed(entries, key@),
    ensures
        unique_keys(entries.push((key, value))),
        as_map(entries.push((key, value))) == as_map(entries).insert(key@, value),
{
    let next = entries.push((key, value));
    let n = entries.len() as int;
    assert forall|a: int, b: int|
        0 <= a < next.len() && 0 <= b < next.len() && (#[trigger] next[a]).0@ == (#[trigger] next[b]).0@ implies a == b by {
        if a < n && b < n {
            assert(next[a] == entries[a] && next[b] == entries[b]);
        } else if a < n {
            assert(next[a] == entries[a]);
            assert(entries[a].0@ == key@);
        } else if b < n {
            assert(next[b] == entries[b]);
            assert(entries[b].0@ == key@);
        }
    }
    assert forall|k: Seq<char>| #[trigger] keyed(next, k) <==> keyed(entries, k) || k == key@ by {
        if keyed(entries, k) {
            let j = key_index(entries, k);
            assert(next[j] == entries[j]);
        }
        if keyed(next, k) {
            let j = key_index(next, k);
            if j < n {
                assert(next[j] == entries[j]);
            }
        }
        if k == key@ {
            assert(next[n].0@ == k);
        }
    }
    assert forall|k: Seq<char>| keyed(next, k) implies #[trigger] as_map(next)[k] == as_map(entries).insert(key@, value)[k] by {
        let j = key_index(next, k);
        lemma_entry(next, j);
        if j < n {
            assert(next[j] == entries[j]);
            lemma_entry(entries, j);
        }
    }
    assert(as_map(next) =~= as_map(entries).insert(key@, value));
}

/// Removing the entry at `i` keeps the keys unique and removes its key from the map.
pub proof fn lemma_remove<V>(entries: Seq<(String, V)>, i: int)
    requires
        unique_keys(entries),
        0 <= i < entries.len(),
    ensures
        unique_keys(entries.remove(i)),
        as_map(entries.remove(i)) == as_map(entries).remove(entries[i].0@),
{
    let next = entries.remove(i);
    let old_of = |a: int| if a < i { a } else { a + 1 };
    assert forall|a: int| 0 <= a < next.len() implies #[trigger] next[a] == entries[old_of(a)] by {}
    assert forall|a: int, b: int|
        0 <= a < next.len() && 0 <= b < next.len() && (#[trigger] next[a]).0@ == (#[trigger] next[b]).0@ implies a == b by {
        assert(next[a] == entries[old_of(a)]);
        assert(next[b] == entries[old_of(b)]);
    }
    assert forall|k: Seq<char>| #[trigger] keyed(next, k) <==> keyed(entries, k) && k != entries[i].0@ by {
        if keyed(entries, k) && k != entries[i].0@ {
            let j = key_index(entries, k);
            assert(j != i);
            let a = if j < i { j } else { j - 1 };
            assert(next[a] == entries[old_of(a)]);
        }
        if keyed(next, k) {
            let a = key_index(next, k);
            assert(next[a] == entries[old_of(a)]);
            assert(old_of(a) != i);
        }
    }
    assert forall|k: Seq<char>| keyed(next, k) implies #[trigger] as_map(next)[k] == as_map(entries).remove(entries[i].0@)[k] by {
        let a = key_index(next, k);
        lemma_entry(next, a);
        assert(next[a] == entries[old_of(a)]);
        lemma_entry(entries, old_of(a));
    }
    assert(as_map(next) =~= as_map(entries).remove(entries[i].0@));
}

/// The position of the entry keyed by `key`.
pub fn find<V>(entries: &Vec<(String, V)>, key: &str) -> (r: Option<usize>)
    ensures
        match r {
            Some(i) => i < entries@.len() && entries@[i as int].0@ == key@,
            None => !keyed(entries@, key@),
        },
{
    let mut i: usize = 0;
    while i < entries.len()
        invariant
            i <= entries@.len(),
            forall|j: int| 0 <= j < i ==> (#[trigger] entries@[j]).0@ != key@,
        decreases entries.len() - i,
    {
        if str_eq(entries[i].0.as_str(), key) {
            return Some(i);
        }
        i = i + 1;
    }
    None
}

/// The meter kept under `key`, zero when there is none.
pub fn meter_value(entries: &Vec<(String, u64)>, key: &str) -> (r: u64)
    requires
        unique_keys(entries@),
    ensures
        r == meter(entries@, key@),
{
    match find(entries, key) {
        Some(i) => {
            proof {
                lemma_entry(entries@, i as int);
            }
            entries[i].1
        },
        None => 0,
    }
}

/// Keep `value` under `key`, replacing what was there.
pub fn upsert<V>(entries: &mut Vec<(String, V)>, key: String, value: V)
    requires
        unique_keys(old(entries)@),
    ensures
        unique_keys(final(entries)@),
        as_map(final(entries)@) == as_map(old(entries)@).insert(key@, value),
{
    match find(entries, key.as_str()) {
        Some(i) => {
            proof {
                lemma_update(entries@, i as int, key, value);
            }
            entries.set(i, (key, value));
        },
        None => {
            proof {
                lemma_push(entries@, key, value);
            }
            entries.push((key, value));
        },
    }
}

/// Drop the entry keyed by `key`, if there is one.
pub fn remove_key<V>(entries: &mut Vec<(String, V)>, key: &str)
    requires
        unique_keys(old(entries)@),
    ensures
        unique_keys(final(entries)@),
        as_map(final(entries)@) == as_map(old(entries)@).remove(key@),
{
    match find(entries, key) {
        Some(i) => {
            proof {
                lemma_remove(entries@, i as int);
            }
            let _ = entries.remove(i);
        },
        None => {
            assert(as_map(entries@) =~= as_map(entries@).remove(key@));
        },
    }
}

} // verus!
