//! Maps from string keys to values, kept as a list of entries with distinct keys,
//! in the order in which the keys were first inserted.

use vstd::prelude::*;
use crate::text::str_eq;

verus! {

/// No two entries have the same key.
pub open spec fn keys_distinct<V>(s: Seq<(String, V)>) -> bool {
    forall|i: int, j: int| 0 <= i < j < s.len() ==> #[trigger] s[i].0@ != #[trigger] s[j].0@
}

/// The map the entries stand for.
pub open spec fn entries_map<V>(s: Seq<(String, V)>) -> Map<Seq<char>, V>
    decreases s.len(),
{
    if s.len() == 0 {
        Map::empty()
    } else {
        entries_map(s.drop_last()).insert(s.last().0@, s.last().1)
    }
}

/// The map holds exactly the keys of the entries, each with its entry's value.
pub proof fn lemma_entries_map<V>(s: Seq<(String, V)>)
    requires
        keys_distinct(s),
    ensures
        forall|k: Seq<char>|
            entries_map(s).contains_key(k) <==> exists|i: int| 0 <= i < s.len() && #[trigger] s[i].0@ == k,
        forall|i: int| 0 <= i < s.len() ==> entries_map(s)[#[trigger] s[i].0@] == s[i].1,
    decreases s.len(),
{
    if s.len() > 0 {
        let front = s.drop_last();
        assert(keys_distinct(front)) by {
            assert forall|i: int, j: int| 0 <= i < j < front.len() implies #[trigger] front[i].0@
                != #[trigger] front[j].0@ by {
                assert(front[i] == s[i] && front[j] == s[j]);
            }
        }
        lemma_entries_map(front);
        assert forall|k: Seq<char>| entries_map(s).contains_key(k) <==> exists|i: int|
            0 <= i < s.len() && #[trigger] s[i].0@ == k by {
            if entries_map(s).contains_key(k) {
                if k == s.last().0@ {
                    assert(s[s.len() - 1].0@ == k);
                } else {
                    assert(entries_map(front).contains_key(k));
                    let i = choose|i: int| 0 <= i < front.len() && #[trigger] front[i].0@ == k;
                    assert(front[i] == s[i]);
                    assert(s[i].0@ == k);
                }
            }
            if exists|i: int| 0 <= i < s.len() && #[trigger] s[i].0@ == k {
                let i = choose|i: int| 0 <= i < s.len() && #[trigger] s[i].0@ == k;
                if i < s.len() - 1 {
                    assert(front[i] == s[i]);
                    assert(front[i].0@ == k);
                    assert(entries_map(front).contains_key(k));
                }
            }
        }
        assert forall|i: int| 0 <= i < s.len() implies entries_map(s)[#[trigger] s[i].0@]
            == s[i].1 by {
            if i < s.len() - 1 {
                assert(front[i] == s[i]);
                assert(s[i].0@ != s[s.len() - 1].0@);
            }
        }
    }
}

/// The position of the entry with key `key`, if there is one.
pub fn find_entry<V>(s: &Vec<(String, V)>, key: &str) -> (r: Option<usize>)
    ensures
        match r {
            Some(i) => i < s@.len() && s@[i as int].0@ == key@,
            None => forall|i: int| 0 <= i < s@.len() ==> #[trigger] s@[i].0@ != key@,
        },
{
    let mut i: usize = 0;
    while i < s.len()
        invariant
            i <= s@.len(),
            forall|j: int| 0 <= j < i ==> #[trigger] s@[j].0@ != key@,
        decreases s@.len() - i,
    {
        if str_eq(s[i].0.as_str(), key) {
            return Some(i);
        }
        i = i + 1;
    }
    None
}

/// The position of the entry with key `key`, if there is one.
pub open spec fn key_index<V>(s: Seq<(String, V)>, key: Seq<char>) -> Option<int> {
    if exists|i: int| 0 <= i < s.len() && #[trigger] s[i].0@ == key {
        Some(choose|i: int| 0 <= i < s.len() && #[trigger] s[i].0@ == key)
    } else {
        None
    }
}

/// Inserts `value` under `key`: the entry with that key gets the new value in its
/// place, or a new entry comes last. Returns the value the key had before.
pub fn insert_entry<V>(s: &mut Vec<(String, V)>, key: String, value: V) -> (previous: Option<V>)
    requires
        keys_distinct(old(s)@),
    ensures
        keys_distinct(final(s)@),
        final(s)@ == match key_index(old(s)@, key@) {
            Some(i) => old(s)@.update(i, (key, value)),
            None => old(s)@.push((key, value)),
        },
        entries_map(final(s)@) == entries_map(old(s)@).insert(key@, value),
        previous == (if entries_map(old(s)@).contains_key(key@) {
            Some(entries_map(old(s)@)[key@])
        } else {
            None
        }),
{
    proof {
        lemma_entries_map(old(s)@);
    }
    match find_entry(s, key.as_str()) {
        Some(i) => {
            let ghost before = s@;
            let (_, previous) = s.remove(i);
            s.insert(i, (key, value));
            let ghost after = s@;
            assert(after =~= before.update(i as int, (key, value)));
            proof {
                assert(before[i as int].0@ == key@);
                let j = choose|j: int| 0 <= j < before.len() && #[trigger] before[j].0@ == key@;
                if j < i {
                    assert(before[j].0@ != before[i as int].0@);
                } else if j > i {
                    assert(before[i as int].0@ != before[j].0@);
                }
                assert(key_index(before, key@) == Some(i as int));
            }
            assert(keys_distinct(after)) by {
                assert forall|a: int, b: int| 0 <= a < b < after.len() implies #[trigger] after[a].0@
                    != #[trigger] after[b].0@ by {
                    if a != i && b != i {
                        assert(after[a] == before[a] && after[b] == before[b]);
                    } else if a == i {
                        assert(after[b] == before[b]);
                        assert(before[a].0@ != before[b].0@);
                    } else {
                        assert(after[a] == before[a]);
                        assert(before[a].0@ != before[b].0@);
                    }
                }
            }
            proof {
                lemma_entries_map(after);
                let m1 = entries_map(after);
                let m2 = entries_map(before).insert(key@, value);
                assert forall|k: Seq<char>| m1.contains_key(k) <==> m2.contains_key(k) by {
                    if m2.contains_key(k) {
                        if k == key@ {
                            assert(after[i as int].0@ == k);
                        } else {
                            assert(entries_map(before).contains_key(k));
                            let j = choose|j: int| 0 <= j < before.len() && #[trigger] before[j].0@
                                == k;
                            assert(j != i);
                            assert(after[j] == before[j]);
                            assert(after[j].0@ == k);
                        }
                    }
                    if m1.contains_key(k) {
                        let j = choose|j: int| 0 <= j < after.len() && #[trigger] after[j].0@ == k;
                        if j != i {
                            assert(before[j] == after[j]);
                            assert(before[j].0@ == k);
                        }
                    }
                }
                assert forall|k: Seq<char>| m1.contains_key(k) implies m1[k] == m2[k] by {
                    let j = choose|j: int| 0 <= j < after.len() && #[trigger] after[j].0@ == k;
                    if j != i {
                        assert(before[j] == after[j]);
                    }
                }
                assert(m1 =~= m2);
            }
            Some(previous)
        },
        None => {
            let ghost before = s@;
            s.push((key, value));
            assert(s@.drop_last() =~= before);
            assert(keys_distinct(s@)) by {
                assert forall|a: int, b: int| 0 <= a < b < s@.len() implies #[trigger] s@[a].0@
                    != #[trigger] s@[b].0@ by {
                    assert(s@[a] == before[a]);
                    if b < before.len() {
                        assert(s@[b] == before[b]);
                    }
                }
            }
            None
        },
    }
}

} // verus!
