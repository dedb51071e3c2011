//! Entries keyed by text, kept in the order their keys first arrived, with
//! each key at most once: the library's maps.
use vstd::prelude::*;

verus! {

/// Whether some entry of `s` has key `k`.
pub open spec fn assoc_has<V>(s: Seq<(Seq<char>, V)>, k: Seq<char>) -> bool {
    exists|i: int| 0 <= i < s.len() && s[i].0 == k
}

/// The position of an entry of `s` with key `k` (meaningful when there is
/// one).
pub open spec fn assoc_index<V>(s: Seq<(Seq<char>, V)>, k: Seq<char>) -> int {
    choose|i: int| 0 <= i < s.len() && s[i].0 == k
}

/// No two entries of `s` share a key.
pub open spec fn keys_unique<V>(s: Seq<(Seq<char>, V)>) -> bool {
    forall|i: int, j: int| 0 <= i < j < s.len() ==> s[i].0 != s[j].0
}

/// `s` with the value under `k` set to `v`: the entry keeps its place when
/// there is one, and a new entry goes last otherwise.
pub open spec fn assoc_put<V>(s: Seq<(Seq<char>, V)>, k: Seq<char>, v: V) -> Seq<(Seq<char>, V)> {
    if assoc_has(s, k) {
        s.update(assoc_index(s, k), (k, v))
    } else {
        s.push((k, v))
    }
}

/// `s` with `k` added last unless it is already there.
pub open spec fn set_added(s: Seq<Seq<char>>, k: Seq<char>) -> Seq<Seq<char>> {
    if s.contains(k) {
        s
    } else {
        s.push(k)
    }
}

/// Text-keyed entries viewed as (key, value).
pub open spec fn text_keyed<V>(v: Seq<(String, V)>) -> Seq<(Seq<char>, V)> {
    v.map_values(|e: (String, V)| (e.0@, e.1))
}

/// Sets the value under `key`: an entry with that key keeps its place and
/// takes the new value; otherwise a new entry goes last.
pub fn put_entry<V>(entries: &mut Vec<(String, V)>, key: String, value: V)
    requires
        keys_unique(text_keyed(old(entries)@)),
    ensures
        keys_unique(text_keyed(final(entries)@)),
        text_keyed(final(entries)@) == assoc_put(text_keyed(old(entries)@), key@, value),
{
    let ghost e0 = text_keyed(entries@);
    let n = entries.len();
    let mut j: usize = 0;
    while j < n
        invariant
            n == entries.len(),
            e0 == text_keyed(entries@),
            e0 == text_keyed(old(entries)@),
            keys_unique(e0),
            0 <= j <= n,
            forall|i: int| 0 <= i < j ==> e0[i].0 != key@,
        decreases n - j,
    {
        if entries[j].0 == key {
            proof {
                let k = assoc_index(e0, key@);
                assert(e0[j as int].0 == key@);
                assert(k == j) by {
                    if k != j {
                        assert(e0[k].0 == e0[j as int].0);
                    }
                }
            }
            entries.set(j, (key, value));
            proof {
                assert(text_keyed(entries@) =~= e0.update(j as int, (key@, value)));
                assert forall|a: int, b: int| 0 <= a < b < e0.len() implies text_keyed(entries@)[a].0 != text_keyed(entries@)[b].0 by {
                    assert(e0[a].0 != e0[b].0);
                }
            }
            return;
        }
        j = j + 1;
    }
    proof {
        assert(!assoc_has(e0, key@));
    }
    entries.push((key, value));
    proof {
        assert(text_keyed(entries@) =~= e0.push((key@, value)));
    }
}

/// The value under `key`, if there is one.
pub fn get_entry<'a, V>(entries: &'a Vec<(String, V)>, key: &str) -> (r: Option<&'a V>)
    requires
        keys_unique(text_keyed(entries@)),
    ensures
        r is None <==> !assoc_has(text_keyed(entries@), key@),
        r matches Some(v) ==> *v == text_keyed(entries@)[assoc_index(text_keyed(entries@), key@)].1,
{
    let ghost e0 = text_keyed(entries@);
    let target = crate::text::to_owned(key);
    let mut j: usize = 0;
    while j < entries.len()
        invariant
            e0 == text_keyed(entries@),
            keys_unique(e0),
            target@ == key@,
            0 <= j <= entries@.len(),
            forall|i: int| 0 <= i < j ==> e0[i].0 != key@,
        decreases entries@.len() - j,
    {
        if entries[j].0 == target {
            proof {
                let k = assoc_index(e0, key@);
                assert(e0[j as int].0 == key@);
                assert(k == j) by {
                    if k != j {
                        assert(e0[k].0 == e0[j as int].0);
                    }
                }
            }
            return Some(&entries[j].1);
        }
        j = j + 1;
    }
    None
}

/// Removes the entry under `key`, if any, keeping the others in order.
pub fn remove_entry<V>(entries: &mut Vec<(String, V)>, key: &str) -> (removed: bool)
    requires
        keys_unique(text_keyed(old(entries)@)),
    ensures
        keys_unique(text_keyed(final(entries)@)),
        removed == assoc_has(text_keyed(old(entries)@), key@),
        removed ==> text_keyed(final(entries)@) == text_keyed(old(entries)@).remove(
            assoc_index(text_keyed(old(entries)@), key@),
        ),
        !removed ==> final(entries)@ == old(entries)@,
{
    let ghost e0 = text_keyed(entries@);
    let target = crate::text::to_owned(key);
    let n = entries.len();
    let mut j: usize = 0;
    while j < n
        invariant
            n == entries.len(),
            e0 == text_keyed(entries@),
            e0 == text_keyed(old(entries)@),
            entries@ == old(entries)@,
            keys_unique(e0),
            target@ == key@,
            0 <= j <= n,
            forall|i: int| 0 <= i < j ==> e0[i].0 != key@,
        decreases n - j,
    {
        if entries[j].0 == target {
            proof {
                let k = assoc_index(e0, key@);
                assert(e0[j as int].0 == key@);
                assert(k == j) by {
                    if k != j {
                        assert(e0[k].0 == e0[j as int].0);
                    }
                }
            }
            entries.remove(j);
            proof {
                assert(text_keyed(entries@) =~= e0.remove(j as int));
                assert forall|a: int, b: int| 0 <= a < b < e0.len() - 1 implies text_keyed(entries@)[a].0 != text_keyed(entries@)[b].0 by {
                    let a0 = if a < j { a } else { a + 1 };
                    let b0 = if b < j { b } else { b + 1 };
                    assert(text_keyed(entries@)[a] == e0[a0]);
                    assert(text_keyed(entries@)[b] == e0[b0]);
                    assert(e0[a0].0 != e0[b0].0);
                }
            }
            return true;
        }
        j = j + 1;
    }
    false
}

} // verus!
