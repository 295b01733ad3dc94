//! Maps from strings, kept as lists of entries.
use vstd::prelude::*;

use crate::text::same_text;

verus! {

/// The value of the first entry for `key`.
pub open spec fn lookup<T>(entries: Seq<(Seq<char>, T)>, key: Seq<char>) -> Option<T>
    decreases entries.len(),
{
    if entries.len() == 0 {
        None
    } else if entries[0].0 == key {
        Some(entries[0].1)
    } else {
        lookup(entries.skip(1), key)
    }
}

/// Whether no two entries have the same key.
pub open spec fn distinct_keys<T>(entries: Seq<(Seq<char>, T)>) -> bool {
    forall|i: int, j: int|
        0 <= i < j < entries.len() ==> (#[trigger] entries[i]).0 != (#[trigger] entries[j]).0
}

/// Whether there is an entry for `key`.
pub open spec fn has_key<T>(entries: Seq<(Seq<char>, T)>, key: Seq<char>) -> bool {
    exists|i: int| 0 <= i < entries.len() && (#[trigger] entries[i]).0 == key
}

/// The entries without those for `key`.
pub open spec fn without_key<T>(entries: Seq<(Seq<char>, T)>, key: Seq<char>) -> Seq<
    (Seq<char>, T),
>
    decreases entries.len(),
{
    if entries.len() == 0 {
        entries
    } else {
        let rest = without_key(entries.drop_last(), key);
        if entries.last().0 == key {
            rest
        } else {
            rest.push(entries.last())
        }
    }
}

/// The entries with `value` for `key`: in the place of the first entry for `key`, or at the end.
pub open spec fn with_entry<T>(entries: Seq<(Seq<char>, T)>, key: Seq<char>, value: T) -> Seq<
    (Seq<char>, T),
>
    decreases entries.len(),
{
    if entries.len() == 0 {
        seq![(key, value)]
    } else if entries[0].0 == key {
        entries.update(0, (key, value))
    } else {
        seq![entries[0]] + with_entry(entries.skip(1), key, value)
    }
}

// ---------------------------------------------------------------------------
// Laws
// ---------------------------------------------------------------------------

/// A lookup succeeds exactly for the keys that have an entry.
pub proof fn law_lookup_has_key<T>(entries: Seq<(Seq<char>, T)>, key: Seq<char>)
    ensures
        lookup(entries, key) is Some <==> has_key(entries, key),
    decreases entries.len(),
{
    if entries.len() > 0 {
        let rest = entries.skip(1);
        law_lookup_has_key(rest, key);
        if entries[0].0 == key {
            assert(has_key(entries, key));
        } else {
            if has_key(rest, key) {
                let i = choose|i: int| 0 <= i < rest.len() && (#[trigger] rest[i]).0 == key;
                assert(entries[i + 1].0 == key);
            }
            if has_key(entries, key) {
                let i = choose|i: int| 0 <= i < entries.len() && (#[trigger] entries[i]).0 == key;
                assert(rest[i - 1].0 == key);
            }
        }
    }
}

/// A lookup gives the value of the first entry for the key.
pub proof fn law_lookup_first<T>(entries: Seq<(Seq<char>, T)>, key: Seq<char>, i: int)
    requires
        0 <= i < entries.len(),
        entries[i].0 == key,
        forall|j: int| 0 <= j < i ==> (#[trigger] entries[j]).0 != key,
    ensures
        lookup(entries, key) == Some(entries[i].1),
    decreases entries.len(),
{
    if i > 0 {
        let rest = entries.skip(1);
        assert(entries[0].0 != key);
        assert forall|j: int| 0 <= j < i - 1 implies (#[trigger] rest[j]).0 != key by {
            assert(rest[j] == entries[j + 1]);
        }
        law_lookup_first(rest, key, i - 1);
    }
}

/// Where keys are distinct, looking up the key of an entry gives its value.
pub proof fn law_lookup_entry<T>(entries: Seq<(Seq<char>, T)>, i: int)
    requires
        distinct_keys(entries),
        0 <= i < entries.len(),
    ensures
        lookup(entries, entries[i].0) == Some(entries[i].1),
{
    law_lookup_first(entries, entries[i].0, i);
}

/// After an entry is set, its key has the new value and every other key what it had.
pub proof fn law_lookup_with_entry<T>(
    entries: Seq<(Seq<char>, T)>,
    key: Seq<char>,
    value: T,
    other: Seq<char>,
)
    ensures
        lookup(with_entry(entries, key, value), other) == (if other == key {
            Some(value)
        } else {
            lookup(entries, other)
        }),
    decreases entries.len(),
{
    reveal_with_fuel(lookup, 2);
    let after = with_entry(entries, key, value);
    if entries.len() == 0 {
        assert(after.skip(1) =~= Seq::empty());
    } else if entries[0].0 == key {
        assert(after.skip(1) =~= entries.skip(1));
    } else {
        law_lookup_with_entry(entries.skip(1), key, value, other);
        assert(after.skip(1) =~= with_entry(entries.skip(1), key, value));
    }
}

/// After a key is removed it has no value, and every other key has what it had.
pub proof fn law_lookup_without_key<T>(
    entries: Seq<(Seq<char>, T)>,
    key: Seq<char>,
    other: Seq<char>,
)
    ensures
        lookup(without_key(entries, key), other) == (if other == key {
            None
        } else {
            lookup(entries, other)
        }),
    decreases entries.len(),
{
    if entries.len() > 0 {
        law_lookup_without_key(entries.drop_last(), key, other);
        lemma_lookup_push(entries.drop_last(), entries.last(), other);
        assert(entries.drop_last().push(entries.last()) =~= entries);
        lemma_lookup_push(without_key(entries.drop_last(), key), entries.last(), other);
    }
}

/// A new last entry is found only where no earlier entry is.
pub proof fn lemma_lookup_push<T>(
    entries: Seq<(Seq<char>, T)>,
    entry: (Seq<char>, T),
    key: Seq<char>,
)
    ensures
        lookup(entries.push(entry), key) == (match lookup(entries, key) {
            Some(value) => Some(value),
            None => if entry.0 == key {
                Some(entry.1)
            } else {
                None
            },
        }),
    decreases entries.len(),
{
    reveal_with_fuel(lookup, 2);
    if entries.len() == 0 {
        assert(entries.push(entry).skip(1) =~= Seq::empty());
    } else {
        lemma_lookup_push(entries.skip(1), entry, key);
        assert(entries.push(entry).skip(1) =~= entries.skip(1).push(entry));
    }
}

/// Setting an entry adds no key but its own.
pub proof fn lemma_with_entry_keys<T>(
    entries: Seq<(Seq<char>, T)>,
    key: Seq<char>,
    value: T,
    other: Seq<char>,
)
    ensures
        has_key(with_entry(entries, key, value), other) <==> has_key(entries, other) || other == key,
{
    law_lookup_with_entry(entries, key, value, other);
    law_lookup_has_key(with_entry(entries, key, value), other);
    law_lookup_has_key(entries, other);
}

/// Setting an entry keeps keys distinct.
pub proof fn lemma_with_entry_distinct<T>(entries: Seq<(Seq<char>, T)>, key: Seq<char>, value: T)
    requires
        distinct_keys(entries),
    ensures
        distinct_keys(with_entry(entries, key, value)),
    decreases entries.len(),
{
    let after = with_entry(entries, key, value);
    if entries.len() > 0 && entries[0].0 != key {
        let rest = entries.skip(1);
        assert(distinct_keys(rest)) by {
            assert forall|i: int, j: int| 0 <= i < j < rest.len() implies (#[trigger] rest[i]).0
                != (#[trigger] rest[j]).0 by {
                assert(rest[i] == entries[i + 1] && rest[j] == entries[j + 1]);
            }
        }
        lemma_with_entry_distinct(rest, key, value);
        let tail = with_entry(rest, key, value);
        assert forall|i: int, j: int| 0 <= i < j < after.len() implies (#[trigger] after[i]).0 != (
        #[trigger] after[j]).0 by {
            assert(after[j] == tail[j - 1]);
            if i == 0 {
                assert(has_key(tail, tail[j - 1].0));
                lemma_with_entry_keys(rest, key, value, tail[j - 1].0);
                if tail[j - 1].0 == entries[0].0 {
                    assert(has_key(rest, entries[0].0));
                    let k = choose|k: int| 0 <= k < rest.len() && (#[trigger] rest[k]).0
                        == entries[0].0;
                    assert(entries[k + 1].0 == entries[0].0);
                }
            } else {
                assert(after[i] == tail[i - 1]);
            }
        }
    }
}

/// Removing a key keeps keys distinct.
pub proof fn lemma_without_key_distinct<T>(entries: Seq<(Seq<char>, T)>, key: Seq<char>)
    requires
        distinct_keys(entries),
    ensures
        distinct_keys(without_key(entries, key)),
        forall|i: int|
            0 <= i < without_key(entries, key).len() ==> entries.contains(
                #[trigger] without_key(entries, key)[i],
            ),
    decreases entries.len(),
{
    if entries.len() > 0 {
        let head = entries.drop_last();
        lemma_without_key_distinct(head, key);
        let kept = without_key(head, key);
        let now = without_key(entries, key);
        assert forall|i: int| 0 <= i < now.len() implies entries.contains(#[trigger] now[i]) by {
            if i < kept.len() {
                assert(head.contains(kept[i]));
                let k = choose|k: int| 0 <= k < head.len() && head[k] == kept[i];
                assert(entries[k] == now[i]);
            } else {
                assert(entries[entries.len() - 1] == now[i]);
            }
        }
        assert forall|i: int, j: int| 0 <= i < j < now.len() implies (#[trigger] now[i]).0 != (
        #[trigger] now[j]).0 by {
            if j == kept.len() {
                assert(head.contains(kept[i]));
                let k = choose|k: int| 0 <= k < head.len() && head[k] == kept[i];
                assert(entries[k] == kept[i]);
                assert(entries[k].0 != entries[entries.len() - 1].0);
            }
        }
    }
}

// ---------------------------------------------------------------------------
// Functions
// ---------------------------------------------------------------------------

/// The position of the first entry for `key`.
pub fn position_of<T: DeepView>(entries: &Vec<(String, T)>, key: &str) -> (found: Option<usize>)
    ensures
        found is None <==> lookup(entries.deep_view(), key@) is None,
        found matches Some(i) ==> i < entries@.len() && entries@[i as int].0@ == key@ && lookup(
            entries.deep_view(),
            key@,
        ) == Some(entries@[i as int].1.deep_view()) && forall|j: int|
            0 <= j < i ==> (#[trigger] entries@[j]).0@ != key@,
{
    let mut i: usize = 0;
    let ghost all = entries.deep_view();
    assert(all.skip(0) =~= all);
    while i < entries.len()
        invariant
            i <= entries@.len(),
            all == entries.deep_view(),
            lookup(all, key@) == lookup(all.skip(i as int), key@),
            forall|j: int| 0 <= j < i ==> (#[trigger] entries@[j]).0@ != key@,
        decreases entries@.len() - i,
    {
        assert(all.skip(i as int)[0] == all[i as int]);
        assert(all.skip(i as int).skip(1) =~= all.skip(i + 1));
        if same_text(entries[i].0.as_str(), key) {
            return Some(i);
        }
        i = i + 1;
    }
    None
}

/// The value for `key`.
pub fn get<'a, T: DeepView>(entries: &'a Vec<(String, T)>, key: &str) -> (value: Option<&'a T>)
    ensures
        value.deep_view() == lookup(entries.deep_view(), key@),
        value matches Some(v) ==> exists|i: int|
            0 <= i < entries@.len() && (#[trigger] entries@[i]).1 == *v,
{
    match position_of(entries, key) {
        Some(i) => {
            assert(entries@[i as int].1 == entries@[i as int].1);
            Some(&entries[i].1)
        },
        None => None,
    }
}

proof fn lemma_with_entry_at<T>(
    entries: Seq<(Seq<char>, T)>,
    key: Seq<char>,
    value: T,
    i: int,
)
    requires
        0 <= i <= entries.len(),
        i < entries.len() ==> entries[i].0 == key,
        forall|j: int| 0 <= j < i ==> (#[trigger] entries[j]).0 != key,
    ensures
        i < entries.len() ==> with_entry(entries, key, value) == entries.update(i, (key, value)),
        i == entries.len() ==> with_entry(entries, key, value) == entries.push((key, value)),
    decreases entries.len(),
{
    if i == 0 {
        if entries.len() == 0 {
            assert(entries.push((key, value)) =~= seq![(key, value)]);
        }
    } else {
        let rest = entries.skip(1);
        assert forall|j: int| 0 <= j < i - 1 implies (#[trigger] rest[j]).0 != key by {
            assert(rest[j] == entries[j + 1]);
        }
        assert(entries[0].0 != key);
        lemma_with_entry_at(rest, key, value, i - 1);
        if i < entries.len() {
            assert(seq![entries[0]] + rest.update(i - 1, (key, value)) =~= entries.update(
                i,
                (key, value),
            ));
        } else {
            assert(seq![entries[0]] + rest.push((key, value)) =~= entries.push((key, value)));
        }
    }
}

/// Sets the value for `key`.
pub fn put<T: DeepView>(entries: &mut Vec<(String, T)>, key: String, value: T)
    ensures
        final(entries).deep_view() == with_entry(old(entries).deep_view(), key@, value.deep_view()),
{
    let ghost all = entries.deep_view();
    let ghost model = (key@, value.deep_view());
    match position_of(entries, key.as_str()) {
        Some(i) => {
            proof {
                assert forall|j: int| 0 <= j < i implies (#[trigger] all[j]).0 != key@ by {
                    assert(entries@[j].0@ != key@);
                }
                lemma_with_entry_at(all, key@, value.deep_view(), i as int);
            }
            entries[i] = (key, value);
            assert(entries.deep_view() =~= all.update(i as int, model));
        },
        None => {
            proof {
                law_lookup_has_key(all, key@);
                assert forall|j: int| 0 <= j < all.len() implies (#[trigger] all[j]).0 != key@ by {
                    if all[j].0 == key@ {
                        assert(has_key(all, key@));
                    }
                }
                lemma_with_entry_at(all, key@, value.deep_view(), all.len() as int);
            }
            entries.push((key, value));
            assert(entries.deep_view() =~= all.push(model));
        },
    }
}

/// Takes the value for `key` out: the value, and the entries for other keys.
pub fn take<T: DeepView>(entries: Vec<(String, T)>, key: &str) -> (r: (
    Option<T>,
    Vec<(String, T)>,
))
    ensures
        r.0.deep_view() == lookup(entries.deep_view(), key@),
        r.1.deep_view() == without_key(entries.deep_view(), key@),
{
    let mut value: Option<T> = None;
    let mut rest: Vec<(String, T)> = Vec::new();
    let ghost all = entries.deep_view();
    for entry in it: entries
        invariant
            it.seq() == entries@,
            all == entries.deep_view(),
            value.deep_view() == lookup(all.take(it.index()), key@),
            rest.deep_view() == without_key(all.take(it.index()), key@),
    {
        let ghost head = all.take(it.index());
        let ghost model = all[it.index()];
        assert(all.take(it.index() + 1) =~= head.push(model));
        assert(head.push(model).drop_last() =~= head);
        proof {
            lemma_lookup_push(head, model, key@);
        }
        let (name, item) = entry;
        if same_text(name.as_str(), key) {
            if value.is_none() {
                value = Some(item);
            }
        } else {
            let ghost old_rest = rest.deep_view();
            rest.push((name, item));
            assert(rest.deep_view() =~= old_rest.push(model));
        }
    }
    assert(all.take(all.len() as int) =~= all);
    (value, rest)
}

/// Setting an entry changes the value of the first entry for the key in its place, and adds an entry
/// at the end where there is none; every other entry stays where it is.
pub proof fn law_entry_is_set_in_its_place<T>(
    entries: Seq<(Seq<char>, T)>,
    key: Seq<char>,
    value: T,
    i: int,
)
    requires
        0 <= i <= entries.len(),
        i < entries.len() ==> entries[i].0 == key,
        forall|j: int| 0 <= j < i ==> (#[trigger] entries[j]).0 != key,
    ensures
        i < entries.len() ==> with_entry(entries, key, value) == entries.update(i, (key, value)),
        i == entries.len() ==> with_entry(entries, key, value) == entries.push((key, value)),
{
    lemma_with_entry_at(entries, key, value, i);
}

/// Removing a key leaves the other entries, in their order.
pub proof fn law_other_entries_stay<T>(
    left: Seq<(Seq<char>, T)>,
    right: Seq<(Seq<char>, T)>,
    entry: (Seq<char>, T),
    key: Seq<char>,
)
    ensures
        without_key(left + right, key) == without_key(left, key) + without_key(right, key),
        without_key(Seq::<(Seq<char>, T)>::empty(), key).len() == 0,
        entry.0 != key ==> without_key(seq![entry], key) == seq![entry],
        entry.0 == key ==> without_key(seq![entry], key).len() == 0,
    decreases right.len(),
{
    let one = seq![entry];
    assert(one.drop_last() =~= Seq::empty());
    assert(one.last() == entry);
    assert(without_key(one.drop_last(), key) =~= Seq::empty());
    if entry.0 != key {
        assert(without_key(one, key) =~= one);
    }
    if right.len() == 0 {
        assert(left + right =~= left);
        assert(without_key(left, key) + without_key(right, key) =~= without_key(left, key));
    } else {
        let init = right.drop_last();
        law_other_entries_stay(left, init, entry, key);
        assert((left + right).drop_last() =~= left + init);
        assert((left + right).last() == right.last());
        assert(without_key(left + right, key) =~= without_key(left, key) + without_key(right, key));
    }
}

} // verus!
