//! Finding the first item of a sequence that has a property.

use vstd::prelude::*;

verus! {

/// The position of the first item of `s` at or after `from` that satisfies
/// `wanted`, if there is one.
pub open spec fn first_from<T>(s: Seq<T>, wanted: spec_fn(T) -> bool, from: int) -> Option<int>
    decreases s.len() - from,
{
    if from < 0 || from >= s.len() {
        None
    } else if wanted(s[from]) {
        Some(from)
    } else {
        first_from(s, wanted, from + 1)
    }
}

/// The position of the first item of `s` that satisfies `wanted`, if there is one.
pub open spec fn first_index<T>(s: Seq<T>, wanted: spec_fn(T) -> bool) -> Option<int> {
    first_from(s, wanted, 0)
}

/// The position of the first pair of `entries` under `key`, if there is one.
pub open spec fn key_index<V>(entries: Seq<(Seq<char>, V)>, key: Seq<char>) -> Option<int> {
    first_index(entries, is_under(key))
}

/// The property of a pair of being under `key`.
pub open spec fn is_under<V>(key: Seq<char>) -> spec_fn((Seq<char>, V)) -> bool {
    |e: (Seq<char>, V)| e.0 == key
}

/// What the first position is: it satisfies the property and none before it
/// does; there is none exactly if no item satisfies the property.
pub proof fn lemma_first_from<T>(s: Seq<T>, wanted: spec_fn(T) -> bool, from: int)
    requires
        0 <= from <= s.len(),
    ensures
        match first_from(s, wanted, from) {
            Some(i) => from <= i < s.len() && wanted(s[i]) && forall|j: int|
                from <= j < i ==> !wanted(#[trigger] s[j]),
            None => forall|j: int| from <= j < s.len() ==> !wanted(#[trigger] s[j]),
        },
    decreases s.len() - from,
{
    if from < s.len() && !wanted(s[from]) {
        lemma_first_from(s, wanted, from + 1);
    }
}

/// A position that satisfies the property, with none before it that does, is
/// the first position.
pub proof fn lemma_first_from_is<T>(s: Seq<T>, wanted: spec_fn(T) -> bool, from: int, i: int)
    requires
        0 <= from <= i < s.len(),
        wanted(s[i]),
        forall|j: int| from <= j < i ==> !wanted(#[trigger] s[j]),
    ensures
        first_from(s, wanted, from) == Some(i),
    decreases i - from,
{
    if from < i {
        lemma_first_from_is(s, wanted, from + 1, i);
    }
}

/// Where no item satisfies the property, there is no first position.
pub proof fn lemma_first_from_none<T>(s: Seq<T>, wanted: spec_fn(T) -> bool, from: int)
    requires
        0 <= from <= s.len(),
        forall|j: int| from <= j < s.len() ==> !wanted(#[trigger] s[j]),
    ensures
        first_from(s, wanted, from) is None,
    decreases s.len() - from,
{
    if from < s.len() {
        lemma_first_from_none(s, wanted, from + 1);
    }
}

/// What the position of a key is: the pair there is under the key and none
/// before it is; there is none exactly if no pair is under the key.
pub proof fn lemma_key_index<V>(entries: Seq<(Seq<char>, V)>, key: Seq<char>)
    ensures
        match key_index(entries, key) {
            Some(i) => 0 <= i < entries.len() && entries[i].0 == key && forall|j: int|
                0 <= j < i ==> (#[trigger] entries[j]).0 != key,
            None => forall|j: int| 0 <= j < entries.len() ==> (#[trigger] entries[j]).0 != key,
        },
{
    lemma_first_from(entries, is_under::<V>(key), 0);
}

/// A pair under the key, with none before it that is, is at the position of
/// the key.
pub proof fn lemma_key_index_is<V>(entries: Seq<(Seq<char>, V)>, key: Seq<char>, i: int)
    requires
        0 <= i < entries.len(),
        entries[i].0 == key,
        forall|j: int| 0 <= j < i ==> (#[trigger] entries[j]).0 != key,
    ensures
        key_index(entries, key) == Some(i),
{
    lemma_first_from_is(entries, is_under::<V>(key), 0, i);
}

/// Where no pair is under the key, the key has no position.
pub proof fn lemma_key_index_none<V>(entries: Seq<(Seq<char>, V)>, key: Seq<char>)
    requires
        forall|j: int| 0 <= j < entries.len() ==> (#[trigger] entries[j]).0 != key,
    ensures
        key_index(entries, key) is None,
{
    lemma_first_from_none(entries, is_under::<V>(key), 0);
}

} // verus!
