//! The named children of a node as a list: finding, setting and taking out
//! a name.

use crate::value::{distinct_names, entries_view, Entries, Value, ValueView};
use vstd::prelude::*;

verus! {

/// Some entry carries the name.
pub open spec fn has_name(entries: Entries, name: Seq<char>) -> bool {
    exists|i: int| 0 <= i < entries.len() && (#[trigger] entries[i]).0 == name
}

/// Entry `i` carries the name and no entry before it does.
pub open spec fn is_first(entries: Entries, name: Seq<char>, i: int) -> bool {
    &&& 0 <= i < entries.len()
    &&& entries[i].0 == name
    &&& forall|j: int| 0 <= j < i ==> (#[trigger] entries[j]).0 != name
}

/// The index of the first entry that carries the name, where there is one.
pub open spec fn first_index(entries: Entries, name: Seq<char>) -> int {
    choose|i: int| is_first(entries, name, i)
}

/// The child found under the name: that of the first entry that carries it.
pub open spec fn lookup(entries: Entries, name: Seq<char>) -> Option<ValueView> {
    if has_name(entries, name) {
        Some(entries[first_index(entries, name)].1)
    } else {
        None
    }
}

/// The entries with the child under `name` set to `child`: in place where the
/// name is listed, as a new last entry where it is not.
pub open spec fn put(entries: Entries, name: Seq<char>, child: ValueView) -> Entries {
    if has_name(entries, name) {
        entries.update(first_index(entries, name), (name, child))
    } else {
        entries.push((name, child))
    }
}

/// The test that an entry carries another name than `name`.
pub open spec fn named_otherwise(name: Seq<char>) -> spec_fn((Seq<char>, ValueView)) -> bool {
    |e: (Seq<char>, ValueView)| e.0 != name
}

/// The entries that do not carry the name, in their order.
pub open spec fn without(entries: Entries, name: Seq<char>) -> Entries {
    entries.filter(named_otherwise(name))
}

/// Where entry `i` carries the name, some entry is the first to carry it.
pub proof fn lemma_first_exists(entries: Entries, name: Seq<char>, i: int)
    requires
        0 <= i < entries.len(),
        entries[i].0 == name,
    ensures
        has_name(entries, name),
        is_first(entries, name, first_index(entries, name)),
        first_index(entries, name) <= i,
    decreases i,
{
    if exists|j: int| 0 <= j < i && (#[trigger] entries[j]).0 == name {
        let j = choose|j: int| 0 <= j < i && (#[trigger] entries[j]).0 == name;
        lemma_first_exists(entries, name, j);
    } else {
        assert(is_first(entries, name, i));
    }
}

/// A first entry is the first entry.
pub proof fn lemma_first_unique(entries: Entries, name: Seq<char>, i: int)
    requires
        is_first(entries, name, i),
    ensures
        has_name(entries, name),
        first_index(entries, name) == i,
{
}

/// A filter that keeps every item changes nothing.
pub proof fn lemma_keep_all<A>(items: Seq<A>, keep: spec_fn(A) -> bool)
    requires
        forall|i: int| 0 <= i < items.len() ==> keep(#[trigger] items[i]),
    ensures
        items.filter(keep) == items,
    decreases items.len(),
{
    reveal(Seq::filter);
    if items.len() > 0 {
        lemma_keep_all(items.drop_last(), keep);
    }
}

/// Taking out an item that a filter drops does not change what it keeps.
pub proof fn lemma_drop_one<A>(items: Seq<A>, keep: spec_fn(A) -> bool, i: int)
    requires
        0 <= i < items.len(),
        !keep(items[i]),
    ensures
        items.remove(i).filter(keep) == items.filter(keep),
{
    let front = items.take(i);
    let back = items.skip(i + 1);
    let one = seq![items[i]];
    assert(items =~= front + one + back);
    assert(one.filter(keep) =~= Seq::empty()) by {
        reveal_with_fuel(Seq::filter, 2);
    }
}

/// In a list of distinct names, taking out a name takes out the one entry
/// that carries it.
pub proof fn lemma_without_distinct(entries: Entries, name: Seq<char>, i: int)
    requires
        distinct_names(entries),
        0 <= i < entries.len(),
        entries[i].0 == name,
    ensures
        without(entries, name) == entries.remove(i),
{
    let keep = named_otherwise(name);
    let rest = entries.remove(i);
    lemma_drop_one(entries, keep, i);
    assert forall|k: int| 0 <= k < rest.len() implies keep(#[trigger] rest[k]) by {
        if k < i {
            assert(rest[k] == entries[k]);
        } else {
            assert(rest[k] == entries[k + 1]);
        }
    }
    lemma_keep_all(rest, keep);
}

/// What is found in a list with one more entry at its end: what was found
/// before, or the new entry where the name was not listed.
pub proof fn lemma_lookup_push(entries: Entries, last: (Seq<char>, ValueView), name: Seq<char>)
    ensures
        lookup(entries.push(last), name) == if has_name(entries, name) {
            lookup(entries, name)
        } else if last.0 == name {
            Some(last.1)
        } else {
            None
        },
{
    let longer = entries.push(last);
    if has_name(entries, name) {
        let i = choose|i: int| 0 <= i < entries.len() && (#[trigger] entries[i]).0 == name;
        lemma_first_exists(entries, name, i);
        let first = first_index(entries, name);
        assert(is_first(longer, name, first));
    } else if last.0 == name {
        assert(is_first(longer, name, entries.len() as int));
    }
}

/// Taking out one name does not change what is found under another.
pub proof fn lemma_lookup_without(entries: Entries, name: Seq<char>, other: Seq<char>)
    requires
        other != name,
    ensures
        lookup(without(entries, name), other) == lookup(entries, other),
        has_name(without(entries, name), other) == has_name(entries, other),
    decreases entries.len(),
{
    reveal(Seq::filter);
    if entries.len() > 0 {
        let init = entries.drop_last();
        let last = entries.last();
        assert(init.push(last) =~= entries);
        lemma_lookup_without(init, name, other);
        lemma_lookup_push(init, last, other);
        if last.0 != name {
            lemma_lookup_push(without(init, name), last, other);
        }
    }
}

/// Setting one name does not change what is found under another.
pub proof fn lemma_lookup_put(
    entries: Entries,
    name: Seq<char>,
    child: ValueView,
    other: Seq<char>,
)
    requires
        other != name,
    ensures
        lookup(put(entries, name, child), other) == lookup(entries, other),
        has_name(put(entries, name, child), other) == has_name(entries, other),
{
    let after = put(entries, name, child);
    if has_name(entries, name) {
        let k = choose|k: int| 0 <= k < entries.len() && (#[trigger] entries[k]).0 == name;
        lemma_first_exists(entries, name, k);
        if has_name(entries, other) {
            let i = choose|i: int| 0 <= i < entries.len() && (#[trigger] entries[i]).0 == other;
            lemma_first_exists(entries, other, i);
            let first = first_index(entries, other);
            assert(is_first(after, other, first));
        }
    } else {
        lemma_lookup_push(entries, (name, child), other);
    }
}

/// The index of the first entry that carries the name.
pub fn find_name(entries: &Vec<(String, Value)>, name: &String) -> (found: Option<usize>)
    ensures
        match found {
            Some(i) => is_first(entries_view(entries@), name@, i as int),
            None => !has_name(entries_view(entries@), name@),
        },
{
    let mut i: usize = 0;
    while i < entries.len()
        invariant
            i <= entries.len(),
            forall|j: int| 0 <= j < i ==> (#[trigger] entries_view(entries@)[j]).0 != name@,
        decreases entries.len() - i,
    {
        if entries[i].0 == *name {
            return Some(i);
        }
        i += 1;
    }
    None
}

/// Takes out every entry that carries the name.
pub fn remove_name(entries: &mut Vec<(String, Value)>, name: &String)
    ensures
        entries_view(final(entries)@) == without(entries_view(old(entries)@), name@),
{
    let ghost keep = named_otherwise(name@);
    let mut i: usize = 0;
    while i < entries.len()
        invariant
            i <= entries.len(),
            keep == named_otherwise(name@),
            forall|j: int| 0 <= j < i ==> keep(#[trigger] entries_view(entries@)[j]),
            entries_view(entries@).filter(keep) == entries_view(old(entries)@).filter(keep),
        decreases entries.len() - i,
    {
        if entries[i].0 == *name {
            let ghost before = entries_view(entries@);
            entries.remove(i);
            proof {
                assert(entries_view(entries@) =~= before.remove(i as int));
                lemma_drop_one(before, keep, i as int);
            }
        } else {
            i += 1;
        }
    }
    proof {
        lemma_keep_all(entries_view(entries@), keep);
    }
}

} // verus!
