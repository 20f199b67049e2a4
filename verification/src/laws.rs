//! What holds of the operations taken together, proved over the
//! mathematical values that their contracts speak of.

use crate::data_store::{read, Error};
use crate::patch::{merge, merge_base, merge_entries};
use crate::path::resolve_path;
use crate::entries::{
    has_name, lemma_first_exists, lemma_keep_all, lemma_lookup_put, lemma_lookup_without,
    lemma_without_distinct, lookup, named_otherwise, put, without,
};
use crate::value::{distinct_names, Entries, ValueView};
use vstd::prelude::*;

verus! {

/// A document that has just been stored is read back at the root as what
/// it is: the empty path leads to the whole document, which is shown as its
/// own text if it is a leaf and as the names of its children, in their
/// order, if it is a node.
pub proof fn stored_document_reads_back(document: ValueView)
    requires
        document.is_document(),
    ensures
        resolve_path(document, Seq::empty()) == Some(document),
        document matches ValueView::Leaf(text) ==> read(document, Seq::empty()) == Ok::<
            Seq<Seq<char>>,
            Error,
        >(seq![text]),
        document matches ValueView::Node(entries) ==> read(document, Seq::empty()) == Ok::<
            Seq<Seq<char>>,
            Error,
        >(Seq::new(entries.len(), |i: int| entries[i].0)),
{
}

/// Deleting a name that a node does not list changes nothing: the patch
/// `{name: null}` leaves the node as it is.
pub proof fn deleting_absent_name_changes_nothing(entries: Entries, name: Seq<char>)
    requires
        !has_name(entries, name),
    ensures
        without(entries, name) == entries,
        merge(ValueView::Node(entries), ValueView::Node(seq![(name, ValueView::Null)]))
            == ValueView::Node(entries),
{
    lemma_keep_all(entries, named_otherwise(name));
    let delta: Entries = seq![(name, ValueView::Null)];
    assert(merge_entries(entries, delta, 0) == entries);
}

/// After a name was taken out, no entry carries it; so taking it out again
/// changes nothing, and a patch that deletes does nothing new the second
/// time.
pub proof fn deleting_twice_is_deleting_once(entries: Entries, name: Seq<char>)
    ensures
        !has_name(without(entries, name), name),
        without(without(entries, name), name) == without(entries, name),
        merge(
            merge(ValueView::Node(entries), ValueView::Node(seq![(name, ValueView::Null)])),
            ValueView::Node(seq![(name, ValueView::Null)]),
        ) == merge(ValueView::Node(entries), ValueView::Node(seq![(name, ValueView::Null)])),
{
    let rest = without(entries, name);
    assert forall|i: int| 0 <= i < rest.len() implies (#[trigger] rest[i]).0 != name by {
        entries.lemma_filter_pred(named_otherwise(name), i);
    }
    deleting_absent_name_changes_nothing(rest, name);
    let delta: Entries = seq![(name, ValueView::Null)];
    assert(merge_entries(entries, delta, 0) == entries);
}

/// A node patch does not merge into a target that is no node: the target is
/// dropped, and the result is what the patch makes of the empty node.
pub proof fn node_patch_drops_target_that_is_no_node(target: ValueView, patch: ValueView)
    requires
        !(target is Node),
        patch is Node,
    ensures
        merge(target, patch) is Node,
        merge(target, patch) == merge(ValueView::Node(Seq::empty()), patch),
{
}

/// A patch that is no node takes the target's place, whatever the target
/// was; so applying it a second time changes nothing.
pub proof fn patch_that_is_no_node_replaces_target(target: ValueView, patch: ValueView)
    requires
        !(patch is Node),
    ensures
        merge(target, patch) == patch,
        merge(merge(target, patch), patch) == merge(target, patch),
{
}

/// The children of a document node: distinct names, each child a document.
pub open spec fn document_entries(entries: Entries) -> bool {
    ValueView::Node(entries).is_document()
}

/// Taking a name out of a document node's children leaves the children of a
/// document node.
pub proof fn lemma_without_keeps_document(entries: Entries, name: Seq<char>)
    requires
        document_entries(entries),
    ensures
        document_entries(without(entries, name)),
        !has_name(without(entries, name), name),
{
    if has_name(entries, name) {
        let i = choose|i: int| 0 <= i < entries.len() && (#[trigger] entries[i]).0 == name;
        lemma_without_distinct(entries, name, i);
        let rest = entries.remove(i);
        // Entry `k` of `rest` is entry `k` or `k + 1` of `entries`.
        assert forall|k: int| 0 <= k < rest.len() implies #[trigger] rest[k] == entries[if k < i {
            k
        } else {
            k + 1
        }] by {}
        assert(distinct_names(rest));
        assert forall|k: int| 0 <= k < rest.len() implies (#[trigger] rest[k]).0 != name by {}
    } else {
        lemma_keep_all(entries, named_otherwise(name));
    }
}

/// Setting a name to a document in a document node's children leaves the
/// children of a document node.
pub proof fn lemma_put_keeps_document(entries: Entries, name: Seq<char>, child: ValueView)
    requires
        document_entries(entries),
        child.is_document(),
    ensures
        document_entries(put(entries, name, child)),
{
    let after = put(entries, name, child);
    if has_name(entries, name) {
        let i = choose|i: int| 0 <= i < entries.len() && (#[trigger] entries[i]).0 == name;
        lemma_first_exists(entries, name, i);
        assert forall|k: int| 0 <= k < after.len() implies (#[trigger] after[k]).0
            == entries[k].0 by {}
    } else {
        assert forall|k: int| 0 <= k < entries.len() implies #[trigger] after[k] == entries[k] by {}
    }
    assert(distinct_names(after));
    assert forall|k: int| 0 <= k < after.len() implies (#[trigger] after[k]).1.is_document() by {}
}

/// Applying the entries of a patch for documents to the children of a
/// document node leaves, after each entry, the children of a document node.
pub proof fn lemma_merge_entries_keep_document(base: Entries, delta: Entries, n: nat)
    requires
        document_entries(base),
        ValueView::Node(delta).is_patch(),
        n <= delta.len(),
    ensures
        document_entries(merge_entries(base, delta, n)),
    decreases delta, n,
{
    if n > 0 {
        lemma_merge_entries_keep_document(base, delta, (n - 1) as nat);
        let doc = merge_entries(base, delta, (n - 1) as nat);
        let name = delta[n - 1].0;
        let change = delta[n - 1].1;
        if change is Null {
            lemma_without_keeps_document(doc, name);
        } else {
            let old_child = merge_base(doc, name);
            if has_name(doc, name) {
                let i = choose|i: int| 0 <= i < doc.len() && (#[trigger] doc[i]).0 == name;
                lemma_first_exists(doc, name, i);
            }
            merge_keeps_documents(old_child, change);
            lemma_put_keeps_document(doc, name, merge(old_child, change));
        }
    }
}

/// Merging a patch for documents into a document gives a document; so does
/// merging it into anything that is no node, which the patch replaces.
pub proof fn merge_keeps_documents(target: ValueView, patch: ValueView)
    requires
        target.is_document() || !(target is Node),
        patch.is_patch(),
    ensures
        merge(target, patch).is_document(),
    decreases patch, 0nat,
{
    match patch {
        ValueView::Node(delta) => {
            let base = match target {
                ValueView::Node(entries) => entries,
                _ => Seq::empty(),
            };
            lemma_merge_entries_keep_document(base, delta, delta.len());
        },
        _ => {},
    }
}

/// A name that the children list after a name was taken out was listed
/// before.
pub proof fn lemma_without_names(entries: Entries, name: Seq<char>, other: Seq<char>)
    requires
        has_name(without(entries, name), other),
    ensures
        has_name(entries, other),
{
    let rest = without(entries, name);
    let i = choose|i: int| 0 <= i < rest.len() && (#[trigger] rest[i]).0 == other;
    entries.lemma_filter_contains_rev(named_otherwise(name), rest[i]);
    let j = choose|j: int| 0 <= j < entries.len() && entries[j] == rest[i];
    assert(entries[j].0 == other);
}

/// A name that the children list after a name was set is that name or was
/// listed before.
pub proof fn lemma_put_names(entries: Entries, name: Seq<char>, child: ValueView, other: Seq<char>)
    requires
        has_name(put(entries, name, child), other),
    ensures
        other == name || has_name(entries, other),
{
    let after = put(entries, name, child);
    let i = choose|i: int| 0 <= i < after.len() && (#[trigger] after[i]).0 == other;
    if other != name {
        if has_name(entries, name) {
            let k = choose|k: int| 0 <= k < entries.len() && (#[trigger] entries[k]).0 == name;
            lemma_first_exists(entries, name, k);
        }
        assert(entries[i].0 == other);
    }
}

/// A name that the children list after `n` entries of a patch were applied
/// was listed at first or is the name of one of those entries.
pub proof fn lemma_merge_entries_names(base: Entries, delta: Entries, n: nat, other: Seq<char>)
    requires
        n <= delta.len(),
        has_name(merge_entries(base, delta, n), other),
    ensures
        has_name(base, other) || exists|j: int| 0 <= j < n && (#[trigger] delta[j]).0 == other,
    decreases n,
{
    if n > 0 {
        let doc = merge_entries(base, delta, (n - 1) as nat);
        let name = delta[n - 1].0;
        let change = delta[n - 1].1;
        if change is Null {
            lemma_without_names(doc, name, other);
        } else {
            lemma_put_names(doc, name, merge(merge_base(doc, name), change), other);
        }
        if has_name(doc, other) {
            lemma_merge_entries_names(base, delta, (n - 1) as nat, other);
        }
    }
}

/// What the first `n` entries of a patch make of the children depends on
/// those entries alone.
pub proof fn lemma_merge_entries_prefix(base: Entries, delta: Entries, other: Entries, n: nat)
    requires
        n <= delta.len(),
        n <= other.len(),
        forall|j: int| 0 <= j < n ==> delta[j] == other[j],
    ensures
        merge_entries(base, delta, n) == merge_entries(base, other, n),
    decreases n,
{
    if n > 0 {
        lemma_merge_entries_prefix(base, delta, other, (n - 1) as nat);
    }
}

/// A deletion of a name that the target does not list, and that the patch
/// does not mention otherwise, can be left out of the patch: the merge is
/// the same with it and without it.
pub proof fn deletion_of_absent_name_can_be_left_out(base: Entries, delta: Entries, at: int)
    requires
        0 <= at < delta.len(),
        delta[at].1 is Null,
        !has_name(base, delta[at].0),
        forall|j: int| 0 <= j < delta.len() && j != at ==> (#[trigger] delta[j]).0 != delta[at].0,
    ensures
        merge(ValueView::Node(base), ValueView::Node(delta)) == merge(
            ValueView::Node(base),
            ValueView::Node(delta.remove(at)),
        ),
{
    lemma_deletion_left_out(base, delta, at, delta.len());
}

/// The step-by-step form of the law above: from the deletion on, the
/// children are what the patch without the deletion makes of them.
pub proof fn lemma_deletion_left_out(base: Entries, delta: Entries, at: int, n: nat)
    requires
        0 <= at < delta.len(),
        delta[at].1 is Null,
        !has_name(base, delta[at].0),
        forall|j: int| 0 <= j < delta.len() && j != at ==> (#[trigger] delta[j]).0 != delta[at].0,
        at < n <= delta.len(),
    ensures
        merge_entries(base, delta, n) == merge_entries(base, delta.remove(at), (n - 1) as nat),
    decreases n,
{
    let shorter = delta.remove(at);
    if n == at + 1 {
        let doc = merge_entries(base, delta, at as nat);
        lemma_merge_entries_prefix(base, delta, shorter, at as nat);
        if has_name(doc, delta[at].0) {
            lemma_merge_entries_names(base, delta, at as nat, delta[at].0);
        }
        lemma_keep_all(doc, named_otherwise(delta[at].0));
    } else {
        lemma_deletion_left_out(base, delta, at, (n - 1) as nat);
    }
}

/// What is found under a name that the patch does not mention is what was
/// found under it in the target: the merge leaves it alone.
pub proof fn merge_leaves_unmentioned_names_alone(
    base: Entries,
    delta: Entries,
    n: nat,
    name: Seq<char>,
)
    requires
        n <= delta.len(),
        forall|j: int| 0 <= j < n ==> (#[trigger] delta[j]).0 != name,
    ensures
        lookup(merge_entries(base, delta, n), name) == lookup(base, name),
        has_name(merge_entries(base, delta, n), name) == has_name(base, name),
    decreases n,
{
    if n > 0 {
        merge_leaves_unmentioned_names_alone(base, delta, (n - 1) as nat, name);
        let doc = merge_entries(base, delta, (n - 1) as nat);
        let changed = delta[n - 1].0;
        let change = delta[n - 1].1;
        if change is Null {
            lemma_lookup_without(doc, changed, name);
        } else {
            lemma_lookup_put(doc, changed, merge(merge_base(doc, changed), change), name);
        }
    }
}

/// A patch that deletes nothing moves nothing: every name of the target
/// stays at its place, and what the patch adds comes behind.
pub proof fn patch_without_deletions_keeps_places(base: Entries, delta: Entries, n: nat)
    requires
        n <= delta.len(),
        forall|j: int| 0 <= j < n ==> !((#[trigger] delta[j]).1 is Null),
    ensures
        base.len() <= merge_entries(base, delta, n).len() <= base.len() + n,
        forall|i: int|
            0 <= i < base.len() ==> (#[trigger] merge_entries(base, delta, n)[i]).0 == base[i].0,
    decreases n,
{
    if n > 0 {
        patch_without_deletions_keeps_places(base, delta, (n - 1) as nat);
        let doc = merge_entries(base, delta, (n - 1) as nat);
        let name = delta[n - 1].0;
        if has_name(doc, name) {
            let k = choose|k: int| 0 <= k < doc.len() && (#[trigger] doc[k]).0 == name;
            lemma_first_exists(doc, name, k);
        }
        let after = merge_entries(base, delta, n);
        assert forall|i: int| 0 <= i < base.len() implies (#[trigger] after[i]).0 == base[i].0 by {
            assert(doc[i].0 == base[i].0);
        }
    }
}

} // verus!
