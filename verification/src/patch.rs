//! JSON Merge Patch (RFC 7396) on [`Value`].

use crate::entries::{find_name, lemma_first_unique, lookup, put, remove_name, without};
use crate::value::{entries_view, lemma_node_view, Entries, Value, ValueView};
use vstd::prelude::*;

verus! {

/// The child that a change is merged into: the one under the name, or `Null`
/// where there is none.
pub open spec fn merge_base(doc: Entries, name: Seq<char>) -> ValueView {
    match lookup(doc, name) {
        Some(child) => child,
        None => ValueView::Null,
    }
}

/// The children after the first `n` entries of a patch node have been
/// applied, one after the other, to `base`.
pub open spec fn merge_entries(base: Entries, delta: Entries, n: nat) -> Entries
    decreases delta, n,
{
    if n == 0 || n > delta.len() {
        base
    } else {
        let doc = merge_entries(base, delta, (n - 1) as nat);
        let name = delta[n - 1].0;
        let change = delta[n - 1].1;
        if change is Null {
            without(doc, name)
        } else {
            put(doc, name, merge(merge_base(doc, name), change))
        }
    }
}

/// The result of applying `patch` to `target`.
///
/// A patch that is no node replaces the target. A patch that is a node is
/// applied entry by entry to the target's children, or to no children where
/// the target is no node.
pub open spec fn merge(target: ValueView, patch: ValueView) -> ValueView
    decreases patch, 0nat,
{
    match patch {
        ValueView::Node(delta) => {
            let base = match target {
                ValueView::Node(entries) => entries,
                _ => Seq::empty(),
            };
            ValueView::Node(merge_entries(base, delta, delta.len()))
        },
        _ => patch,
    }
}

/// Applies `patch` to `target` in place, as JSON Merge Patch (RFC 7396)
/// prescribes.
pub fn json_patch(target: &mut Value, patch: &Value)
    ensures
        final(target)@ == merge(old(target)@, patch@),
    decreases patch,
{
    match patch {
        Value::Node(delta) => {
            proof {
                lemma_node_view(*delta);
            }
            let is_node = match target {
                Value::Node(_) => true,
                _ => false,
            };
            if !is_node {
                *target = Value::Node(Vec::new());
            }
            let ghost base = match old(target)@ {
                ValueView::Node(entries) => entries,
                _ => Seq::empty(),
            };
            match target {
                Value::Node(doc) => {
                    proof {
                        lemma_node_view(*doc);
                    }
                    let mut i: usize = 0;
                    while i < delta.len()
                        invariant
                            *patch == Value::Node(*delta),
                            i <= delta.len(),
                            entries_view(doc@) == merge_entries(
                                base,
                                entries_view(delta@),
                                i as nat,
                            ),
                        decreases delta.len() - i,
                    {
                        let ghost before = entries_view(doc@);
                        let name = &delta[i].0;
                        let change = &delta[i].1;
                        match change {
                            Value::Null => {
                                remove_name(doc, name);
                            },
                            _ => {
                                let slot = match find_name(doc, name) {
                                    Some(slot) => {
                                        proof {
                                            lemma_first_unique(before, name@, slot as int);
                                        }
                                        slot
                                    },
                                    None => {
                                        doc.push((name.clone(), Value::Null));
                                        doc.len() - 1
                                    },
                                };
                                assert(decreases_to!(*patch => patch->Node_0));
                                json_patch(&mut doc[slot].1, change);
                                assert(entries_view(doc@) =~= put(
                                    before,
                                    name@,
                                    merge(merge_base(before, name@), change@),
                                ));
                            },
                        }
                        i += 1;
                    }
                    proof {
                        lemma_node_view(*doc);
                    }
                },
                _ => {},
            }
        },
        _ => {
            *target = patch.clone();
        },
    }
}

} // verus!
