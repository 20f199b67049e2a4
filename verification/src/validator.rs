//! Type validation: what may be stored is a document, and nothing else.

use crate::data_store::Error;
use crate::value::{distinct_names, entries_view, lemma_node_view, Value, ValueView};
use vstd::prelude::*;

verus! {

/// Whether the name of entry `i` is also the name of an entry before it.
fn repeats_earlier_name(entries: &Vec<(String, Value)>, i: usize) -> (repeats: bool)
    requires
        i < entries.len(),
    ensures
        repeats == exists|j: int| 0 <= j < i && (#[trigger] entries@[j]).0@ == entries@[i as int].0@,
{
    let mut j: usize = 0;
    while j < i
        invariant
            j <= i < entries.len(),
            forall|k: int| 0 <= k < j ==> (#[trigger] entries@[k]).0@ != entries@[i as int].0@,
        decreases i - j,
    {
        if entries[j].0 == entries[i].0 {
            return true;
        }
        j += 1;
    }
    false
}

/// Accepts a candidate that is a document and refuses every other one with
/// `UnsupportedValueType`: a leaf is a document; a node is one if its names
/// are distinct and each child is a document; no other shape is one. A node
/// that lists a name twice is no mapping, and is refused like a number or an
/// array. The walk ends at the first offence.
pub fn validate(candidate: &Value) -> (checked: Result<(), Error>)
    ensures
        checked is Ok <==> candidate@.is_document(),
        checked is Err ==> checked == Err::<(), Error>(Error::UnsupportedValueType),
    decreases candidate,
{
    match candidate {
        Value::Leaf(_) => Ok(()),
        Value::Node(entries) => {
            proof {
                lemma_node_view(*entries);
            }
            let ghost names = entries_view(entries@);
            let mut i: usize = 0;
            while i < entries.len()
                invariant
                    *candidate == Value::Node(*entries),
                    candidate@ == ValueView::Node(names),
                    names == entries_view(entries@),
                    i <= entries.len(),
                    forall|a: int, b: int|
                        #![trigger names[a], names[b]]
                        0 <= a < b < i ==> names[a].0 != names[b].0,
                    forall|k: int| 0 <= k < i ==> (#[trigger] names[k]).1.is_document(),
                decreases entries.len() - i,
            {
                if repeats_earlier_name(entries, i) {
                    proof {
                        let j = choose|j: int|
                            0 <= j < i && (#[trigger] entries@[j]).0@ == entries@[i as int].0@;
                        assert(names[j].0 == names[i as int].0);
                        assert(!distinct_names(names));
                    }
                    return Err(Error::UnsupportedValueType);
                }
                match validate(&entries[i].1) {
                    Ok(()) => {},
                    Err(e) => {
                        assert(!names[i as int].1.is_document());
                        return Err(e);
                    },
                }
                assert forall|a: int, b: int|
                    #![trigger names[a], names[b]]
                    0 <= a < b < i + 1 implies names[a].0 != names[b].0 by {}
                i += 1;
            }
            Ok(())
        },
        _ => Err(Error::UnsupportedValueType),
    }
}

} // verus!
