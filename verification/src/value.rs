//! The value model: JSON-shaped trees, of which only leaves and nodes can be
//! stored, and the mathematical view that every contract in this crate is
//! stated over.

use vstd::prelude::*;

verus! {

/// `serde_json::Number`: a JSON number, carried through as the parser made
/// it. Nothing in this crate looks inside one.
#[verifier::external_type_specification]
#[verifier::external_body]
pub struct ExNumber(serde_json::Number);

/// `Clone::clone` of `serde_json::Number`: the derived clone of a plain
/// value, so the copy is the same number.
pub assume_specification[ <serde_json::Number as Clone>::clone ](n: &serde_json::Number) -> (res:
    serde_json::Number)
    ensures
        res == *n,
;

/// The named children of a node, in listing order.
pub type Entries = Seq<(Seq<char>, ValueView)>;

/// The mathematical value that a [`Value`] stands for.
pub enum ValueView {
    Null,
    Bool(bool),
    Number(serde_json::Number),
    Leaf(Seq<char>),
    Array(Seq<ValueView>),
    Node(Entries),
}

/// A JSON value.
///
/// A document is made of `Leaf` (a string) and `Node` (named children, in the
/// order in which they were first set) alone. The other shapes exist so that
/// a request body can be held and judged, and so that a patch can say `Null`
/// for "delete this name".
#[derive(Debug, PartialEq, Eq)]
pub enum Value {
    Null,
    Bool(bool),
    Number(serde_json::Number),
    Leaf(String),
    Array(Vec<Value>),
    Node(Vec<(String, Value)>),
}

impl View for Value {
    type V = ValueView;

    open spec fn view(&self) -> ValueView
        decreases self,
    {
        match self {
            Value::Null => ValueView::Null,
            Value::Bool(b) => ValueView::Bool(*b),
            Value::Number(n) => ValueView::Number(*n),
            Value::Leaf(s) => ValueView::Leaf(s@),
            Value::Array(items) => ValueView::Array(
                Seq::new(
                    items@.len(),
                    |i: int|
                        if 0 <= i < items@.len() {
                            items@[i].view()
                        } else {
                            ValueView::Null
                        },
                ),
            ),
            Value::Node(entries) => ValueView::Node(
                Seq::new(
                    entries@.len(),
                    |i: int|
                        (
                            entries@[i].0@,
                            if 0 <= i < entries@.len() {
                                entries@[i].1.view()
                            } else {
                                ValueView::Null
                            },
                        ),
                ),
            ),
        }
    }
}

/// The views of a list of values, item by item.
pub open spec fn items_view(items: Seq<Value>) -> Seq<ValueView> {
    Seq::new(items.len(), |i: int| items[i]@)
}

/// The views of a list of named values, entry by entry.
pub open spec fn entries_view(entries: Seq<(String, Value)>) -> Entries {
    Seq::new(entries.len(), |i: int| (entries[i].0@, entries[i].1@))
}

/// The view of an array is the array of its items' views.
pub proof fn lemma_array_view(items: Vec<Value>)
    ensures
        Value::Array(items)@ == ValueView::Array(items_view(items@)),
{
    assert(Value::Array(items)@->Array_0 =~= items_view(items@));
}

/// The view of a node is the list of its entries' views.
pub proof fn lemma_node_view(entries: Vec<(String, Value)>)
    ensures
        Value::Node(entries)@ == ValueView::Node(entries_view(entries@)),
{
    assert(Value::Node(entries)@->Node_0 =~= entries_view(entries@));
}

/// No name is listed twice.
pub open spec fn distinct_names(entries: Entries) -> bool {
    forall|i: int, j: int|
        #![trigger entries[i], entries[j]]
        0 <= i < j < entries.len() ==> entries[i].0 != entries[j].0
}

impl ValueView {
    /// A document: a tree of leaves and nodes in which no node lists a name
    /// twice. Every other shape, at any depth, makes the whole value no
    /// document.
    pub open spec fn is_document(self) -> bool
        decreases self,
    {
        match self {
            ValueView::Leaf(_) => true,
            ValueView::Node(entries) => {
                &&& distinct_names(entries)
                &&& forall|i: int|
                    0 <= i < entries.len() ==> (#[trigger] entries[i]).1.is_document()
            },
            _ => false,
        }
    }

    /// A patch for documents: a leaf, or a node in which every child is
    /// `Null`, for a deletion, or such a patch again.
    pub open spec fn is_patch(self) -> bool
        decreases self,
    {
        match self {
            ValueView::Leaf(_) => true,
            ValueView::Node(entries) => forall|i: int|
                0 <= i < entries.len() ==> {
                    ||| (#[trigger] entries[i]).1 is Null
                    ||| entries[i].1.is_patch()
                },
            _ => false,
        }
    }
}

impl Clone for Value {
    /// A deep copy: a new value with the same view.
    fn clone(&self) -> (res: Self)
        ensures
            res@ == self@,
        decreases self,
    {
        match self {
            Value::Null => Value::Null,
            Value::Bool(b) => Value::Bool(*b),
            Value::Number(n) => Value::Number(n.clone()),
            Value::Leaf(s) => Value::Leaf(s.clone()),
            Value::Array(items) => {
                let mut copy: Vec<Value> = Vec::new();
                let mut i: usize = 0;
                while i < items.len()
                    invariant
                        *self == Value::Array(*items),
                        i <= items.len(),
                        copy.len() == i,
                        forall|k: int| 0 <= k < i ==> copy@[k]@ == items@[k]@,
                    decreases items.len() - i,
                {
                    assert(decreases_to!(*self => self->Array_0));
                    let item = items[i].clone();
                    copy.push(item);
                    i += 1;
                }
                proof {
                    lemma_array_view(*items);
                    lemma_array_view(copy);
                    assert(items_view(copy@) =~= items_view(items@));
                }
                Value::Array(copy)
            },
            Value::Node(entries) => {
                let mut copy: Vec<(String, Value)> = Vec::new();
                let mut i: usize = 0;
                while i < entries.len()
                    invariant
                        *self == Value::Node(*entries),
                        i <= entries.len(),
                        copy.len() == i,
                        forall|k: int|
                            0 <= k < i ==> copy@[k].0@ == entries@[k].0@ && copy@[k].1@
                                == entries@[k].1@,
                    decreases entries.len() - i,
                {
                    let name = entries[i].0.clone();
                    assert(decreases_to!(*self => self->Node_0));
                    let child = entries[i].1.clone();
                    copy.push((name, child));
                    i += 1;
                }
                proof {
                    lemma_node_view(*entries);
                    lemma_node_view(copy);
                    assert(entries_view(copy@) =~= entries_view(entries@));
                }
                Value::Node(copy)
            },
        }
    }
}

} // verus!

