//! The store: one document, replaced, patched and read.

use crate::patch::{json_patch, merge};
use crate::path::{descend, path_segments, resolve, resolve_path};
use crate::validator::validate;
use crate::entries::{first_index, has_name, lemma_first_exists};
use crate::value::{entries_view, lemma_node_view, Value, ValueView};
use vstd::prelude::*;

verus! {

/// Why an operation on the store was refused.
#[derive(Debug, PartialEq, Eq, Clone, Copy)]
pub enum Error {
    /// Nothing is stored under the path.
    NotFound,
    /// The value is, or holds, something other than a leaf or a node.
    UnsupportedValueType,
}

/// The lines that a value is shown as: a leaf is its own text, a node the
/// names of its children in their order, bare. No other shape can be shown.
pub open spec fn listing(value: ValueView) -> Option<Seq<Seq<char>>> {
    match value {
        ValueView::Leaf(text) => Some(seq![text]),
        ValueView::Node(entries) => Some(Seq::new(entries.len(), |i: int| entries[i].0)),
        _ => None,
    }
}

/// What a read of `path` in `document` gives.
pub open spec fn read(document: ValueView, path: Seq<char>) -> Result<Seq<Seq<char>>, Error> {
    match resolve_path(document, path) {
        None => Err(Error::NotFound),
        Some(value) => match listing(value) {
            Some(lines) => Ok(lines),
            None => Err(Error::UnsupportedValueType),
        },
    }
}

/// Shows a value as lines.
pub fn render(value: &Value) -> (shown: Result<Vec<String>, Error>)
    ensures
        match listing(value@) {
            Some(lines) => shown is Ok && shown->Ok_0.deep_view() == lines,
            None => shown == Err::<Vec<String>, Error>(Error::UnsupportedValueType),
        },
{
    match value {
        Value::Leaf(text) => {
            let mut lines: Vec<String> = Vec::new();
            lines.push(text.clone());
            Ok(lines)
        },
        Value::Node(entries) => {
            proof {
                lemma_node_view(*entries);
            }
            let mut lines: Vec<String> = Vec::new();
            let mut i: usize = 0;
            while i < entries.len()
                invariant
                    i <= entries.len(),
                    lines.len() == i,
                    forall|k: int| 0 <= k < i ==> (#[trigger] lines@[k])@ == entries@[k].0@,
                decreases entries.len() - i,
            {
                lines.push(entries[i].0.clone());
                i += 1;
            }
            Ok(lines)
        },
        _ => Err(Error::UnsupportedValueType),
    }
}

/// Going down from a document leads to a document.
pub proof fn lemma_descend_document(root: ValueView, names: Seq<Seq<char>>)
    requires
        root.is_document(),
    ensures
        descend(root, names) matches Some(value) ==> value.is_document(),
    decreases names.len(),
{
    if names.len() > 0 {
        if let ValueView::Node(entries) = root {
            if has_name(entries, names[0]) {
                let i = choose|i: int| 0 <= i < entries.len() && (#[trigger] entries[i]).0 == names[0];
                lemma_first_exists(entries, names[0], i);
                let first = first_index(entries, names[0]);
                lemma_descend_document(entries[first].1, names.drop_first());
            }
        }
    }
}

/// The metadata store. It holds one document, which is the empty node at
/// first, and every operation leaves a document in it.
pub struct Mmds {
    data_store: Value,
}

impl View for Mmds {
    type V = ValueView;

    /// The document that the store holds.
    closed spec fn view(&self) -> ValueView {
        self.data_store@
    }
}

impl Mmds {
    #[verifier::type_invariant]
    spec fn holds_document(&self) -> bool {
        self.data_store@.is_document()
    }

    /// A store that holds the empty node.
    pub fn new() -> (store: Self)
        ensures
            store@ == ValueView::Node(Seq::empty()),
    {
        let entries: Vec<(String, Value)> = Vec::new();
        proof {
            lemma_node_view(entries);
            assert(entries_view(entries@) =~= Seq::empty());
        }
        Mmds { data_store: Value::Node(entries) }
    }

    /// Replaces the document by `data` if `data` is a document, and leaves
    /// the store as it was if not.
    pub fn put_data(&mut self, data: Value) -> (done: Result<(), Error>)
        ensures
            final(self)@.is_document(),
            data@.is_document() ==> done is Ok && final(self)@ == data@,
            !data@.is_document() ==> done == Err::<(), Error>(Error::UnsupportedValueType)
                && final(self)@ == old(self)@,
    {
        proof {
            use_type_invariant(&*self);
        }
        match validate(&data) {
            Ok(()) => {
                self.data_store = data;
                Ok(())
            },
            Err(e) => Err(e),
        }
    }

    /// Merges `patch` into the document. The merge is made on a copy; it
    /// takes the document's place if it is a document, and is dropped, with
    /// the store left as it was, if it is not.
    pub fn patch_data(&mut self, patch_data: Value) -> (done: Result<(), Error>)
        ensures
            final(self)@.is_document(),
            merge(old(self)@, patch_data@).is_document() ==> done is Ok && final(self)@ == merge(
                old(self)@,
                patch_data@,
            ),
            !merge(old(self)@, patch_data@).is_document() ==> done == Err::<(), Error>(
                Error::UnsupportedValueType,
            ) && final(self)@ == old(self)@,
    {
        proof {
            use_type_invariant(&*self);
        }
        let mut merged = self.data_store.clone();
        json_patch(&mut merged, &patch_data);
        match validate(&merged) {
            Ok(()) => {
                self.data_store = merged;
                Ok(())
            },
            Err(e) => Err(e),
        }
    }

    /// The value that `path` leads to in the document, which is a document
    /// in turn, or `NotFound`.
    pub fn resolve(&self, path: &str) -> (found: Result<&Value, Error>)
        ensures
            match resolve_path(self@, path@) {
                Some(value) => found is Ok && found->Ok_0@ == value && value.is_document(),
                None => found == Err::<&Value, Error>(Error::NotFound),
            },
    {
        proof {
            use_type_invariant(self);
            lemma_descend_document(self@, path_segments(path@));
        }
        resolve(&self.data_store, path)
    }

    /// Reads what `path` leads to and shows it as lines. A path that leads
    /// nowhere gives `NotFound`; no path gives `UnsupportedValueType`, as
    /// the store holds leaves and nodes alone.
    pub fn get_value(&self, path: String) -> (shown: Result<Vec<String>, Error>)
        ensures
            match read(self@, path@) {
                Ok(lines) => shown is Ok && shown->Ok_0.deep_view() == lines,
                Err(e) => shown == Err::<Vec<String>, Error>(e),
            },
            shown != Err::<Vec<String>, Error>(Error::UnsupportedValueType),
    {
        match self.resolve(path.as_str()) {
            Ok(value) => render(value),
            Err(e) => Err(e),
        }
    }
}

impl Default for Mmds {
    fn default() -> (store: Self)
        ensures
            store@ == ValueView::Node(Seq::empty()),
    {
        Mmds::new()
    }
}

} // verus!
