//! Paths into a value: names separated by `/`.

use crate::data_store::Error;
use crate::entries::{find_name, lemma_first_unique, lookup};
use crate::text::chars_of;
use crate::value::{entries_view, lemma_node_view, Value, ValueView};
use vstd::prelude::*;

verus! {

/// Where the run of characters other than `/` that holds position `from`
/// ends: the position of the next `/` at or after `from`, or the end of the
/// path.
pub open spec fn run_end(path: Seq<char>, from: int) -> int
    decreases path.len() - from,
{
    if from < 0 || from >= path.len() || path[from] == '/' {
        from
    } else {
        run_end(path, from + 1)
    }
}

/// The names in `path` from position `from` on.
pub open spec fn segments_from(path: Seq<char>, from: int) -> Seq<Seq<char>>
    decreases path.len() - from,
{
    if from < 0 || from >= path.len() {
        Seq::empty()
    } else if path[from] == '/' {
        segments_from(path, from + 1)
    } else {
        let end = run_end(path, from);
        proof {
            lemma_run_end(path, from);
        }
        seq![path.subrange(from, end)] + segments_from(path, end)
    }
}

/// The names that a path lists: its maximal runs of characters other than
/// `/`, in order. Leading, trailing and repeated slashes list nothing.
pub open spec fn path_segments(path: Seq<char>) -> Seq<Seq<char>> {
    segments_from(path, 0)
}

/// A run ends after its start and within the path.
pub proof fn lemma_run_end(path: Seq<char>, from: int)
    requires
        0 <= from < path.len(),
        path[from] != '/',
    ensures
        from < run_end(path, from) <= path.len(),
    decreases path.len() - from,
{
    reveal_with_fuel(run_end, 2);
    if from + 1 < path.len() && path[from + 1] != '/' {
        lemma_run_end(path, from + 1);
    }
}

/// No character of a run is a slash.
pub proof fn lemma_run_has_no_slash(path: Seq<char>, from: int, at: int)
    requires
        0 <= from <= at < run_end(path, from),
    ensures
        path[at] != '/',
    decreases at - from,
{
    if from < at {
        lemma_run_has_no_slash(path, from + 1, at);
    }
}

/// A name: at least one character, and no slash among them.
pub open spec fn is_name(name: Seq<char>) -> bool {
    &&& name.len() > 0
    &&& forall|k: int| 0 <= k < name.len() ==> name[k] != '/'
}

/// Every name that a path lists is a name.
pub proof fn segments_are_names(path: Seq<char>, from: int)
    requires
        0 <= from,
    ensures
        forall|i: int|
            0 <= i < segments_from(path, from).len() ==> is_name(
                #[trigger] segments_from(path, from)[i],
            ),
    decreases path.len() - from,
{
    if from < path.len() {
        if path[from] == '/' {
            segments_are_names(path, from + 1);
            assert(segments_from(path, from) == segments_from(path, from + 1));
        } else {
            let end = run_end(path, from);
            lemma_run_end(path, from);
            segments_are_names(path, end);
            let first = path.subrange(from, end);
            assert(segments_from(path, from) == seq![first] + segments_from(path, end));
            assert forall|k: int| 0 <= k < first.len() implies first[k] != '/' by {
                lemma_run_has_no_slash(path, from, from + k);
            }
            let all = segments_from(path, from);
            assert forall|i: int| 0 <= i < all.len() implies is_name(#[trigger] all[i]) by {
                if i > 0 {
                    assert(all[i] == segments_from(path, end)[i - 1]);
                }
            }
        }
    }
}

/// Splits a path into the names it lists.
pub fn split_path(path: &str) -> (names: Vec<String>)
    ensures
        names.deep_view() == path_segments(path@),
{
    let chars = chars_of(path);
    let mut names: Vec<String> = Vec::new();
    let mut at: usize = 0;
    while at < chars.len()
        invariant
            chars@ == path@,
            at <= chars.len(),
            names.deep_view() + segments_from(path@, at as int) == path_segments(path@),
        decreases chars.len() - at,
    {
        if chars[at] == '/' {
            at += 1;
        } else {
            let mut end: usize = at + 1;
            while end < chars.len() && chars[end] != '/'
                invariant
                    chars@ == path@,
                    at < end <= chars.len(),
                    run_end(path@, end as int) == run_end(path@, at as int),
                decreases chars.len() - end,
            {
                end += 1;
            }
            let name = path.substring_char(at, end).to_owned();
            names.push(name);
            at = end;
        }
    }
    names
}

/// The value reached from `root` by going down one name after the other:
/// each step needs a node that lists the name.
pub open spec fn descend(root: ValueView, names: Seq<Seq<char>>) -> Option<ValueView>
    decreases names.len(),
{
    if names.len() == 0 {
        Some(root)
    } else {
        match root {
            ValueView::Node(entries) => match lookup(entries, names[0]) {
                Some(child) => descend(child, names.drop_first()),
                None => None,
            },
            _ => None,
        }
    }
}

/// The value that a path leads to.
pub open spec fn resolve_path(root: ValueView, path: Seq<char>) -> Option<ValueView> {
    descend(root, path_segments(path))
}

/// Follows a path from `root`. The empty path, and one of slashes alone,
/// leads to `root` itself. Names are compared exactly.
pub fn resolve<'a>(root: &'a Value, path: &str) -> (found: Result<&'a Value, Error>)
    ensures
        match resolve_path(root@, path@) {
            Some(value) => found is Ok && found->Ok_0@ == value,
            None => found == Err::<&Value, Error>(Error::NotFound),
        },
{
    let names = split_path(path);
    let mut current: &Value = root;
    let mut i: usize = 0;
    proof {
        assert(names.deep_view().skip(0) =~= names.deep_view());
    }
    while i < names.len()
        invariant
            i <= names.len(),
            names.deep_view() == path_segments(path@),
            descend(current@, names.deep_view().skip(i as int)) == resolve_path(root@, path@),
        decreases names.len() - i,
    {
        let ghost rest = names.deep_view().skip(i as int);
        proof {
            assert(rest.drop_first() =~= names.deep_view().skip(i + 1));
        }
        match current {
            Value::Node(entries) => {
                proof {
                    lemma_node_view(*entries);
                }
                match find_name(entries, &names[i]) {
                    Some(slot) => {
                        proof {
                            lemma_first_unique(entries_view(entries@), names@[i as int]@, slot as int);
                        }
                        current = &entries[slot].1;
                    },
                    None => {
                        return Err(Error::NotFound);
                    },
                }
            },
            _ => {
                return Err(Error::NotFound);
            },
        }
        i += 1;
    }
    Ok(current)
}

} // verus!
