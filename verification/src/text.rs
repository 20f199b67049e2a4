//! Work on strings: cutting a text at a pattern, joining lines.

use vstd::prelude::*;

verus! {

/// `pattern` stands in `text` at position `at`.
pub open spec fn occurs_at(text: Seq<char>, pattern: Seq<char>, at: int) -> bool {
    &&& 0 <= at
    &&& at + pattern.len() <= text.len()
    &&& text.subrange(at, at + pattern.len()) == pattern
}

/// `at` is the first position at which `pattern` stands in `text`.
pub open spec fn first_occurrence(text: Seq<char>, pattern: Seq<char>, at: int) -> bool {
    &&& occurs_at(text, pattern, at)
    &&& forall|before: int| 0 <= before < at ==> !occurs_at(text, pattern, before)
}

/// What follows the first occurrence of `pattern` in `text`, if there is
/// one.
pub open spec fn after_first(text: Seq<char>, pattern: Seq<char>) -> Option<Seq<char>> {
    if exists|at: int| occurs_at(text, pattern, at) {
        let at = choose|at: int| first_occurrence(text, pattern, at);
        Some(text.skip(at + pattern.len()))
    } else {
        None
    }
}

/// The characters of a string.
pub(crate) fn chars_of(text: &str) -> (chars: Vec<char>)
    ensures
        chars@ == text@,
{
    let mut chars: Vec<char> = Vec::new();
    for c in it: text.chars()
        invariant
            it.seq() == text@,
            chars@ == it.seq().take(it.index() as int),
    {
        chars.push(c);
    }
    chars
}

/// Whether `pattern` stands in `text` at position `at`.
fn matches_at(text: &Vec<char>, pattern: &Vec<char>, at: usize) -> (matches: bool)
    requires
        at + pattern.len() <= text.len(),
    ensures
        matches == occurs_at(text@, pattern@, at as int),
{
    let mut k: usize = 0;
    while k < pattern.len()
        invariant
            at + pattern.len() <= text.len(),
            k <= pattern.len(),
            forall|j: int| 0 <= j < k ==> text@[at + j] == pattern@[j],
        decreases pattern.len() - k,
    {
        if text[at + k] != pattern[k] {
            return false;
        }
        k += 1;
    }
    proof {
        assert(text@.subrange(at as int, at + pattern.len()) =~= pattern@);
    }
    true
}

/// Splits `text` at the first occurrence of `pattern` and gives what
/// follows it.
pub fn split_after(text: &str, pattern: &str) -> (rest: Option<String>)
    ensures
        match after_first(text@, pattern@) {
            Some(tail) => rest is Some && rest->Some_0@ == tail,
            None => rest is None,
        },
{
    let chars = chars_of(text);
    let wanted = chars_of(pattern);
    if wanted.len() > chars.len() {
        return None;
    }
    let last: usize = chars.len() - wanted.len();
    let mut at: usize = 0;
    loop
        invariant
            chars@ == text@,
            wanted@ == pattern@,
            last + wanted.len() == chars.len(),
            at <= last,
            forall|before: int| 0 <= before < at ==> !occurs_at(text@, pattern@, before),
        decreases last - at,
    {
        if matches_at(&chars, &wanted, at) {
            proof {
                let first = choose|first: int| first_occurrence(text@, pattern@, first);
                assert(first_occurrence(text@, pattern@, at as int));
                assert(first == at);
            }
            let tail = text.substring_char(at + wanted.len(), chars.len()).to_owned();
            return Some(tail);
        }
        if at == last {
            return None;
        }
        at += 1;
    }
}

/// The lines, each but the first behind a line feed.
pub open spec fn join_lines(lines: Seq<Seq<char>>) -> Seq<char>
    decreases lines.len(),
{
    if lines.len() == 0 {
        Seq::empty()
    } else if lines.len() == 1 {
        lines[0]
    } else {
        join_lines(lines.drop_last()) + seq!['\n'] + lines.last()
    }
}

/// Joins lines with line feeds.
pub fn join(lines: &Vec<String>) -> (text: String)
    ensures
        text@ == join_lines(lines.deep_view()),
{
    let mut text = String::new();
    let mut i: usize = 0;
    while i < lines.len()
        invariant
            i <= lines.len(),
            text@ == join_lines(lines.deep_view().take(i as int)),
        decreases lines.len() - i,
    {
        let ghost done = lines.deep_view().take(i as int);
        let ghost next = lines.deep_view().take(i + 1);
        proof {
            assert(next.drop_last() =~= done);
            reveal_strlit("\n");
        }
        if i > 0 {
            text.append("\n");
        }
        text.append(lines[i].as_str());
        i += 1;
    }
    proof {
        assert(lines.deep_view().take(i as int) =~= lines.deep_view());
    }
    text
}

} // verus!
