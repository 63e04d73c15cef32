//! Lines of operator input.
//!
//! What the operator typed arrives as the text of one read, line ending
//! included. The commands look at its first line only.

use crate::search::{first_index, lemma_first_index_absent, lemma_first_index_found};
use vstd::prelude::*;
use vstd::string::*;

verus! {

/// Where the first line of `text` ends: at its first line feed, or at the
/// end of the text where it has none.
pub open spec fn line_end(text: Seq<char>) -> int {
    match first_index(text, '\n') {
        Some(k) => k,
        None => text.len() as int,
    }
}

/// The first line of `text`, without its line ending. An empty text has no
/// line. A line ends at a line feed; a carriage return counts as part of the
/// ending only where it stands directly before that line feed.
pub open spec fn first_line_of(text: Seq<char>) -> Option<Seq<char>> {
    let end = line_end(text);
    if text.len() == 0 {
        None
    } else if 0 < end < text.len() && text[end - 1] == '\r' {
        Some(text.subrange(0, end - 1))
    } else {
        Some(text.subrange(0, end))
    }
}

/// The view of an optional piece of text.
pub open spec fn text_of(line: Option<&str>) -> Option<Seq<char>> {
    match line {
        Some(l) => Some(l@),
        None => None,
    }
}

/// Cuts the first line out of `text`.
pub fn first_line<'a>(text: &'a str) -> (line: Option<&'a str>)
    ensures
        text_of(line) == first_line_of(text@),
{
    let n = text.unicode_len();
    if n == 0 {
        return None;
    }
    let mut end: usize = 0;
    let mut found = false;
    let mut after_return = false;
    for c in it: text.chars()
        invariant
            it.seq() == text@,
            n == text@.len(),
            end <= n,
            !found ==> end == it.index(),
            found ==> end < n && text@[end as int] == '\n',
            forall|j: int| 0 <= j < end ==> text@[j] != '\n',
            after_return <==> 0 < end && text@[end - 1] == '\r',
    {
        if !found {
            if c == '\n' {
                found = true;
            } else {
                after_return = c == '\r';
                end += 1;
            }
        }
    }
    proof {
        if found {
            lemma_first_index_found(text@, '\n', end as int);
        } else {
            lemma_first_index_absent(text@, '\n');
        }
    }
    if found && after_return {
        Some(text.substring_char(0, end - 1))
    } else {
        Some(text.substring_char(0, end))
    }
}

/// Whether two pieces of text hold the same characters.
pub fn same_text(a: &str, b: &str) -> (same: bool)
    ensures
        same == (a@ == b@),
{
    let x = a.to_owned();
    let y = b.to_owned();
    x == y
}

} // verus!
