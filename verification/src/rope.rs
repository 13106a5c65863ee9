//! Trusted boundary around the rope that backs the text store.
//!
//! The rope's contents are named by [`rope_text`]; every operation used by
//! the library is declared here with the behaviour that ropey documents,
//! stated over that name. Without optional features, ropey recognizes a
//! line break at every `'\n'` (a CRLF pair breaks at its `'\n'`), so the
//! line structure of a rope is [`crate::lines::split_lines`] of its text.

use crate::lines::{line_start, split_lines};
use vstd::prelude::*;

verus! {

#[verifier::external_type_specification]
#[verifier::external_body]
pub struct ExRope(ropey::Rope);

/// The characters held by a rope, in order.
pub uninterp spec fn rope_text(r: ropey::Rope) -> Seq<char>;

/// Number of line breaks in a text: one per `'\n'`.
pub open spec fn count_breaks(s: Seq<char>) -> nat
    decreases s.len(),
{
    if s.len() == 0 {
        0
    } else if s[0] == '\n' {
        count_breaks(s.skip(1)) + 1
    } else {
        count_breaks(s.skip(1))
    }
}

/// Splitting a text yields one more line than it has breaks.
pub proof fn lemma_split_count(s: Seq<char>)
    ensures
        split_lines(s).len() == count_breaks(s) + 1,
    decreases s.len(),
{
    if s.len() != 0 {
        lemma_split_count(s.skip(1));
        crate::lines::lemma_split_len_pos(s.skip(1));
    }
}

/// Relies on ropey::Rope::new: a freshly created rope is empty.
#[verifier::external_body]
pub(crate) fn rope_new() -> (r: ropey::Rope)
    ensures
        rope_text(r) == Seq::<char>::empty(),
{
    ropey::Rope::new()
}

/// Relies on ropey::Rope::from_str: builds a rope holding exactly the
/// characters of the given text.
#[verifier::external_body]
pub(crate) fn rope_from_str(s: &str) -> (r: ropey::Rope)
    ensures
        rope_text(r) == s@,
{
    ropey::Rope::from_str(s)
}

/// Relies on String::from(&Rope): renders the rope's characters in order.
#[verifier::external_body]
pub(crate) fn rope_to_string(r: &ropey::Rope) -> (s: String)
    ensures
        s@ == rope_text(*r),
{
    String::from(r)
}

/// Relies on ropey::Rope::len_chars: the total number of characters.
#[verifier::external_body]
pub(crate) fn rope_len_chars(r: &ropey::Rope) -> (n: usize)
    ensures
        n == rope_text(*r).len(),
{
    r.len_chars()
}

/// Relies on ropey::Rope::len_lines: one more than the number of line breaks.
#[verifier::external_body]
pub(crate) fn rope_len_lines(r: &ropey::Rope) -> (n: usize)
    ensures
        n == count_breaks(rope_text(*r)) + 1,
{
    r.len_lines()
}

/// Relies on ropey::Rope::line_to_char: the character index at which the
/// given line starts, i.e. the characters of all earlier lines plus their
/// terminators.
#[verifier::external_body]
pub(crate) fn rope_line_to_char(r: &ropey::Rope, line_idx: usize) -> (n: usize)
    requires
        line_idx < split_lines(rope_text(*r)).len(),
    ensures
        n == line_start(split_lines(rope_text(*r)), line_idx as int),
{
    r.line_to_char(line_idx)
}

/// Relies on ropey::Rope::line and RopeSlice::chars: the characters of the
/// given line, including its terminator on every line but the last.
#[verifier::external_body]
pub(crate) fn rope_line_chars(r: &ropey::Rope, line_idx: usize) -> (v: Vec<char>)
    requires
        line_idx < split_lines(rope_text(*r)).len(),
    ensures
        line_idx < split_lines(rope_text(*r)).len() - 1 ==> v@ == split_lines(rope_text(*r))[
            line_idx as int].push('\n'),
        line_idx == split_lines(rope_text(*r)).len() - 1 ==> v@ == split_lines(rope_text(*r))[
            line_idx as int],
{
    r.line(line_idx).chars().collect()
}

/// Relies on ropey::Rope::insert_char: inserts the character at the given
/// character index, shifting what follows.
#[verifier::external_body]
pub(crate) fn rope_insert_char(r: &mut ropey::Rope, char_idx: usize, ch: char)
    requires
        char_idx <= rope_text(*old(r)).len(),
    ensures
        rope_text(*final(r)) == rope_text(*old(r)).insert(char_idx as int, ch),
{
    r.insert_char(char_idx, ch);
}

/// Relies on ropey::Rope::remove: removes the character at the given
/// character index.
#[verifier::external_body]
pub(crate) fn rope_remove_char(r: &mut ropey::Rope, char_idx: usize)
    requires
        char_idx < rope_text(*old(r)).len(),
    ensures
        rope_text(*final(r)) == rope_text(*old(r)).remove(char_idx as int),
{
    r.remove(char_idx..char_idx + 1);
}

} // verus!
