//! Laws of the editing core that relate several operations, stated and
//! proved over the same models the operations' contracts use.

use crate::buffer::{is_match_at, pos_after, Buffer};
use crate::editor::{clamped_cursor, max_col_spec, wrapped_next, wrapped_prev, Cursor, Editor};
use crate::lines::{join_lines, lemma_join_split, lemma_split_len_pos, lemma_split_wf, lines_wf};
use crate::mode::Mode;
use vstd::prelude::*;

verus! {

/// The line structure a buffer reports is exactly an independent line
/// splitting of its full content: the lines always join back to the content,
/// there is at least one line, and no line contains a terminator. Together
/// with the line-level contracts of every mutator, the reported line count
/// and line lengths therefore agree with a from-scratch split of the content
/// after any sequence of edits.
pub proof fn lemma_lines_match_content(b: Buffer)
    ensures
        join_lines(b.lines()) == b.text_spec(),
        b.lines().len() >= 1,
        lines_wf(b.lines()),
{
    lemma_join_split(b.text_spec());
    lemma_split_len_pos(b.text_spec());
    lemma_split_wf(b.text_spec());
}

/// A cursor already within the mode's column rule is left exactly where it
/// is by clamping: re-clamping an already-clamped cursor is a no-op.
pub proof fn lemma_clamp_noop(lines: Seq<Seq<char>>, mode: Mode, cur: Cursor)
    requires
        (cur.line as int) < lines.len(),
        cur.col as int <= max_col_spec(lines, mode, cur.line as int),
    ensures
        clamped_cursor(lines, mode, cur) == cur,
{
}

/// Clamping an already-clamped cursor changes nothing.
pub proof fn lemma_clamp_idempotent(lines: Seq<Seq<char>>, mode: Mode, cur: Cursor)
    requires
        lines.len() >= 1,
    ensures
        clamped_cursor(lines, mode, clamped_cursor(lines, mode, cur)) == clamped_cursor(
            lines,
            mode,
            cur,
        ),
{
}

/// Entering Normal mode twice in a row leaves the same state as entering it
/// once: the second transition finds the mode already Normal, the pending
/// chord already cleared, and the cursor already clamped.
pub proof fn lemma_enter_normal_idempotent(e: Editor)
    requires
        e.wf(),
    ensures
        ({
            let once = Editor {
                mode: Mode::Normal,
                pending_normal: crate::editor::PendingNormal::Idle,
                cursor: clamped_cursor(e.cur_lines(), Mode::Normal, e.cursor),
                ..e
            };
            let twice = Editor {
                mode: Mode::Normal,
                pending_normal: crate::editor::PendingNormal::Idle,
                cursor: clamped_cursor(once.cur_lines(), Mode::Normal, once.cursor),
                ..once
            };
            twice == once
        }),
{
    let once = Editor {
        mode: Mode::Normal,
        pending_normal: crate::editor::PendingNormal::Idle,
        cursor: clamped_cursor(e.cur_lines(), Mode::Normal, e.cursor),
        ..e
    };
    assert(once.cur_lines() == e.cur_lines());
    lemma_clamp_idempotent(e.cur_lines(), Mode::Normal, e.cursor);
}

/// A forward search with wraparound followed immediately by a backward
/// search with wraparound from the hit lands at or before the original
/// position, provided some occurrence of the pattern lies at or before that
/// original position. (Without such an occurrence both searches stay among
/// the occurrences after the start, which lie beyond it.)
pub proof fn lemma_search_round_trip(
    lines: Seq<Seq<char>>,
    pat: Seq<char>,
    lstart: int,
    cstart: int,
    l1: int,
    c1: int,
    l2: int,
    c2: int,
)
    requires
        pat.len() > 0,
        exists|l: int, c: int|
            is_match_at(lines, pat, l, c) && !pos_after(lstart, cstart, l, c),
        wrapped_next(lines, pat, lstart, cstart, l1, c1),
        wrapped_prev(lines, pat, l1, c1, l2, c2),
    ensures
        !pos_after(lstart, cstart, l2, c2),
{
    let (ml, mc) = choose|l: int, c: int|
        is_match_at(lines, pat, l, c) && !pos_after(lstart, cstart, l, c);
    if pos_after(lstart, cstart, l1, c1) {
        // The forward search did not wrap: (l1, c1) is the first match after
        // the start. A match at or before the start is strictly before
        // (l1, c1), so the backward search cannot wrap either, and its hit,
        // being below (l1, c1) but not between the start and (l1, c1), is at
        // or before the start.
        assert(pos_after(ml, mc, l1, c1));
        if pos_after(l2, c2, l1, c1) {
            if pos_after(lstart, cstart, l2, c2) {
                assert(!pos_after(l2, c2, l1, c1));
            }
        } else {
            assert(pos_after(ml, mc, l1, c1));
            assert(false);
        }
    } else {
        // The forward search wrapped: no match lies after the start at all,
        // so wherever the backward search lands is at or before the start.
        assert(is_match_at(lines, pat, l2, c2));
        assert(!pos_after(lstart, cstart, l2, c2));
    }
}

/// The Normal-mode column rule never lets the cursor leave the line: the
/// clamped column is within the line in every mode, and strictly before the
/// line end outside Insert mode whenever the line is non-empty.
pub proof fn lemma_clamp_in_line(lines: Seq<Seq<char>>, mode: Mode, cur: Cursor)
    requires
        lines.len() >= 1,
    ensures
        ({
            let cl = clamped_cursor(lines, mode, cur);
            &&& (cl.line as int) < lines.len()
            &&& cl.col <= lines[cl.line as int].len()
            &&& (!(mode is Insert) && lines[cl.line as int].len() > 0 ==> (cl.col as int) < lines[
                cl.line as int].len())
        }),
{
}

} // verus!
