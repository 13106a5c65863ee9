//! The text store: an editable sequence of characters with line-oriented
//! addressing and literal substring search.
//!
//! A store always has at least one line; the empty store has exactly one
//! empty line. `line_len` never counts a line's terminator. Every mutation
//! sets the `modified` flag; only a successful save clears it.

use crate::lines::{
    join_lines, lemma_join_insert, lemma_join_len, lemma_join_merge_lines, lemma_join_remove,
    lemma_join_split, lemma_join_split_line, lemma_line_in_text, lemma_line_start_mono,
    lemma_split_join, lemma_split_len_pos, lemma_split_wf, line_start, lines_wf, split_lines,
};
use crate::rope::{
    lemma_split_count, rope_from_str, rope_insert_char, rope_len_chars,
    rope_len_lines, rope_line_chars, rope_line_to_char, rope_new, rope_remove_char,
    rope_text, rope_to_string,
};
use crate::strings::{after_last_sep, chars_to_string, path_file_name, str_chars};
use vstd::prelude::*;

verus! {

/// A text buffer with line/column addressing, an optional associated file
/// path, and a modified flag.
pub struct Buffer {
    /// The rope holding the text content.
    pub text: ropey::Rope,
    /// The file path associated with this buffer, if any.
    pub file_path: Option<String>,
    /// Whether the buffer has been modified since the last successful save.
    pub modified: bool,
}

impl Buffer {
    /// The characters of the whole text, in order.
    pub open spec fn text_spec(&self) -> Seq<char> {
        rope_text(self.text)
    }

    /// The lines of the text; always at least one.
    pub open spec fn lines(&self) -> Seq<Seq<char>> {
        split_lines(self.text_spec())
    }

    /// Create a new empty buffer: one empty line, no path, not modified.
    pub fn new() -> (r: Self)
        ensures
            r.text_spec() == Seq::<char>::empty(),
            r.lines() == seq![Seq::<char>::empty()],
            r.file_path is None,
            !r.modified,
    {
        let r = Buffer { text: rope_new(), file_path: None, modified: false };
        proof {
            assert(r.lines() =~~= seq![Seq::<char>::empty()]);
        }
        r
    }

    /// Build a buffer from the full text content, optionally associating a
    /// file path; the buffer starts unmodified.
    pub fn from_content(content: &str, file_path: Option<String>) -> (r: Self)
        ensures
            r.text_spec() == content@,
            r.file_path == file_path,
            !r.modified,
    {
        Buffer { text: rope_from_str(content), file_path, modified: false }
    }

    /// The full text content as a string.
    pub fn content(&self) -> (r: String)
        ensures
            r@ == self.text_spec(),
    {
        rope_to_string(&self.text)
    }

    /// True if the buffer holds no characters at all.
    pub fn is_empty(&self) -> (r: bool)
        ensures
            r == (self.text_spec().len() == 0),
    {
        rope_len_chars(&self.text) == 0
    }

    /// Number of lines; at least 1 even for an empty buffer.
    pub fn line_count(&self) -> (r: usize)
        ensures
            r == self.lines().len(),
            r >= 1,
    {
        proof {
            lemma_split_count(self.text_spec());
        }
        rope_len_lines(&self.text)
    }

    /// Character count of the given line, excluding its terminator;
    /// 0 if the index is out of range.
    pub fn line_len(&self, line_idx: usize) -> (r: usize)
        ensures
            line_idx < self.lines().len() ==> r == self.lines()[line_idx as int].len(),
            line_idx >= self.lines().len() ==> r == 0,
    {
        let count = self.line_count();
        if line_idx >= count {
            return 0;
        }
        let total = rope_len_chars(&self.text);
        let start = rope_line_to_char(&self.text, line_idx);
        proof {
            lemma_join_split(self.text_spec());
            lemma_join_len(self.lines());
            lemma_line_in_text(self.lines(), line_idx as int);
            if line_idx as int + 1 < self.lines().len() {
                lemma_line_start_mono(self.lines(), line_idx as int + 1, self.lines().len() - 1);
            }
        }
        if line_idx + 1 < count {
            let next = rope_line_to_char(&self.text, line_idx + 1);
            next - start - 1
        } else {
            total - start
        }
    }

    /// The characters of the given line, including its terminator on every
    /// line but the last; None if the index is out of range.
    pub fn line(&self, line_idx: usize) -> (r: Option<Vec<char>>)
        ensures
            line_idx >= self.lines().len() ==> r is None,
            line_idx < self.lines().len() - 1 ==> (r matches Some(v) && v@ == self.lines()[line_idx
                as int].push('\n')),
            line_idx == self.lines().len() - 1 ==> (r matches Some(v) && v@ == self.lines()[line_idx
                as int]),
    {
        if line_idx < self.line_count() {
            Some(rope_line_chars(&self.text, line_idx))
        } else {
            None
        }
    }

    /// The characters of the given line without its terminator.
    pub fn line_chars(&self, line_idx: usize) -> (r: Vec<char>)
        requires
            line_idx < self.lines().len(),
        ensures
            r@ == self.lines()[line_idx as int],
    {
        let count = self.line_count();
        let mut v = rope_line_chars(&self.text, line_idx);
        if line_idx < count - 1 {
            v.pop();
        }
        v
    }

    /// Insert a character at the given line and column. The text changes at
    /// the absolute character offset of that position; a terminator splits
    /// the line in two, any other character grows the line by one.
    pub fn insert_char(&mut self, line: usize, col: usize, ch: char)
        requires
            line < old(self).lines().len(),
            col <= old(self).lines()[line as int].len(),
        ensures
            final(self).text_spec() == old(self).text_spec().insert(
                line_start(old(self).lines(), line as int) + col,
                ch,
            ),
            ch != '\n' ==> final(self).lines() == old(self).lines().update(
                line as int,
                old(self).lines()[line as int].insert(col as int, ch),
            ),
            ch == '\n' ==> final(self).lines() == old(self).lines().subrange(0, line as int) + seq![
                old(self).lines()[line as int].take(col as int),
                old(self).lines()[line as int].skip(col as int),
            ] + old(self).lines().subrange(line as int + 1, old(self).lines().len() as int),
            final(self).modified,
            final(self).file_path == old(self).file_path,
    {
        proof {
            lemma_join_split(self.text_spec());
            lemma_line_in_text(self.lines(), line as int);
        }
        let total = rope_len_chars(&self.text);
        let start = rope_line_to_char(&self.text, line);
        let ghost old_lines = self.lines();
        let ghost old_text = self.text_spec();
        rope_insert_char(&mut self.text, start + col, ch);
        self.modified = true;
        proof {
            lemma_split_wf(old_text);
            if ch != '\n' {
                lemma_join_insert(old_lines, line as int, col as int, ch);
                let upd = old_lines.update(
                    line as int,
                    old_lines[line as int].insert(col as int, ch),
                );
                assert(join_lines(upd) == self.text_spec());
                assert(lines_wf(upd)) by {
                    assert forall|l: int| 0 <= l < upd.len() implies !(#[trigger] upd[l]).contains(
                        '\n',
                    ) by {
                        if l == line as int {
                            let ins = old_lines[l].insert(col as int, ch);
                            assert(!old_lines[l].contains('\n'));
                            assert forall|i: int| 0 <= i < ins.len() implies ins[i] != '\n' by {
                                old_lines[l].insert_ensures(col as int, ch);
                                if i < col as int {
                                    assert(ins[i] == old_lines[l][i]);
                                } else if i == col as int {
                                } else {
                                    assert(ins[i] == old_lines[l][i - 1]);
                                }
                            }
                        } else {
                            assert(upd[l] == old_lines[l]);
                        }
                    }
                }
                lemma_split_join(upd);
            } else {
                lemma_join_split_line(old_lines, line as int, col as int);
                let upd = old_lines.subrange(0, line as int) + seq![
                    old_lines[line as int].take(col as int),
                    old_lines[line as int].skip(col as int),
                ] + old_lines.subrange(line as int + 1, old_lines.len() as int);
                assert(join_lines(upd) == self.text_spec());
                assert(lines_wf(upd)) by {
                    assert forall|l: int| 0 <= l < upd.len() implies !(#[trigger] upd[l]).contains(
                        '\n',
                    ) by {
                        if l < line as int {
                            assert(upd[l] == old_lines[l]);
                        } else if l == line as int {
                            let t = old_lines[l].take(col as int);
                            assert(!old_lines[l].contains('\n'));
                            assert(forall|i: int| 0 <= i < t.len() ==> t[i] == old_lines[l][i]);
                        } else if l == line as int + 1 {
                            let t = old_lines[line as int].skip(col as int);
                            assert(!old_lines[line as int].contains('\n'));
                            assert(forall|i: int|
                                0 <= i < t.len() ==> t[i] == old_lines[line as int][i + col]);
                        } else {
                            assert(upd[l] == old_lines[l - 1]);
                        }
                    }
                }
                lemma_split_join(upd);
            }
        }
    }

    /// Insert a line terminator at the given position, splitting the line.
    pub fn insert_newline(&mut self, line: usize, col: usize)
        requires
            line < old(self).lines().len(),
            col <= old(self).lines()[line as int].len(),
        ensures
            final(self).text_spec() == old(self).text_spec().insert(
                line_start(old(self).lines(), line as int) + col,
                '\n',
            ),
            final(self).lines() == old(self).lines().subrange(0, line as int) + seq![
                old(self).lines()[line as int].take(col as int),
                old(self).lines()[line as int].skip(col as int),
            ] + old(self).lines().subrange(line as int + 1, old(self).lines().len() as int),
            final(self).modified,
            final(self).file_path == old(self).file_path,
    {
        self.insert_char(line, col, '\n')
    }

    /// Delete the character at the given position. Deletes only if the
    /// column is strictly inside the line, or exactly at its end while a
    /// following line exists (which removes the terminator and joins the
    /// two lines); otherwise the call is a no-op.
    pub fn delete_char(&mut self, line: usize, col: usize)
        ensures
            line >= old(self).lines().len() ==> *final(self) == *old(self),
            line < old(self).lines().len() && col < old(self).lines()[line as int].len() ==> {
                &&& final(self).lines() == old(self).lines().update(
                    line as int,
                    old(self).lines()[line as int].remove(col as int),
                )
                &&& final(self).text_spec() == old(self).text_spec().remove(
                    line_start(old(self).lines(), line as int) + col,
                )
                &&& final(self).modified
            },
            col == old(self).lines()[line as int].len() && line < old(self).lines().len() - 1 ==> {
                &&& final(self).lines() == old(self).lines().subrange(0, line as int) + seq![
                    old(self).lines()[line as int] + old(self).lines()[line as int + 1],
                ] + old(self).lines().subrange(line as int + 2, old(self).lines().len() as int)
                &&& final(self).text_spec() == old(self).text_spec().remove(
                    line_start(old(self).lines(), line as int) + col,
                )
                &&& final(self).modified
            },
            line < old(self).lines().len() && (col > old(self).lines()[line as int].len() || (col
                == old(self).lines()[line as int].len() && line == old(self).lines().len() - 1))
                ==> *final(self) == *old(self),
            final(self).file_path == old(self).file_path,
    {
        let count = self.line_count();
        let llen = self.line_len(line);
        if col < llen || (line < count - 1 && col == llen) {
            proof {
                lemma_join_split(self.text_spec());
                lemma_line_in_text(self.lines(), line as int);
            }
            let total = rope_len_chars(&self.text);
            let start = rope_line_to_char(&self.text, line);
            let ghost old_lines = self.lines();
            let ghost old_text = self.text_spec();
            rope_remove_char(&mut self.text, start + col);
            self.modified = true;
            proof {
                lemma_split_wf(old_text);
                if col < old_lines[line as int].len() {
                    lemma_join_remove(old_lines, line as int, col as int);
                    let upd = old_lines.update(
                        line as int,
                        old_lines[line as int].remove(col as int),
                    );
                    assert(join_lines(upd) == self.text_spec());
                    assert(lines_wf(upd)) by {
                        assert forall|l: int| 0 <= l < upd.len() implies !(
                        #[trigger] upd[l]).contains('\n') by {
                            if l == line as int {
                                let rem = old_lines[l].remove(col as int);
                                assert(!old_lines[l].contains('\n'));
                                old_lines[l].remove_ensures(col as int);
                                assert forall|i: int| 0 <= i < rem.len() implies rem[i] != '\n' by {
                                    if i < col as int {
                                        assert(rem[i] == old_lines[l][i]);
                                    } else {
                                        assert(rem[i] == old_lines[l][i + 1]);
                                    }
                                }
                            } else {
                                assert(upd[l] == old_lines[l]);
                            }
                        }
                    }
                    lemma_split_join(upd);
                } else {
                    lemma_join_merge_lines(old_lines, line as int);
                    let upd = old_lines.subrange(0, line as int) + seq![
                        old_lines[line as int] + old_lines[line as int + 1],
                    ] + old_lines.subrange(line as int + 2, old_lines.len() as int);
                    assert(join_lines(upd) == self.text_spec());
                    assert(lines_wf(upd)) by {
                        assert forall|l: int| 0 <= l < upd.len() implies !(
                        #[trigger] upd[l]).contains('\n') by {
                            if l < line as int {
                                assert(upd[l] == old_lines[l]);
                            } else if l == line as int {
                                let m = old_lines[l] + old_lines[l + 1];
                                assert(!old_lines[l].contains('\n'));
                                assert(!old_lines[l + 1].contains('\n'));
                                assert(forall|i: int|
                                    0 <= i < m.len() ==> m[i] == if i < old_lines[l].len() {
                                        old_lines[l][i]
                                    } else {
                                        old_lines[l + 1][i - old_lines[l].len()]
                                    });
                            } else {
                                assert(upd[l] == old_lines[l + 1]);
                            }
                        }
                    }
                    lemma_split_join(upd);
                }
            }
        }
    }

    /// Backspace semantics: delete the character before the given position.
    /// Inside a line this removes the previous character; at column 0 it
    /// joins with the previous line. Returns the new cursor position, or
    /// None at the very start of the buffer (a no-op).
    pub fn delete_char_before(&mut self, line: usize, col: usize) -> (r: Option<(usize, usize)>)
        requires
            line < old(self).lines().len(),
            col <= old(self).lines()[line as int].len(),
        ensures
            col > 0 ==> {
                &&& r == Some((line, (col - 1) as usize))
                &&& final(self).lines() == old(self).lines().update(
                    line as int,
                    old(self).lines()[line as int].remove(col - 1),
                )
                &&& final(self).modified
            },
            col == 0 && line > 0 ==> {
                &&& r == Some(((line - 1) as usize, old(self).lines()[line as int - 1].len() as usize))
                &&& final(self).lines() == old(self).lines().subrange(0, line as int - 1) + seq![
                    old(self).lines()[line as int - 1] + old(self).lines()[line as int],
                ] + old(self).lines().subrange(line as int + 1, old(self).lines().len() as int)
                &&& final(self).modified
            },
            col == 0 && line == 0 ==> r is None && *final(self) == *old(self),
            final(self).file_path == old(self).file_path,
    {
        if col > 0 {
            self.delete_char(line, col - 1);
            Some((line, col - 1))
        } else if line > 0 {
            let prev_line_len = self.line_len(line - 1);
            self.delete_char(line - 1, prev_line_len);
            Some((line - 1, prev_line_len))
        } else {
            None
        }
    }
}

/// The pattern occurs in `line` starting at column `c`.
pub open spec fn seq_match(line: Seq<char>, pat: Seq<char>, c: int) -> bool {
    0 <= c && c + pat.len() <= line.len() && line.subrange(c, c + pat.len()) == pat
}

/// The pattern occurs at position `(l, c)` of the lines.
pub open spec fn is_match_at(lines: Seq<Seq<char>>, pat: Seq<char>, l: int, c: int) -> bool {
    0 <= l < lines.len() && seq_match(lines[l], pat, c)
}

/// Position `(l2, c2)` lies strictly after `(l1, c1)` in reading order.
pub open spec fn pos_after(l1: int, c1: int, l2: int, c2: int) -> bool {
    l2 > l1 || (l2 == l1 && c2 > c1)
}

/// `(l, c)` is the first match strictly after `(lstart, cstart)`.
pub open spec fn first_match_from(
    lines: Seq<Seq<char>>,
    pat: Seq<char>,
    lstart: int,
    cstart: int,
    l: int,
    c: int,
) -> bool {
    &&& is_match_at(lines, pat, l, c)
    &&& pos_after(lstart, cstart, l, c)
    &&& forall|l2: int, c2: int|
        is_match_at(lines, pat, l2, c2) && pos_after(lstart, cstart, l2, c2) ==> !pos_after(
            l2,
            c2,
            l,
            c,
        )
}

/// `(l, c)` is the first match of the whole buffer in reading order.
pub open spec fn first_match(lines: Seq<Seq<char>>, pat: Seq<char>, l: int, c: int) -> bool {
    &&& is_match_at(lines, pat, l, c)
    &&& forall|l2: int, c2: int| is_match_at(lines, pat, l2, c2) ==> !pos_after(l2, c2, l, c)
}

/// `(l, c)` is the last match strictly before `(lstart, cstart)`.
pub open spec fn last_match_before(
    lines: Seq<Seq<char>>,
    pat: Seq<char>,
    lstart: int,
    cstart: int,
    l: int,
    c: int,
) -> bool {
    &&& is_match_at(lines, pat, l, c)
    &&& pos_after(l, c, lstart, cstart)
    &&& forall|l2: int, c2: int|
        is_match_at(lines, pat, l2, c2) && pos_after(l2, c2, lstart, cstart) ==> !pos_after(
            l,
            c,
            l2,
            c2,
        )
}

/// `(l, c)` is the last match of the whole buffer in reading order.
pub open spec fn last_match(lines: Seq<Seq<char>>, pat: Seq<char>, l: int, c: int) -> bool {
    &&& is_match_at(lines, pat, l, c)
    &&& forall|l2: int, c2: int| is_match_at(lines, pat, l2, c2) ==> !pos_after(l, c, l2, c2)
}

/// No match lies strictly after `(lstart, cstart)`.
pub open spec fn no_match_after(
    lines: Seq<Seq<char>>,
    pat: Seq<char>,
    lstart: int,
    cstart: int,
) -> bool {
    forall|l2: int, c2: int|
        is_match_at(lines, pat, l2, c2) ==> !pos_after(lstart, cstart, l2, c2)
}

/// No match lies strictly before `(lstart, cstart)`.
pub open spec fn no_match_before(
    lines: Seq<Seq<char>>,
    pat: Seq<char>,
    lstart: int,
    cstart: int,
) -> bool {
    forall|l2: int, c2: int|
        is_match_at(lines, pat, l2, c2) ==> !pos_after(l2, c2, lstart, cstart)
}

/// The pattern occurs somewhere in the lines.
pub open spec fn has_match(lines: Seq<Seq<char>>, pat: Seq<char>) -> bool {
    exists|l: int, c: int| is_match_at(lines, pat, l, c)
}

/// Whether the pattern occurs in the line at exactly column `c`.
fn chars_match_at(line: &Vec<char>, c: usize, pat: &Vec<char>) -> (r: bool)
    requires
        c + pat@.len() <= line@.len(),
    ensures
        r == seq_match(line@, pat@, c as int),
{
    let n = pat.len();
    let llen = line.len();
    let mut i: usize = 0;
    while i < n
        invariant
            i <= n,
            n == pat@.len(),
            llen == line@.len(),
            c + n <= llen,
            forall|j: int| 0 <= j < i ==> line@[c + j] == pat@[j],
        decreases n - i,
    {
        if line[c + i] != pat[i] {
            return false;
        }
        i += 1;
    }
    proof {
        assert(line@.subrange(c as int, c + pat@.len()) =~= pat@);
    }
    true
}

/// First occurrence of the pattern in the line at a column `>= start`.
fn find_in_line_from(line: &Vec<char>, start: usize, pat: &Vec<char>) -> (r: Option<usize>)
    requires
        pat@.len() >= 1,
    ensures
        r matches Some(c) ==> (start <= c && seq_match(line@, pat@, c as int) && forall|c2: int|
            start <= c2 < c ==> !seq_match(line@, pat@, c2)),
        r is None ==> forall|c2: int| c2 >= start ==> !seq_match(line@, pat@, c2),
{
    let llen = line.len();
    let plen = pat.len();
    if plen > llen || start > llen - plen {
        return None;
    }
    let mut c = start;
    while llen - c >= plen
        invariant
            start <= c <= llen,
            llen == line@.len(),
            plen == pat@.len(),
            plen >= 1,
            forall|c2: int| start <= c2 < c ==> !seq_match(line@, pat@, c2),
        decreases llen - c,
    {
        if chars_match_at(line, c, pat) {
            return Some(c);
        }
        c += 1;
    }
    None
}

/// Last occurrence of the pattern in the line at a column in `[lo, end)`.
fn rfind_in_range(line: &Vec<char>, lo: usize, end: usize, pat: &Vec<char>) -> (r: Option<usize>)
    requires
        pat@.len() >= 1,
    ensures
        r matches Some(c) ==> (lo <= c < end && seq_match(line@, pat@, c as int) && forall|c2: int|
            c < c2 < end ==> !seq_match(line@, pat@, c2)),
        r is None ==> forall|c2: int| lo <= c2 < end ==> !seq_match(line@, pat@, c2),
{
    let llen = line.len();
    let mut c = if end > llen {
        llen
    } else {
        end
    };
    while c > lo
        invariant
            c <= end,
            c <= llen,
            llen == line@.len(),
            pat@.len() >= 1,
            forall|c2: int| c <= c2 < end ==> !seq_match(line@, pat@, c2),
        decreases c,
    {
        c -= 1;
        if pat.len() <= llen - c {
            if chars_match_at(line, c, pat) {
                return Some(c);
            }
        }
    }
    None
}

impl Buffer {
    /// Find the next occurrence of the pattern after `(start_line, start_col)`
    /// in reading order: first on the starting line strictly after the given
    /// column, then on the following lines; with `wrap`, a second pass covers
    /// the buffer start up to and including the starting position. Returns
    /// the match's first character, or None. Empty patterns never match.
    pub fn find_forward(&self, start_line: usize, start_col: usize, pattern: &str, wrap: bool) -> (r:
        Option<(usize, usize)>)
        ensures
            pattern@.len() == 0 ==> r is None,
            r matches Some(pos) ==> pattern@.len() >= 1,
            r matches Some(pos) ==> (pos_after(start_line as int, start_col as int, pos.0 as int,
            pos.1 as int) ==> first_match_from(
                self.lines(),
                pattern@,
                start_line as int,
                start_col as int,
                pos.0 as int,
                pos.1 as int,
            )),
            r matches Some(pos) ==> (!pos_after(start_line as int, start_col as int, pos.0 as int,
            pos.1 as int) ==> (wrap && no_match_after(
                self.lines(),
                pattern@,
                start_line as int,
                start_col as int,
            ) && first_match(self.lines(), pattern@, pos.0 as int, pos.1 as int))),
            (r is None && pattern@.len() >= 1) ==> no_match_after(
                self.lines(),
                pattern@,
                start_line as int,
                start_col as int,
            ),
            (r is None && pattern@.len() >= 1 && wrap) ==> !has_match(self.lines(), pattern@),
    {
        let pat = str_chars(pattern);
        if pat.len() == 0 {
            return None;
        }
        let count = self.line_count();
        let ghost lines = self.lines();
        let ghost lstart = start_line as int;
        let ghost cstart = start_col as int;

        // Pass 1: the starting line, strictly after the starting column.
        let llen = self.line_len(start_line);
        if start_col < llen {
            let lc = self.line_chars(start_line);
            if let Some(c) = find_in_line_from(&lc, start_col + 1, &pat) {
                proof {
                    assert forall|l2: int, c2: int|
                        is_match_at(lines, pattern@, l2, c2) && pos_after(
                            lstart,
                            cstart,
                            l2,
                            c2,
                        ) implies !pos_after(l2, c2, lstart, c as int) by {}
                }
                return Some((start_line, c));
            }
        }
        proof {
            if lstart < lines.len() {
                assert forall|c2: int| c2 > cstart implies !seq_match(
                    lines[lstart],
                    pattern@,
                    c2,
                ) by {
                    if start_col >= llen {
                        assert(c2 + pattern@.len() > lines[lstart].len());
                    }
                }
            }
        }

        // Pass 1: the lines after the starting line.
        let mut li = if start_line < count {
            start_line + 1
        } else {
            count
        };
        while li < count
            invariant
                li <= count,
                li > lstart || li >= count,
                count == lines.len(),
                lines == self.lines(),
                pat@ == pattern@,
                pat@.len() >= 1,
                lstart == start_line as int,
                cstart == start_col as int,
                lstart < lines.len() ==> forall|c2: int|
                    c2 > cstart ==> !seq_match(lines[lstart], pattern@, c2),
                forall|l2: int, c2: int|
                    lstart < l2 < li ==> !(#[trigger] seq_match(lines[l2], pattern@, c2)),
            decreases count - li,
        {
            let lc = self.line_chars(li);
            if let Some(c) = find_in_line_from(&lc, 0, &pat) {
                proof {
                    assert(seq_match(lines[li as int], pattern@, c as int));
                    assert forall|l2: int, c2: int|
                        is_match_at(lines, pattern@, l2, c2) && pos_after(
                            lstart,
                            cstart,
                            l2,
                            c2,
                        ) implies !pos_after(l2, c2, li as int, c as int) by {
                        if l2 == lstart {
                        } else if l2 < li as int {
                        } else if l2 == li as int {
                        }
                    }
                    assert(pos_after(lstart, cstart, li as int, c as int));
                    assert(is_match_at(lines, pattern@, li as int, c as int));
                    assert(first_match_from(lines, pattern@, lstart, cstart, li as int, c as int));
                }
                return Some((li, c));
            }
            li += 1;
        }
        assert(no_match_after(lines, pattern@, lstart, cstart)) by {
            assert forall|l2: int, c2: int|
                is_match_at(lines, pattern@, l2, c2) implies !pos_after(lstart, cstart, l2, c2) by {
                if l2 == lstart {
                } else if lstart < l2 && l2 < lines.len() {
                }
            }
        }

        // Pass 2 (wrap): from the buffer start up to and including the
        // starting position.
        if wrap {
            let mut li2: usize = 0;
            while li2 < start_line && li2 < count
                invariant
                    li2 <= start_line,
                    li2 <= count,
                    count == lines.len(),
                    lines == self.lines(),
                    pat@ == pattern@,
                    pat@.len() >= 1,
                    lstart == start_line as int,
                    cstart == start_col as int,
                    wrap,
                    no_match_after(lines, pattern@, lstart, cstart),
                    forall|l2: int, c2: int|
                        0 <= l2 < li2 ==> !(#[trigger] seq_match(lines[l2], pattern@, c2)),
                decreases start_line - li2,
            {
                let lc = self.line_chars(li2);
                if let Some(c) = find_in_line_from(&lc, 0, &pat) {
                    proof {
                        assert(seq_match(lines[li2 as int], pattern@, c as int));
                        assert(!pos_after(lstart, cstart, li2 as int, c as int));
                        assert forall|l2: int, c2: int|
                            is_match_at(lines, pattern@, l2, c2) implies !pos_after(
                            l2,
                            c2,
                            li2 as int,
                            c as int,
                        ) by {
                            if l2 < li2 as int {
                            } else if l2 == li2 as int {
                            } else {
                                assert(!pos_after(lstart, cstart, l2, c2) || pos_after(
                                    li2 as int,
                                    c as int,
                                    l2,
                                    c2,
                                ));
                            }
                        }
                    }
                    return Some((li2, c));
                }
                li2 += 1;
            }
            if start_line < count {
                let lc = self.line_chars(start_line);
                if let Some(c) = find_in_line_from(&lc, 0, &pat) {
                    if c <= start_col {
                        proof {
                            assert(seq_match(lines[lstart], pattern@, c as int));
                            assert forall|l2: int, c2: int|
                                is_match_at(lines, pattern@, l2, c2) implies !pos_after(
                                l2,
                                c2,
                                lstart,
                                c as int,
                            ) by {
                                if l2 < lstart {
                                } else if l2 == lstart {
                                }
                            }
                        }
                        return Some((start_line, c));
                    }
                    proof {
                        assert(seq_match(lines[lstart], pattern@, c as int));
                        assert(pos_after(lstart, cstart, lstart, c as int));
                        assert(!no_match_after(lines, pattern@, lstart, cstart));
                    }
                } else {
                    assert(!has_match(lines, pattern@));
                }
            } else {
                proof {
                    assert forall|l2: int, c2: int|
                        is_match_at(lines, pattern@, l2, c2) implies false by {}
                }
            }
        }
        None
    }

    /// Find the previous occurrence of the pattern before
    /// `(start_line, start_col)` in reading order: first on the starting line
    /// strictly before the given column, then on the earlier lines in
    /// reverse; with `wrap`, a second pass covers the buffer end down to and
    /// including the starting position. Returns the match's first character,
    /// or None. Empty patterns never match.
    pub fn find_backward(&self, start_line: usize, start_col: usize, pattern: &str, wrap: bool) -> (r:
        Option<(usize, usize)>)
        ensures
            pattern@.len() == 0 ==> r is None,
            r matches Some(pos) ==> pattern@.len() >= 1,
            r matches Some(pos) ==> (pos_after(pos.0 as int, pos.1 as int, start_line as int,
            start_col as int) ==> last_match_before(
                self.lines(),
                pattern@,
                start_line as int,
                start_col as int,
                pos.0 as int,
                pos.1 as int,
            )),
            r matches Some(pos) ==> (!pos_after(pos.0 as int, pos.1 as int, start_line as int,
            start_col as int) ==> (wrap && no_match_before(
                self.lines(),
                pattern@,
                start_line as int,
                start_col as int,
            ) && last_match(self.lines(), pattern@, pos.0 as int, pos.1 as int))),
            (r is None && pattern@.len() >= 1) ==> no_match_before(
                self.lines(),
                pattern@,
                start_line as int,
                start_col as int,
            ),
            (r is None && pattern@.len() >= 1 && wrap) ==> !has_match(self.lines(), pattern@),
    {
        let pat = str_chars(pattern);
        if pat.len() == 0 {
            return None;
        }
        let count = self.line_count();
        let ghost lines = self.lines();
        let ghost lstart = start_line as int;
        let ghost cstart = start_col as int;

        // Pass 1: the starting line, strictly before the starting column.
        if start_line < count {
            let lc0 = self.line_chars(start_line);
            if let Some(c) = rfind_in_range(&lc0, 0, start_col, &pat) {
                proof {
                    assert(seq_match(lines[lstart], pattern@, c as int));
                    assert forall|l2: int, c2: int|
                        is_match_at(lines, pattern@, l2, c2) && pos_after(
                            l2,
                            c2,
                            lstart,
                            cstart,
                        ) implies !pos_after(lstart, c as int, l2, c2) by {}
                }
                return Some((start_line, c));
            }
        }

        // Pass 1: the lines before the starting line, in reverse.
        let mut li = if start_line < count {
            start_line
        } else {
            count
        };
        while li > 0
            invariant
                li <= count,
                li <= start_line,
                count == lines.len(),
                lines == self.lines(),
                pat@ == pattern@,
                pat@.len() >= 1,
                lstart == start_line as int,
                cstart == start_col as int,
                lstart < lines.len() ==> forall|c2: int|
                    0 <= c2 < cstart ==> !seq_match(lines[lstart], pattern@, c2),
                forall|l2: int, c2: int|
                    li <= l2 < lstart && l2 < count ==> !(#[trigger] seq_match(
                        lines[l2],
                        pattern@,
                        c2,
                    )),
            decreases li,
        {
            li -= 1;
            let lc = self.line_chars(li);
            let llen = lc.len();
            if let Some(c) = rfind_in_range(&lc, 0, llen, &pat) {
                proof {
                    assert(seq_match(lines[li as int], pattern@, c as int));
                    assert forall|l2: int, c2: int|
                        is_match_at(lines, pattern@, l2, c2) && pos_after(
                            l2,
                            c2,
                            lstart,
                            cstart,
                        ) implies !pos_after(li as int, c as int, l2, c2) by {
                        if l2 == lstart {
                        } else if l2 == li as int {
                            assert(c2 < llen as int || !seq_match(lines[l2], pattern@, c2));
                        } else if (li as int) < l2 && l2 < lstart {
                        }
                    }
                }
                return Some((li, c));
            }
            proof {
                assert forall|c2: int| !seq_match(lines[li as int], pattern@, c2) by {
                    if 0 <= c2 < llen as int {
                    } else {
                        assert(!(0 <= c2 && c2 + pattern@.len() <= lines[li as int].len()));
                    }
                }
            }
        }
        assert(no_match_before(lines, pattern@, lstart, cstart)) by {
            assert forall|l2: int, c2: int|
                is_match_at(lines, pattern@, l2, c2) implies !pos_after(l2, c2, lstart, cstart) by {
                if l2 == lstart {
                } else if 0 <= l2 < lstart {
                }
            }
        }

        // Pass 2 (wrap): from the buffer end down to and including the
        // starting position.
        if wrap {
            let mut li2 = count;
            while li2 > 0 && li2 - 1 > start_line
                invariant
                    li2 <= count,
                    count == lines.len(),
                    lines == self.lines(),
                    pat@ == pattern@,
                    pat@.len() >= 1,
                    lstart == start_line as int,
                    cstart == start_col as int,
                    wrap,
                    no_match_before(lines, pattern@, lstart, cstart),
                    forall|l2: int, c2: int|
                        li2 <= l2 < count ==> !(#[trigger] seq_match(lines[l2], pattern@, c2)),
                decreases li2,
            {
                li2 -= 1;
                let lc = self.line_chars(li2);
                let llen = lc.len();
                if let Some(c) = rfind_in_range(&lc, 0, llen, &pat) {
                    proof {
                        assert(seq_match(lines[li2 as int], pattern@, c as int));
                        assert(!pos_after(li2 as int, c as int, lstart, cstart));
                        assert forall|l2: int, c2: int|
                            is_match_at(lines, pattern@, l2, c2) implies !pos_after(
                            li2 as int,
                            c as int,
                            l2,
                            c2,
                        ) by {
                            if l2 == li2 as int {
                                assert(c2 < llen as int || !seq_match(lines[l2], pattern@, c2));
                            } else if (li2 as int) < l2 && l2 < count as int {
                            }
                        }
                    }
                    return Some((li2, c));
                }
                proof {
                    assert forall|c2: int| !seq_match(lines[li2 as int], pattern@, c2) by {
                        if 0 <= c2 < llen as int {
                        } else {
                            assert(!(0 <= c2 && c2 + pattern@.len() <= lines[li2 as int].len()));
                        }
                    }
                }
            }
            if start_line < count {
                let lc = self.line_chars(start_line);
                let llen = lc.len();
                if start_col < llen {
                    if let Some(c) = rfind_in_range(&lc, start_col, llen, &pat) {
                        proof {
                            assert(seq_match(lines[lstart], pattern@, c as int));
                            assert(!pos_after(lstart, c as int, lstart, cstart));
                            assert forall|l2: int, c2: int|
                                is_match_at(lines, pattern@, l2, c2) implies !pos_after(
                                lstart,
                                c as int,
                                l2,
                                c2,
                            ) by {
                                if l2 == lstart {
                                    assert(c2 < llen as int || !seq_match(lines[l2], pattern@, c2));
                                } else if lstart < l2 && l2 < (count as int) {
                                }
                            }
                        }
                        return Some((start_line, c));
                    }
                }
                proof {
                    assert forall|l2: int, c2: int| is_match_at(
                        lines,
                        pattern@,
                        l2,
                        c2,
                    ) implies false by {
                        if l2 == lstart {
                            assert(c2 + pattern@.len() <= lines[lstart].len());
                            assert(!(0 <= c2 < cstart));
                            assert(!(cstart <= c2 < llen as int));
                        }
                    }
                }
            } else {
                // Every line lies strictly before the starting position, so
                // the first pass already covered the whole buffer.
                proof {
                    assert forall|l2: int, c2: int| is_match_at(
                        lines,
                        pattern@,
                        l2,
                        c2,
                    ) implies false by {
                        assert(pos_after(l2, c2, lstart, cstart));
                    }
                }
            }
        }
        None
    }
}

impl Buffer {
    /// The final component of the associated file path (the name after the
    /// last separator), if a path is associated.
    pub fn filename(&self) -> (r: Option<String>)
        ensures
            self.file_path is None ==> r is None,
            self.file_path matches Some(p) ==> (r matches Some(n) && n@ == after_last_sep(p@)),
    {
        match &self.file_path {
            Option::None => Option::None,
            Option::Some(p) => {
                let name = path_file_name(p.as_str());
                Option::Some(chars_to_string(&name))
            },
        }
    }
}

impl Default for Buffer {
    /// A default buffer is a new empty one.
    fn default() -> (r: Self)
        ensures
            r.text_spec() == Seq::<char>::empty(),
            r.file_path is None,
            !r.modified,
    {
        Buffer::new()
    }
}

} // verus!
