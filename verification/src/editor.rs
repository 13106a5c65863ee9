//! The editor state: cursor and motion engine over the current text buffer,
//! the mode state machine, viewport tracking, and the `:` command
//! interpreter.
//!
//! Every mutator keeps the cursor inside the current buffer's bounds: the
//! cursor line always names an existing line and the column never exceeds
//! that line's length. The stricter Normal-mode column rule (at most one
//! before the line end) is applied by the clamping operations.

use crate::buffer::{
    first_match, first_match_from, has_match, is_match_at, last_match, last_match_before,
    no_match_after, no_match_before, pos_after, Buffer,
};
use crate::mode::Mode;
use crate::strings::{chars_to_string, is_ws, is_ws_spec, range_eq_str, subrange_chars, trim_chars, trim_spec};
use vstd::string::StringExecFns;
use vstd::pervasive::unreached;
use vstd::prelude::*;

verus! {

broadcast use vstd::string::group_string_axioms;

/// An in-progress two-key chord or single-key-argument action in Normal
/// mode. Cleared whenever the editor leaves Normal mode or an unrelated key
/// breaks the chord.
#[derive(Debug, Clone, Copy, PartialEq, Eq, Structural)]
pub enum PendingNormal {
    /// No chord in progress.
    Idle,
    /// `g` seen; a second `g` jumps to the first line.
    SecondG,
    /// `d` seen; a second `d` deletes the current line.
    SecondD,
    /// `r` seen; the next character key replaces the character at the cursor.
    ReplaceChar,
}

/// A cursor position: 0-indexed line and character column.
#[derive(Debug, Clone, Copy, PartialEq, Eq, Structural, Default)]
pub struct Cursor {
    pub line: usize,
    pub col: usize,
}

/// A status message surfaced to the renderer; overwritten by each new
/// message.
#[derive(Debug, Clone, PartialEq, Eq)]
pub enum StatusMessage {
    /// A named file was written.
    FileWritten(String),
    /// The buffer was saved but has no file name to show.
    FileSaved,
    /// A save was requested but no path is associated with the buffer.
    SaveFailedNoPath,
    /// The front end reported an input/output error while saving.
    SaveFailedIo(String),
    /// The `:` line held an unrecognized command.
    UnknownCommand(String),
    /// A search found no occurrence of the pattern.
    PatternNotFound,
    /// A search was started with an empty pattern.
    NoPattern,
    /// A repeat-search was requested with no previous search.
    NoPreviousSearch,
    /// Quit was refused because the buffer has unsaved changes.
    NoWriteSinceLastChange,
    /// Free-form text supplied by the front end.
    Info(String),
}

/// Commands that affect the application rather than the buffer.
#[derive(Debug, Clone, PartialEq, Eq, Structural)]
pub enum EditorCommand {
    Quit,
    ForceQuit,
}

/// What executing a `:` command asks of the caller, beyond the state
/// changes already applied to the editor.
#[derive(Debug, Clone, PartialEq, Eq, Structural)]
pub enum CommandOutcome {
    /// Nothing left to do.
    Nothing,
    /// Quit or force-quit was requested.
    Control(EditorCommand),
    /// The current buffer should be written to its associated path; the
    /// caller performs the write and reports back through `finish_save`.
    /// With `and_quit`, a successful save is followed by a quit.
    Save { and_quit: bool },
}

/// The maximum column the cursor may occupy on line `l`: the line length in
/// Insert mode (the caret may sit after the last character), one less in
/// every other mode.
pub open spec fn max_col_spec(lines: Seq<Seq<char>>, mode: Mode, l: int) -> int {
    if mode is Insert {
        lines[l].len() as int
    } else if lines[l].len() == 0 {
        0
    } else {
        lines[l].len() - 1
    }
}

/// The cursor clamped to the given lines under the given mode's column rule.
pub open spec fn clamped_cursor(lines: Seq<Seq<char>>, mode: Mode, cur: Cursor) -> Cursor {
    let l: int = if cur.line < lines.len() {
        cur.line as int
    } else {
        lines.len() - 1
    };
    let m = max_col_spec(lines, mode, l);
    Cursor { line: l as usize, col: if cur.col <= m { cur.col } else { m as usize } }
}

/// The main editor state.
pub struct Editor {
    /// All open buffers; never empty.
    pub buffers: Vec<Buffer>,
    /// Index of the current buffer in `buffers`.
    pub current_buf: usize,
    /// Current cursor position.
    pub cursor: Cursor,
    /// Current editing mode.
    pub mode: Mode,
    /// Viewport offset: first visible line.
    pub viewport_offset: usize,
    /// Command line input (for `:` commands and `/` patterns).
    pub command_buffer: Vec<char>,
    /// Status message to display.
    pub status_message: Option<StatusMessage>,
    /// Pending two-key or replace action in Normal mode.
    pub pending_normal: PendingNormal,
    /// Last search pattern, for repeat-search.
    pub last_search_pattern: Option<String>,
}

impl Editor {
    /// The current buffer.
    pub open spec fn buf(&self) -> Buffer {
        self.buffers[self.current_buf as int]
    }

    /// The lines of the current buffer.
    pub open spec fn cur_lines(&self) -> Seq<Seq<char>> {
        self.buf().lines()
    }

    /// Well-formedness: the current buffer exists and the cursor is inside
    /// its bounds (column at most the line length).
    pub open spec fn wf(&self) -> bool {
        &&& self.current_buf < self.buffers.len()
        &&& (self.cursor.line as int) < self.cur_lines().len()
        &&& self.cursor.col <= self.cur_lines()[self.cursor.line as int].len()
    }

    /// A new editor over one empty buffer, in Normal mode.
    pub fn new() -> (r: Self)
        ensures
            r.wf(),
            r.buffers@.len() == 1,
            r.buf().text_spec() == Seq::<char>::empty(),
            r.buf().file_path is None,
            !r.buf().modified,
            r.cursor == (Cursor { line: 0, col: 0 }),
            r.mode is Normal,
            r.viewport_offset == 0,
            r.command_buffer@ == Seq::<char>::empty(),
            r.status_message is None,
            r.pending_normal is Idle,
            r.last_search_pattern is None,
    {
        Editor::from_buffer(Buffer::new())
    }

    /// A new editor over a buffer holding the given content, optionally
    /// associated with a file path.
    pub fn with_content(content: &str, file_path: Option<String>) -> (r: Self)
        ensures
            r.wf(),
            r.buffers@.len() == 1,
            r.buf().text_spec() == content@,
            r.buf().file_path == file_path,
            !r.buf().modified,
            r.cursor == (Cursor { line: 0, col: 0 }),
            r.mode is Normal,
            r.viewport_offset == 0,
            r.command_buffer@ == Seq::<char>::empty(),
            r.status_message is None,
            r.pending_normal is Idle,
            r.last_search_pattern is None,
    {
        Editor::from_buffer(Buffer::from_content(content, file_path))
    }

    /// Build an editor around one buffer with default state.
    fn from_buffer(buffer: Buffer) -> (r: Self)
        ensures
            r.wf(),
            r.buffers@ == seq![buffer],
            r.current_buf == 0,
            r.cursor == (Cursor { line: 0, col: 0 }),
            r.mode is Normal,
            r.viewport_offset == 0,
            r.command_buffer@ == Seq::<char>::empty(),
            r.status_message is None,
            r.pending_normal is Idle,
            r.last_search_pattern is None,
    {
        let mut buffers: Vec<Buffer> = Vec::new();
        buffers.push(buffer);
        proof {
            crate::lines::lemma_split_len_pos(buffer.text_spec());
        }
        let r = Editor {
            buffers,
            current_buf: 0,
            cursor: Cursor { line: 0, col: 0 },
            mode: Mode::Normal,
            viewport_offset: 0,
            command_buffer: Vec::new(),
            status_message: Option::None,
            pending_normal: PendingNormal::Idle,
            last_search_pattern: Option::None,
        };
        proof {
            assert(r.buffers@ =~= seq![buffer]);
        }
        r
    }

    /// Reference to the current buffer.
    pub fn current_buffer(&self) -> (r: &Buffer)
        requires
            self.current_buf < self.buffers.len(),
        ensures
            *r == self.buf(),
    {
        &self.buffers[self.current_buf]
    }

    /// Mutable reference to the current buffer.
    pub fn current_buffer_mut(&mut self) -> (r: &mut Buffer)
        requires
            old(self).current_buf < old(self).buffers.len(),
        ensures
            *r == old(self).buf(),
            final(self).buffers@ == old(self).buffers@.update(
                old(self).current_buf as int,
                *final(r),
            ),
            final(self).current_buf == old(self).current_buf,
            final(self).cursor == old(self).cursor,
            final(self).mode == old(self).mode,
            final(self).viewport_offset == old(self).viewport_offset,
            final(self).command_buffer == old(self).command_buffer,
            final(self).status_message == old(self).status_message,
            final(self).pending_normal == old(self).pending_normal,
            final(self).last_search_pattern == old(self).last_search_pattern,
    {
        &mut self.buffers[self.current_buf]
    }

    /// Open a buffer holding the given content and switch to it, resetting
    /// cursor and viewport.
    pub fn open_content_into_new_buffer(&mut self, content: &str, file_path: Option<String>)
        requires
            old(self).wf(),
        ensures
            final(self).wf(),
            final(self).buffers@ == old(self).buffers@.push(
                final(self).buffers@[final(self).buffers@.len() - 1],
            ),
            final(self).buf().text_spec() == content@,
            final(self).buf().file_path == file_path,
            !final(self).buf().modified,
            final(self).current_buf == old(self).buffers@.len(),
            final(self).cursor == (Cursor { line: 0, col: 0 }),
            final(self).viewport_offset == 0,
            final(self).mode == old(self).mode,
            final(self).command_buffer == old(self).command_buffer,
            final(self).status_message == old(self).status_message,
            final(self).pending_normal == old(self).pending_normal,
            final(self).last_search_pattern == old(self).last_search_pattern,
    {
        let buffer = Buffer::from_content(content, file_path);
        proof {
            crate::lines::lemma_split_len_pos(buffer.text_spec());
        }
        self.buffers.push(buffer);
        self.current_buf = self.buffers.len() - 1;
        self.cursor = Cursor { line: 0, col: 0 };
        self.viewport_offset = 0;
    }

    /// Maximum valid cursor column on the given line in the current mode.
    fn max_col_for_line(&self, line: usize) -> (r: usize)
        requires
            self.current_buf < self.buffers.len(),
            line < self.cur_lines().len(),
        ensures
            r == max_col_spec(self.cur_lines(), self.mode, line as int),
    {
        let line_len = self.current_buffer().line_len(line);
        if matches!(self.mode, Mode::Insert) {
            line_len
        } else if line_len == 0 {
            0
        } else {
            line_len - 1
        }
    }

    /// Clamp the cursor column to the current line and mode.
    fn clamp_cursor_col(&mut self)
        requires
            old(self).current_buf < old(self).buffers.len(),
            (old(self).cursor.line as int) < old(self).cur_lines().len(),
        ensures
            *final(self) == (Editor {
                cursor: clamped_cursor(old(self).cur_lines(), old(self).mode, old(self).cursor),
                ..*old(self)
            }),
            final(self).wf(),
    {
        let max_col = self.max_col_for_line(self.cursor.line);
        if self.cursor.col > max_col {
            self.cursor.col = max_col;
        }
    }

    /// Clamp the cursor to the current buffer (line first, then column).
    fn clamp_cursor_to_buffer(&mut self)
        requires
            old(self).current_buf < old(self).buffers.len(),
        ensures
            *final(self) == (Editor {
                cursor: clamped_cursor(old(self).cur_lines(), old(self).mode, old(self).cursor),
                ..*old(self)
            }),
            final(self).wf(),
    {
        let line_count = self.current_buffer().line_count();
        if self.cursor.line >= line_count {
            self.cursor.line = line_count - 1;
        }
        self.clamp_cursor_col();
    }

    /// Clear any pending two-key or replace action.
    pub fn clear_pending_normal(&mut self)
        ensures
            *final(self) == (Editor { pending_normal: PendingNormal::Idle, ..*old(self) }),
    {
        self.pending_normal = PendingNormal::Idle;
    }

    /// Move the cursor one column left, stopping at column 0.
    pub fn move_left(&mut self)
        requires
            old(self).wf(),
        ensures
            final(self).wf(),
            *final(self) == (Editor {
                cursor: Cursor {
                    line: old(self).cursor.line,
                    col: if old(self).cursor.col > 0 {
                        (old(self).cursor.col - 1) as usize
                    } else {
                        0
                    },
                },
                ..*old(self)
            }),
    {
        if self.cursor.col > 0 {
            self.cursor.col = self.cursor.col - 1;
        }
    }

    /// Move the cursor one column right, stopping at the mode's maximum
    /// column for the line.
    pub fn move_right(&mut self)
        requires
            old(self).wf(),
        ensures
            final(self).wf(),
            *final(self) == (Editor {
                cursor: Cursor {
                    line: old(self).cursor.line,
                    col: if (old(self).cursor.col as int) < max_col_spec(
                        old(self).cur_lines(),
                        old(self).mode,
                        old(self).cursor.line as int,
                    ) {
                        (old(self).cursor.col + 1) as usize
                    } else {
                        old(self).cursor.col
                    },
                },
                ..*old(self)
            }),
    {
        let max_col = self.max_col_for_line(self.cursor.line);
        if self.cursor.col < max_col {
            self.cursor.col = self.cursor.col + 1;
        }
    }

    /// Move the cursor one line up, re-clamping the column.
    pub fn move_up(&mut self)
        requires
            old(self).wf(),
        ensures
            final(self).wf(),
            old(self).cursor.line == 0 ==> *final(self) == *old(self),
            old(self).cursor.line > 0 ==> *final(self) == (Editor {
                cursor: clamped_cursor(
                    old(self).cur_lines(),
                    old(self).mode,
                    Cursor { line: (old(self).cursor.line - 1) as usize, col: old(self).cursor.col },
                ),
                ..*old(self)
            }),
    {
        if self.cursor.line > 0 {
            self.cursor.line = self.cursor.line - 1;
            self.clamp_cursor_col();
        }
    }

    /// Move the cursor one line down, re-clamping the column.
    pub fn move_down(&mut self)
        requires
            old(self).wf(),
        ensures
            final(self).wf(),
            old(self).cursor.line + 1 >= old(self).cur_lines().len() ==> *final(self) == *old(self),
            old(self).cursor.line + 1 < old(self).cur_lines().len() ==> *final(self) == (Editor {
                cursor: clamped_cursor(
                    old(self).cur_lines(),
                    old(self).mode,
                    Cursor { line: (old(self).cursor.line + 1) as usize, col: old(self).cursor.col },
                ),
                ..*old(self)
            }),
    {
        let line_count = self.current_buffer().line_count();
        if self.cursor.line + 1 < line_count {
            self.cursor.line = self.cursor.line + 1;
            self.clamp_cursor_col();
        }
    }

    /// Move the cursor to column 0.
    pub fn move_to_line_start(&mut self)
        requires
            old(self).wf(),
        ensures
            final(self).wf(),
            *final(self) == (Editor {
                cursor: Cursor { line: old(self).cursor.line, col: 0 },
                ..*old(self)
            }),
    {
        self.cursor.col = 0;
    }

    /// Move the cursor to the mode's maximum column on the current line.
    pub fn move_to_line_end(&mut self)
        requires
            old(self).wf(),
        ensures
            final(self).wf(),
            *final(self) == (Editor {
                cursor: Cursor {
                    line: old(self).cursor.line,
                    col: max_col_spec(
                        old(self).cur_lines(),
                        old(self).mode,
                        old(self).cursor.line as int,
                    ) as usize,
                },
                ..*old(self)
            }),
    {
        self.cursor.col = self.max_col_for_line(self.cursor.line);
    }

    /// Jump to line 0, re-clamping the column.
    pub fn move_to_first_line(&mut self)
        requires
            old(self).wf(),
        ensures
            final(self).wf(),
            *final(self) == (Editor {
                cursor: clamped_cursor(
                    old(self).cur_lines(),
                    old(self).mode,
                    Cursor { line: 0, col: old(self).cursor.col },
                ),
                ..*old(self)
            }),
    {
        self.cursor.line = 0;
        self.clamp_cursor_col();
    }

    /// Jump to the last line, re-clamping the column.
    pub fn move_to_last_line(&mut self)
        requires
            old(self).wf(),
        ensures
            final(self).wf(),
            *final(self) == (Editor {
                cursor: clamped_cursor(
                    old(self).cur_lines(),
                    old(self).mode,
                    Cursor {
                        line: (old(self).cur_lines().len() - 1) as usize,
                        col: old(self).cursor.col,
                    },
                ),
                ..*old(self)
            }),
    {
        let line_count = self.current_buffer().line_count();
        self.cursor.line = line_count - 1;
        self.clamp_cursor_col();
    }

    /// Keep the cursor's line within `[offset, offset + height)` by the
    /// minimal shift: scroll up if the cursor is above the viewport, down if
    /// it is below.
    pub fn adjust_viewport_with_height(&mut self, height: usize)
        ensures
            final(self).viewport_offset == if old(self).cursor.line < old(self).viewport_offset {
                old(self).cursor.line as int
            } else if height > 0 && old(self).cursor.line - old(self).viewport_offset >= height {
                old(self).cursor.line - height + 1
            } else {
                old(self).viewport_offset as int
            },
            *final(self) == (Editor {
                viewport_offset: final(self).viewport_offset,
                ..*old(self)
            }),
    {
        if self.cursor.line < self.viewport_offset {
            self.viewport_offset = self.cursor.line;
        } else if height > 0 && self.cursor.line - self.viewport_offset >= height {
            self.viewport_offset = self.cursor.line - (height - 1);
        }
    }

    /// Set a status message, replacing any previous one.
    pub fn set_status(&mut self, msg: StatusMessage)
        ensures
            *final(self) == (Editor { status_message: Some(msg), ..*old(self) }),
    {
        self.status_message = Option::Some(msg);
    }

    /// Clear the status message.
    pub fn clear_status(&mut self)
        ensures
            *final(self) == (Editor { status_message: None, ..*old(self) }),
    {
        self.status_message = Option::None;
    }
}

/// The characters of line `l` as the motions see them: with the terminator
/// on every line but the last.
pub open spec fn line_with_term(lines: Seq<Seq<char>>, l: int) -> Seq<char> {
    if l < lines.len() - 1 {
        lines[l].push('\n')
    } else {
        lines[l]
    }
}

/// First index at or after `i` whose character stops the scan: with
/// `ws == false` the scan runs over non-whitespace, with `ws == true` over
/// whitespace; the line length if the scan runs off the end.
pub open spec fn scan_while(line: Seq<char>, i: int, ws: bool) -> int
    decreases line.len() - i,
{
    if i >= line.len() {
        line.len() as int
    } else if 0 <= i && is_ws_spec(line[i]) == ws {
        scan_while(line, i + 1, ws)
    } else {
        i
    }
}

/// Index reached by stepping left from `i` over whitespace (inclusive of
/// the starting position), stopping at 0.
pub open spec fn scan_back_ws(line: Seq<char>, i: int) -> int
    decreases i,
{
    if i <= 0 {
        0
    } else if i < line.len() && is_ws_spec(line[i]) {
        scan_back_ws(line, i - 1)
    } else {
        i
    }
}

/// Index reached by stepping left from `i` while the character before it is
/// not whitespace, stopping at 0: the first character of the word at `i`.
pub open spec fn scan_back_word(line: Seq<char>, i: int) -> int
    decreases i,
{
    if i <= 0 {
        0
    } else if i - 1 < line.len() && !is_ws_spec(line[i - 1]) {
        scan_back_word(line, i - 1)
    } else {
        i
    }
}

/// Where the word-forward motion lands: past the current run of
/// non-whitespace and the following whitespace; onto the next line's start
/// if that runs off the line and a next line exists.
pub open spec fn word_forward_target(lines: Seq<Seq<char>>, mode: Mode, cur: Cursor) -> Cursor {
    let chars = line_with_term(lines, cur.line as int);
    let c1 = scan_while(chars, cur.col as int, false);
    let c2 = scan_while(chars, c1, true);
    if c2 >= chars.len() && cur.line + 1 < lines.len() {
        Cursor { line: (cur.line + 1) as usize, col: 0 }
    } else {
        let m = max_col_spec(lines, mode, cur.line as int);
        Cursor { line: cur.line, col: if c2 <= m { c2 as usize } else { m as usize } }
    }
}

/// Where the word-backward motion lands: at column 0 it moves to the end of
/// the previous line; otherwise one step back, then over whitespace, then to
/// the first character of the word.
pub open spec fn word_backward_target(lines: Seq<Seq<char>>, mode: Mode, cur: Cursor) -> Cursor {
    if cur.col == 0 {
        if cur.line > 0 {
            Cursor {
                line: (cur.line - 1) as usize,
                col: max_col_spec(lines, mode, cur.line - 1) as usize,
            }
        } else {
            cur
        }
    } else {
        let chars = line_with_term(lines, cur.line as int);
        let c1 = cur.col - 1;
        let c2 = scan_back_ws(chars, c1);
        let c3 = scan_back_word(chars, c2);
        Cursor { line: cur.line, col: c3 as usize }
    }
}

/// One past the end of the word at or after `col`: leading whitespace is
/// skipped, then the word.
pub open spec fn end_of_word_scan(chars: Seq<char>, col: int) -> int {
    scan_while(chars, scan_while(chars, col, true), false)
}

/// Where the end-of-word motion lands: the last character of the current or
/// next word; if the scan runs off the line and a next line exists, the end
/// of the next line's first word.
pub open spec fn end_of_word_target(lines: Seq<Seq<char>>, mode: Mode, cur: Cursor) -> Cursor {
    let chars = line_with_term(lines, cur.line as int);
    let c2 = end_of_word_scan(chars, cur.col as int);
    if c2 >= chars.len() && cur.line + 1 < lines.len() {
        let chars2 = line_with_term(lines, cur.line as int + 1);
        let d2 = end_of_word_scan(chars2, 0);
        let e = if d2 > 0 {
            d2 - 1
        } else {
            0
        };
        let m = max_col_spec(lines, mode, cur.line as int + 1);
        Cursor {
            line: (cur.line + 1) as usize,
            col: if e <= m {
                e as usize
            } else {
                m as usize
            },
        }
    } else {
        let e = if c2 > 0 {
            c2 - 1
        } else {
            0
        };
        let m = max_col_spec(lines, mode, cur.line as int);
        Cursor {
            line: cur.line,
            col: if e <= m {
                e as usize
            } else {
                m as usize
            },
        }
    }
}

/// A line is blank when all of its characters are whitespace.
pub open spec fn line_blank(lines: Seq<Seq<char>>, l: int) -> bool {
    forall|i: int| 0 <= i < lines[l].len() ==> is_ws_spec(#[trigger] lines[l][i])
}

/// Nearest blank line at or below `l`, stopping at line 0.
pub open spec fn prev_blank_line(lines: Seq<Seq<char>>, l: int) -> int
    decreases l,
{
    if l <= 0 {
        0
    } else if line_blank(lines, l) {
        l
    } else {
        prev_blank_line(lines, l - 1)
    }
}

/// Nearest blank line at or above `l`, running to the line count if none.
pub open spec fn next_blank_line(lines: Seq<Seq<char>>, l: int) -> int
    decreases lines.len() - l,
{
    if l >= lines.len() {
        l
    } else if line_blank(lines, l) {
        l
    } else {
        next_blank_line(lines, l + 1)
    }
}

/// Scan the characters from `start` over whitespace (`ws == true`) or
/// non-whitespace (`ws == false`), returning the first index that stops the
/// scan.
pub(crate) fn scan_chars(chars: &Vec<char>, start: usize, ws: bool) -> (r: usize)
    requires
        start <= chars@.len(),
    ensures
        r == scan_while(chars@, start as int, ws),
        start <= r <= chars@.len(),
{
    let mut col = start;
    loop
        invariant
            start <= col <= chars@.len(),
            scan_while(chars@, start as int, ws) == scan_while(chars@, col as int, ws),
        decreases chars@.len() - col,
    {
        if col >= chars.len() {
            return col;
        }
        if is_ws(chars[col]) != ws {
            return col;
        }
        col += 1;
    }
}

impl Editor {
    /// The characters of the cursor's line, with its terminator when one
    /// follows.
    fn current_line_chars(&self) -> (r: Vec<char>)
        requires
            self.current_buf < self.buffers.len(),
            (self.cursor.line as int) < self.cur_lines().len(),
        ensures
            r@ == line_with_term(self.cur_lines(), self.cursor.line as int),
    {
        match self.current_buffer().line(self.cursor.line) {
            Option::Some(v) => v,
            Option::None => unreached(),
        }
    }

    /// Move to the start of the next word: past the current non-whitespace
    /// run and the whitespace after it, or to the start of the next line if
    /// that runs off this one.
    pub fn move_word_forward(&mut self)
        requires
            old(self).wf(),
        ensures
            final(self).wf(),
            *final(self) == (Editor {
                cursor: word_forward_target(old(self).cur_lines(), old(self).mode, old(self).cursor),
                ..*old(self)
            }),
    {
        let chars = self.current_line_chars();
        let c1 = scan_chars(&chars, self.cursor.col, false);
        let c2 = scan_chars(&chars, c1, true);
        let line_count = self.current_buffer().line_count();
        if c2 >= chars.len() && self.cursor.line + 1 < line_count {
            self.cursor.line = self.cursor.line + 1;
            self.cursor.col = 0;
        } else {
            let m = self.max_col_for_line(self.cursor.line);
            self.cursor.col = if c2 <= m {
                c2
            } else {
                m
            };
        }
    }

    /// Move to the first character of the previous word, or to the end of
    /// the previous line from column 0.
    pub fn move_word_backward(&mut self)
        requires
            old(self).wf(),
        ensures
            final(self).wf(),
            *final(self) == (Editor {
                cursor: word_backward_target(
                    old(self).cur_lines(),
                    old(self).mode,
                    old(self).cursor,
                ),
                ..*old(self)
            }),
    {
        if self.cursor.col == 0 {
            if self.cursor.line > 0 {
                self.cursor.line = self.cursor.line - 1;
                self.move_to_line_end();
            }
            return ;
        }
        let chars = self.current_line_chars();
        let mut col = self.cursor.col - 1;
        let ghost c1 = col as int;
        loop
            invariant
                0 <= col < chars@.len(),
                scan_back_ws(chars@, c1) == scan_back_ws(chars@, col as int),
            ensures
                0 <= col < chars@.len(),
                scan_back_ws(chars@, c1) == col as int,
            decreases col,
        {
            if col == 0 || !is_ws(chars[col]) {
                proof {
                    assert(scan_back_ws(chars@, col as int) == col as int);
                }
                break ;
            }
            col -= 1;
        }
        let ghost c2 = col as int;
        loop
            invariant
                0 <= col <= c2 < chars@.len(),
                scan_back_word(chars@, c2) == scan_back_word(chars@, col as int),
            ensures
                0 <= col <= c2,
                scan_back_word(chars@, c2) == col as int,
            decreases col,
        {
            if col == 0 || is_ws(chars[col - 1]) {
                proof {
                    assert(scan_back_word(chars@, col as int) == col as int);
                }
                break ;
            }
            col -= 1;
        }
        self.cursor.col = col;
    }

    /// Move to the last character of the current or next word.
    pub fn move_to_end_of_word(&mut self)
        requires
            old(self).wf(),
        ensures
            final(self).wf(),
            *final(self) == (Editor {
                cursor: end_of_word_target(old(self).cur_lines(), old(self).mode, old(self).cursor),
                ..*old(self)
            }),
    {
        let chars = self.current_line_chars();
        let c1 = scan_chars(&chars, self.cursor.col, true);
        let c2 = scan_chars(&chars, c1, false);
        let line_count = self.current_buffer().line_count();
        if c2 >= chars.len() && self.cursor.line + 1 < line_count {
            self.cursor.line = self.cursor.line + 1;
            let chars2 = self.current_line_chars();
            let d1 = scan_chars(&chars2, 0, true);
            let d2 = scan_chars(&chars2, d1, false);
            let e = if d2 > 0 {
                d2 - 1
            } else {
                0
            };
            let m = self.max_col_for_line(self.cursor.line);
            self.cursor.col = if e <= m {
                e
            } else {
                m
            };
        } else {
            let e = if c2 > 0 {
                c2 - 1
            } else {
                0
            };
            let m = self.max_col_for_line(self.cursor.line);
            self.cursor.col = if e <= m {
                e
            } else {
                m
            };
        }
    }

    /// Move to the first non-whitespace column of the current line, clamped
    /// to the mode's maximum column.
    pub fn move_to_first_non_blank(&mut self)
        requires
            old(self).wf(),
        ensures
            final(self).wf(),
            *final(self) == (Editor {
                cursor: Cursor {
                    line: old(self).cursor.line,
                    col: ({
                        let chars = line_with_term(
                            old(self).cur_lines(),
                            old(self).cursor.line as int,
                        );
                        let c = scan_while(chars, 0, true);
                        let m = max_col_spec(
                            old(self).cur_lines(),
                            old(self).mode,
                            old(self).cursor.line as int,
                        );
                        if c <= m {
                            c as usize
                        } else {
                            m as usize
                        }
                    }),
                },
                ..*old(self)
            }),
    {
        let chars = self.current_line_chars();
        let c = scan_chars(&chars, 0, true);
        let m = self.max_col_for_line(self.cursor.line);
        self.cursor.col = if c <= m {
            c
        } else {
            m
        };
    }

    /// Whether the given line is empty or holds only whitespace.
    fn is_line_blank(&self, line_idx: usize) -> (r: bool)
        requires
            self.current_buf < self.buffers.len(),
            line_idx < self.cur_lines().len(),
        ensures
            r == line_blank(self.cur_lines(), line_idx as int),
    {
        let chars = self.current_buffer().line_chars(line_idx);
        let mut i: usize = 0;
        let n = chars.len();
        while i < n
            invariant
                i <= n,
                n == chars@.len(),
                chars@ == self.cur_lines()[line_idx as int],
                forall|j: int| 0 <= j < i ==> is_ws_spec(#[trigger] chars@[j]),
            decreases n - i,
        {
            if !is_ws(chars[i]) {
                return false;
            }
            i += 1;
        }
        true
    }

    /// Move to the nearest blank line at or above the cursor (towards the
    /// buffer start), column 0.
    pub fn move_paragraph_prev(&mut self)
        requires
            old(self).wf(),
        ensures
            final(self).wf(),
            *final(self) == (Editor {
                cursor: Cursor {
                    line: prev_blank_line(
                        old(self).cur_lines(),
                        old(self).cursor.line as int,
                    ) as usize,
                    col: 0,
                },
                ..*old(self)
            }),
    {
        let ghost lines = self.cur_lines();
        let ghost start = self.cursor.line as int;
        let mut line = self.cursor.line;
        loop
            invariant
                self.current_buf < self.buffers.len(),
                lines == self.cur_lines(),
                (line as int) < lines.len(),
                prev_blank_line(lines, start) == prev_blank_line(lines, line as int),
            ensures
                (line as int) < lines.len(),
                prev_blank_line(lines, start) == line as int,
            decreases line,
        {
            if line == 0 || self.is_line_blank(line) {
                proof {
                    assert(prev_blank_line(lines, line as int) == line as int);
                }
                break ;
            }
            line -= 1;
        }
        self.cursor.line = line;
        self.cursor.col = 0;
    }

    /// Move to the nearest blank line below the cursor (towards the buffer
    /// end), clamped to the last line, column 0.
    pub fn move_paragraph_next(&mut self)
        requires
            old(self).wf(),
        ensures
            final(self).wf(),
            *final(self) == (Editor {
                cursor: Cursor {
                    line: ({
                        let t = next_blank_line(
                            old(self).cur_lines(),
                            old(self).cursor.line as int + 1,
                        );
                        if t < old(self).cur_lines().len() {
                            t as usize
                        } else {
                            (old(self).cur_lines().len() - 1) as usize
                        }
                    }),
                    col: 0,
                },
                ..*old(self)
            }),
    {
        let ghost lines = self.cur_lines();
        let ghost start = self.cursor.line as int + 1;
        let line_count = self.current_buffer().line_count();
        let mut line = self.cursor.line + 1;
        loop
            invariant
                self.current_buf < self.buffers.len(),
                line <= line_count,
                line_count == lines.len(),
                lines == self.cur_lines(),
                next_blank_line(lines, start) == next_blank_line(lines, line as int),
            ensures
                line <= line_count == lines.len(),
                next_blank_line(lines, start) == line as int,
            decreases line_count - line,
        {
            if line >= line_count || self.is_line_blank(line) {
                proof {
                    assert(next_blank_line(lines, line as int) == line as int);
                }
                break ;
            }
            line += 1;
        }
        self.cursor.line = if line < line_count {
            line
        } else {
            line_count - 1
        };
        self.cursor.col = 0;
    }

    /// Switch to the next buffer, wrapping around; a no-op with one buffer.
    /// The cursor is re-clamped to the new buffer and the viewport reset.
    pub fn next_buf(&mut self)
        requires
            old(self).wf(),
        ensures
            final(self).wf(),
            old(self).buffers@.len() <= 1 ==> *final(self) == *old(self),
            old(self).buffers@.len() > 1 ==> ({
                let nb = ((old(self).current_buf + 1) % (old(self).buffers@.len() as int)) as usize;
                *final(self) == (Editor {
                    current_buf: nb,
                    cursor: clamped_cursor(
                        old(self).buffers@[nb as int].lines(),
                        old(self).mode,
                        old(self).cursor,
                    ),
                    viewport_offset: 0,
                    ..*old(self)
                })
            }),
    {
        if self.buffers.len() <= 1 {
            return ;
        }
        self.current_buf = (self.current_buf + 1) % self.buffers.len();
        proof {
            crate::lines::lemma_split_len_pos(self.buf().text_spec());
        }
        self.clamp_cursor_to_buffer();
        self.viewport_offset = 0;
    }

    /// Switch to the previous buffer, wrapping around; a no-op with one
    /// buffer. The cursor is re-clamped and the viewport reset.
    pub fn prev_buf(&mut self)
        requires
            old(self).wf(),
        ensures
            final(self).wf(),
            old(self).buffers@.len() <= 1 ==> *final(self) == *old(self),
            old(self).buffers@.len() > 1 ==> ({
                let nb = if old(self).current_buf == 0 {
                    (old(self).buffers@.len() - 1) as usize
                } else {
                    (old(self).current_buf - 1) as usize
                };
                *final(self) == (Editor {
                    current_buf: nb,
                    cursor: clamped_cursor(
                        old(self).buffers@[nb as int].lines(),
                        old(self).mode,
                        old(self).cursor,
                    ),
                    viewport_offset: 0,
                    ..*old(self)
                })
            }),
    {
        if self.buffers.len() <= 1 {
            return ;
        }
        self.current_buf = if self.current_buf == 0 {
            self.buffers.len() - 1
        } else {
            self.current_buf - 1
        };
        proof {
            crate::lines::lemma_split_len_pos(self.buf().text_spec());
        }
        self.clamp_cursor_to_buffer();
        self.viewport_offset = 0;
    }

    /// Enter Insert mode at the cursor.
    pub fn enter_insert_mode(&mut self)
        requires
            old(self).wf(),
        ensures
            final(self).wf(),
            *final(self) == (Editor { mode: Mode::Insert, ..*old(self) }),
    {
        self.mode = Mode::Insert;
    }

    /// Enter Insert mode one column after the cursor (append).
    pub fn enter_insert_mode_append(&mut self)
        requires
            old(self).wf(),
        ensures
            final(self).wf(),
            *final(self) == (Editor {
                mode: Mode::Insert,
                cursor: Cursor {
                    line: old(self).cursor.line,
                    col: if (old(self).cursor.col as int) < old(self).cur_lines()[old(
                        self,
                    ).cursor.line as int].len() {
                        (old(self).cursor.col + 1) as usize
                    } else {
                        old(self).cursor.col
                    },
                },
                ..*old(self)
            }),
    {
        self.mode = Mode::Insert;
        self.move_right();
    }

    /// Enter Insert mode at the end of the line.
    pub fn enter_insert_mode_end(&mut self)
        requires
            old(self).wf(),
        ensures
            final(self).wf(),
            *final(self) == (Editor {
                mode: Mode::Insert,
                cursor: Cursor {
                    line: old(self).cursor.line,
                    col: old(self).cur_lines()[old(self).cursor.line as int].len() as usize,
                },
                ..*old(self)
            }),
    {
        self.mode = Mode::Insert;
        self.cursor.col = self.current_buffer().line_len(self.cursor.line);
    }

    /// Enter Insert mode at the start of the line.
    pub fn enter_insert_mode_start(&mut self)
        requires
            old(self).wf(),
        ensures
            final(self).wf(),
            *final(self) == (Editor {
                mode: Mode::Insert,
                cursor: Cursor { line: old(self).cursor.line, col: 0 },
                ..*old(self)
            }),
    {
        self.mode = Mode::Insert;
        self.cursor.col = 0;
    }

    /// Open an empty line below the current one, move onto it and enter
    /// Insert mode.
    pub fn open_line_below(&mut self)
        requires
            old(self).wf(),
        ensures
            final(self).wf(),
            final(self).cur_lines() == old(self).cur_lines().insert(
                old(self).cursor.line as int + 1,
                Seq::<char>::empty(),
            ),
            final(self).buf().modified,
            final(self).buf().file_path == old(self).buf().file_path,
            final(self).cursor == (Cursor { line: (old(self).cursor.line + 1) as usize, col: 0 }),
            final(self).cursor.line == old(self).cursor.line + 1,
            final(self).mode is Insert,
            final(self).current_buf == old(self).current_buf,
            final(self).buffers@.len() == old(self).buffers@.len(),
            final(self).viewport_offset == old(self).viewport_offset,
            final(self).command_buffer == old(self).command_buffer,
            final(self).status_message == old(self).status_message,
            final(self).pending_normal == old(self).pending_normal,
            final(self).last_search_pattern == old(self).last_search_pattern,
    {
        let line = self.cursor.line;
        let line_len = self.current_buffer().line_len(line);
        let ghost old_lines = self.cur_lines();
        let idx = self.current_buf;
        let buf = &mut self.buffers[idx];
        buf.insert_newline(line, line_len);
        let new_count = self.current_buffer().line_count();
        proof {
            assert(line < new_count);
        }
        self.cursor.line = self.cursor.line + 1;
        self.cursor.col = 0;
        self.mode = Mode::Insert;
        proof {
            assert(old_lines[line as int].take(old_lines[line as int].len() as int) =~= old_lines[
                line as int]);
            assert(old_lines[line as int].skip(old_lines[line as int].len() as int)
                =~= Seq::<char>::empty());
            assert(self.cur_lines() =~~= old_lines.insert(
                line as int + 1,
                Seq::<char>::empty(),
            ));
        }
    }

    /// Open an empty line above the current one, move onto it and enter
    /// Insert mode.
    pub fn open_line_above(&mut self)
        requires
            old(self).wf(),
        ensures
            final(self).wf(),
            final(self).cur_lines() == old(self).cur_lines().insert(
                old(self).cursor.line as int,
                Seq::<char>::empty(),
            ),
            final(self).buf().modified,
            final(self).buf().file_path == old(self).buf().file_path,
            final(self).cursor == (Cursor { line: old(self).cursor.line, col: 0 }),
            final(self).mode is Insert,
            final(self).current_buf == old(self).current_buf,
            final(self).buffers@.len() == old(self).buffers@.len(),
            final(self).viewport_offset == old(self).viewport_offset,
            final(self).command_buffer == old(self).command_buffer,
            final(self).status_message == old(self).status_message,
            final(self).pending_normal == old(self).pending_normal,
            final(self).last_search_pattern == old(self).last_search_pattern,
    {
        let line = self.cursor.line;
        let ghost old_lines = self.cur_lines();
        let idx = self.current_buf;
        let buf = &mut self.buffers[idx];
        buf.insert_newline(line, 0);
        self.cursor.col = 0;
        self.mode = Mode::Insert;
        proof {
            assert(old_lines[line as int].take(0) =~= Seq::<char>::empty());
            assert(old_lines[line as int].skip(0) =~= old_lines[line as int]);
            assert(self.cur_lines() =~~= old_lines.insert(line as int, Seq::<char>::empty()));
        }
    }

    /// Enter Normal mode: any pending chord is cleared and the column
    /// re-clamped to the stricter Normal rule.
    pub fn enter_normal_mode(&mut self)
        requires
            old(self).wf(),
        ensures
            final(self).wf(),
            *final(self) == (Editor {
                mode: Mode::Normal,
                pending_normal: PendingNormal::Idle,
                cursor: clamped_cursor(old(self).cur_lines(), Mode::Normal, old(self).cursor),
                ..*old(self)
            }),
    {
        self.clear_pending_normal();
        self.mode = Mode::Normal;
        self.clamp_cursor_col();
    }

    /// Enter Command mode: the command line and any pending chord are
    /// cleared.
    pub fn enter_command_mode(&mut self)
        requires
            old(self).wf(),
        ensures
            final(self).wf(),
            final(self).command_buffer@ == Seq::<char>::empty(),
            *final(self) == (Editor {
                mode: Mode::Command,
                command_buffer: final(self).command_buffer,
                pending_normal: PendingNormal::Idle,
                ..*old(self)
            }),
    {
        self.mode = Mode::Command;
        self.command_buffer = Vec::new();
        self.clear_pending_normal();
    }

    /// Enter Search mode: the pattern line and any pending chord are
    /// cleared.
    pub fn enter_search_mode(&mut self)
        requires
            old(self).wf(),
        ensures
            final(self).wf(),
            final(self).command_buffer@ == Seq::<char>::empty(),
            *final(self) == (Editor {
                mode: Mode::Search,
                command_buffer: final(self).command_buffer,
                pending_normal: PendingNormal::Idle,
                ..*old(self)
            }),
    {
        self.mode = Mode::Search;
        self.command_buffer = Vec::new();
        self.clear_pending_normal();
    }

    /// Insert a character at the cursor and advance the cursor past it.
    pub fn insert_char(&mut self, ch: char)
        requires
            old(self).wf(),
            ch != '\n',
        ensures
            final(self).wf(),
            final(self).cur_lines() == old(self).cur_lines().update(
                old(self).cursor.line as int,
                old(self).cur_lines()[old(self).cursor.line as int].insert(
                    old(self).cursor.col as int,
                    ch,
                ),
            ),
            final(self).buf().modified,
            final(self).buf().file_path == old(self).buf().file_path,
            final(self).cursor == (Cursor {
                line: old(self).cursor.line,
                col: (old(self).cursor.col + 1) as usize,
            }),
            final(self).cursor.col == old(self).cursor.col + 1,
            final(self).mode == old(self).mode,
            final(self).current_buf == old(self).current_buf,
            final(self).buffers@.len() == old(self).buffers@.len(),
            final(self).viewport_offset == old(self).viewport_offset,
            final(self).command_buffer == old(self).command_buffer,
            final(self).status_message == old(self).status_message,
            final(self).pending_normal == old(self).pending_normal,
            final(self).last_search_pattern == old(self).last_search_pattern,
    {
        let line = self.cursor.line;
        let col = self.cursor.col;
        let idx = self.current_buf;
        let buf = &mut self.buffers[idx];
        buf.insert_char(line, col, ch);
        let new_len = self.current_buffer().line_len(line);
        proof {
            assert(col < new_len);
        }
        self.cursor.col = self.cursor.col + 1;
    }

    /// Insert a line terminator at the cursor, splitting the line; the
    /// cursor moves to the start of the new line.
    pub fn insert_newline(&mut self)
        requires
            old(self).wf(),
        ensures
            final(self).wf(),
            final(self).cur_lines() == old(self).cur_lines().subrange(
                0,
                old(self).cursor.line as int,
            ) + seq![
                old(self).cur_lines()[old(self).cursor.line as int].take(
                    old(self).cursor.col as int,
                ),
                old(self).cur_lines()[old(self).cursor.line as int].skip(
                    old(self).cursor.col as int,
                ),
            ] + old(self).cur_lines().subrange(
                old(self).cursor.line as int + 1,
                old(self).cur_lines().len() as int,
            ),
            final(self).buf().modified,
            final(self).buf().file_path == old(self).buf().file_path,
            final(self).cursor == (Cursor { line: (old(self).cursor.line + 1) as usize, col: 0 }),
            final(self).cursor.line == old(self).cursor.line + 1,
            final(self).mode == old(self).mode,
            final(self).current_buf == old(self).current_buf,
            final(self).buffers@.len() == old(self).buffers@.len(),
            final(self).viewport_offset == old(self).viewport_offset,
            final(self).command_buffer == old(self).command_buffer,
            final(self).status_message == old(self).status_message,
            final(self).pending_normal == old(self).pending_normal,
            final(self).last_search_pattern == old(self).last_search_pattern,
    {
        let line = self.cursor.line;
        let col = self.cursor.col;
        let idx = self.current_buf;
        let buf = &mut self.buffers[idx];
        buf.insert_newline(line, col);
        let new_count = self.current_buffer().line_count();
        proof {
            assert(line < new_count);
        }
        self.cursor.line = self.cursor.line + 1;
        self.cursor.col = 0;
    }

    /// Delete the character before the cursor (backspace), joining with the
    /// previous line at column 0; a no-op at the start of the buffer.
    pub fn backspace(&mut self)
        requires
            old(self).wf(),
        ensures
            final(self).wf(),
            old(self).cursor.col > 0 ==> ({
                &&& final(self).cur_lines() == old(self).cur_lines().update(
                    old(self).cursor.line as int,
                    old(self).cur_lines()[old(self).cursor.line as int].remove(
                        old(self).cursor.col - 1,
                    ),
                )
                &&& final(self).cursor == (Cursor {
                    line: old(self).cursor.line,
                    col: (old(self).cursor.col - 1) as usize,
                })
                &&& final(self).buf().modified
            }),
            old(self).cursor.col == 0 && old(self).cursor.line > 0 ==> ({
                &&& final(self).cur_lines() == old(self).cur_lines().subrange(
                    0,
                    old(self).cursor.line as int - 1,
                ) + seq![
                    old(self).cur_lines()[old(self).cursor.line as int - 1] + old(self).cur_lines()[
                        old(self).cursor.line as int],
                ] + old(self).cur_lines().subrange(
                    old(self).cursor.line as int + 1,
                    old(self).cur_lines().len() as int,
                )
                &&& final(self).cursor == (Cursor {
                    line: (old(self).cursor.line - 1) as usize,
                    col: old(self).cur_lines()[old(self).cursor.line as int - 1].len() as usize,
                })
                &&& final(self).buf().modified
            }),
            old(self).cursor.col == 0 && old(self).cursor.line == 0 ==> (final(self).buffers@
                == old(self).buffers@ && final(self).cursor == old(self).cursor
                && final(self).buf().modified == old(self).buf().modified),
            final(self).buf().file_path == old(self).buf().file_path,
            final(self).mode == old(self).mode,
            final(self).current_buf == old(self).current_buf,
            final(self).buffers@.len() == old(self).buffers@.len(),
            final(self).viewport_offset == old(self).viewport_offset,
            final(self).command_buffer == old(self).command_buffer,
            final(self).status_message == old(self).status_message,
            final(self).pending_normal == old(self).pending_normal,
            final(self).last_search_pattern == old(self).last_search_pattern,
    {
        let line = self.cursor.line;
        let col = self.cursor.col;
        let idx = self.current_buf;
        let buf = &mut self.buffers[idx];
        let r = buf.delete_char_before(line, col);
        if let Option::Some((new_line, new_col)) = r {
            self.cursor.line = new_line;
            self.cursor.col = new_col;
        }
        proof {
            if old(self).cursor.col == 0 && old(self).cursor.line == 0 {
                assert(final(self).buffers@ =~= old(self).buffers@);
            }
        }
    }

    /// Delete the character under the cursor, then re-clamp the column.
    pub fn delete_char_at_cursor(&mut self)
        requires
            old(self).wf(),
        ensures
            final(self).wf(),
            (old(self).cursor.col as int) < old(self).cur_lines()[old(
                self,
            ).cursor.line as int].len() ==> ({
                let lines2 = old(self).cur_lines().update(
                    old(self).cursor.line as int,
                    old(self).cur_lines()[old(self).cursor.line as int].remove(
                        old(self).cursor.col as int,
                    ),
                );
                &&& final(self).cur_lines() == lines2
                &&& final(self).cursor == clamped_cursor(lines2, old(self).mode, old(self).cursor)
                &&& final(self).buf().modified
            }),
            old(self).cursor.col == old(self).cur_lines()[old(self).cursor.line as int].len()
                && (old(self).cursor.line as int) < old(self).cur_lines().len() - 1 ==> ({
                let lines2 = old(self).cur_lines().subrange(0, old(self).cursor.line as int) + seq![
                    old(self).cur_lines()[old(self).cursor.line as int] + old(self).cur_lines()[old(
                        self,
                    ).cursor.line as int + 1],
                ] + old(self).cur_lines().subrange(
                    old(self).cursor.line as int + 2,
                    old(self).cur_lines().len() as int,
                );
                &&& final(self).cur_lines() == lines2
                &&& final(self).cursor == clamped_cursor(lines2, old(self).mode, old(self).cursor)
                &&& final(self).buf().modified
            }),
            old(self).cursor.col == old(self).cur_lines()[old(self).cursor.line as int].len() && old(
                self,
            ).cursor.line as int == old(self).cur_lines().len() - 1 ==> (final(self).buffers@
                == old(self).buffers@ && final(self).cursor == clamped_cursor(
                old(self).cur_lines(),
                old(self).mode,
                old(self).cursor,
            ) && final(self).buf().modified == old(self).buf().modified),
            final(self).buf().file_path == old(self).buf().file_path,
            final(self).mode == old(self).mode,
            final(self).current_buf == old(self).current_buf,
            final(self).buffers@.len() == old(self).buffers@.len(),
            final(self).command_buffer == old(self).command_buffer,
            final(self).status_message == old(self).status_message,
            final(self).pending_normal == old(self).pending_normal,
            final(self).last_search_pattern == old(self).last_search_pattern,
            final(self).viewport_offset == old(self).viewport_offset,
    {
        let line = self.cursor.line;
        let col = self.cursor.col;
        let idx = self.current_buf;
        let buf = &mut self.buffers[idx];
        buf.delete_char(line, col);
        proof {
            crate::lines::lemma_split_len_pos(self.buf().text_spec());
            if old(self).cursor.col == old(self).cur_lines()[old(self).cursor.line as int].len()
                && old(self).cursor.line as int == old(self).cur_lines().len() - 1 {
                assert(self.buffers@ =~= old(self).buffers@);
            }
        }
        self.clamp_cursor_col();
    }

    /// Replace the character under the cursor in place, staying in Normal
    /// mode; a no-op when the cursor is not over a character.
    pub fn replace_char_at_cursor(&mut self, ch: char)
        requires
            old(self).wf(),
            ch != '\n',
        ensures
            final(self).wf(),
            (old(self).cursor.col as int) < old(self).cur_lines()[old(
                self,
            ).cursor.line as int].len() ==> ({
                &&& final(self).cur_lines() == old(self).cur_lines().update(
                    old(self).cursor.line as int,
                    old(self).cur_lines()[old(self).cursor.line as int].update(
                        old(self).cursor.col as int,
                        ch,
                    ),
                )
                &&& final(self).buf().modified
                &&& final(self).cursor == old(self).cursor
            }),
            old(self).cursor.col >= old(self).cur_lines()[old(self).cursor.line as int].len() ==> (
            final(self).buffers@ == old(self).buffers@ && final(self).cursor == clamped_cursor(
                old(self).cur_lines(),
                old(self).mode,
                old(self).cursor,
            ) && final(self).buf().modified == old(self).buf().modified),
            final(self).buf().file_path == old(self).buf().file_path,
            final(self).mode == old(self).mode,
            final(self).current_buf == old(self).current_buf,
            final(self).buffers@.len() == old(self).buffers@.len(),
            final(self).command_buffer == old(self).command_buffer,
            final(self).status_message == old(self).status_message,
            final(self).pending_normal == old(self).pending_normal,
            final(self).last_search_pattern == old(self).last_search_pattern,
            final(self).viewport_offset == old(self).viewport_offset,
    {
        let line = self.cursor.line;
        let col = self.cursor.col;
        let line_len = self.current_buffer().line_len(line);
        let ghost old_lines = self.cur_lines();
        if col < line_len {
            let idx = self.current_buf;
            let buf = &mut self.buffers[idx];
            buf.delete_char(line, col);
            buf.insert_char(line, col, ch);
            proof {
                let removed = old_lines[line as int].remove(col as int);
                let lines2 = old_lines.update(line as int, removed);
                assert(lines2[line as int] == removed);
                assert(removed.insert(col as int, ch) =~= old_lines[line as int].update(
                    col as int,
                    ch,
                ));
                assert(self.cur_lines() =~~= old_lines.update(
                    line as int,
                    old_lines[line as int].update(col as int, ch),
                ));
            }
        }
        proof {
            crate::lines::lemma_split_len_pos(self.buf().text_spec());
        }
        self.clamp_cursor_col();
        proof {
            if (old(self).cursor.col as int) < old_lines[line as int].len() {
                assert(final(self).cursor == old(self).cursor);
            }
        }
    }

    /// Delete from the cursor to the end of the line, truncating it at the
    /// cursor column; the column is then re-clamped.
    pub fn delete_to_end_of_line(&mut self)
        requires
            old(self).wf(),
        ensures
            final(self).wf(),
            final(self).cur_lines() == old(self).cur_lines().update(
                old(self).cursor.line as int,
                old(self).cur_lines()[old(self).cursor.line as int].take(old(self).cursor.col as int),
            ),
            final(self).cursor == clamped_cursor(
                final(self).cur_lines(),
                old(self).mode,
                old(self).cursor,
            ),
            (old(self).cursor.col as int) < old(self).cur_lines()[old(
                self,
            ).cursor.line as int].len() ==> final(self).buf().modified,
            old(self).cursor.col == old(self).cur_lines()[old(self).cursor.line as int].len()
                ==> final(self).buffers@ == old(self).buffers@,
            final(self).buf().file_path == old(self).buf().file_path,
            final(self).mode == old(self).mode,
            final(self).current_buf == old(self).current_buf,
            final(self).buffers@.len() == old(self).buffers@.len(),
            final(self).command_buffer == old(self).command_buffer,
            final(self).status_message == old(self).status_message,
            final(self).pending_normal == old(self).pending_normal,
            final(self).last_search_pattern == old(self).last_search_pattern,
            final(self).viewport_offset == old(self).viewport_offset,
    {
        let line = self.cursor.line;
        let ghost old_lines = self.cur_lines();
        let ghost col0 = self.cursor.col as int;
        let ghost mut k: int = 0;
        proof {
            assert(old_lines[line as int].take(col0) + old_lines[line as int].skip(col0 + 0)
                =~= old_lines[line as int]);
            assert(old_lines.update(line as int, old_lines[line as int]) =~~= old_lines);
        }
        loop
            invariant
                self.current_buf < self.buffers.len(),
                self.current_buf == old(self).current_buf,
                self.buffers@.len() == old(self).buffers@.len(),
                self.cursor == old(self).cursor,
                self.mode == old(self).mode,
                self.command_buffer == old(self).command_buffer,
                self.status_message == old(self).status_message,
                self.pending_normal == old(self).pending_normal,
                self.last_search_pattern == old(self).last_search_pattern,
                self.viewport_offset == old(self).viewport_offset,
                line == old(self).cursor.line,
                (line as int) < old_lines.len(),
                old_lines == old(self).cur_lines(),
                col0 == old(self).cursor.col as int,
                0 <= col0 <= old_lines[line as int].len(),
                0 <= k <= old_lines[line as int].len() - col0,
                self.cur_lines() == old_lines.update(
                    line as int,
                    old_lines[line as int].take(col0) + old_lines[line as int].skip(col0 + k),
                ),
                k == 0 ==> self.buffers@ == old(self).buffers@,
                k > 0 ==> self.buf().modified,
                self.buf().file_path == old(self).buf().file_path,
            ensures
                self.cur_lines() == old_lines.update(
                    line as int,
                    old_lines[line as int].take(col0),
                ),
                self.current_buf == old(self).current_buf < self.buffers.len(),
                self.buffers@.len() == old(self).buffers@.len(),
                self.cursor == old(self).cursor,
                self.mode == old(self).mode,
                self.command_buffer == old(self).command_buffer,
                self.status_message == old(self).status_message,
                self.pending_normal == old(self).pending_normal,
                self.last_search_pattern == old(self).last_search_pattern,
                self.viewport_offset == old(self).viewport_offset,
                col0 < old_lines[line as int].len() ==> self.buf().modified,
                col0 == old_lines[line as int].len() ==> self.buffers@ == old(self).buffers@,
                self.buf().file_path == old(self).buf().file_path,
            decreases old_lines[line as int].len() - col0 - k,
        {
            let llen = self.current_buffer().line_len(line);
            if self.cursor.col >= llen {
                proof {
                    assert(k == old_lines[line as int].len() - col0);
                    assert(old_lines[line as int].take(col0) + old_lines[line as int].skip(
                        col0 + k,
                    ) =~= old_lines[line as int].take(col0));
                }
                break ;
            }
            let col = self.cursor.col;
            let idx = self.current_buf;
            let ghost before = self.cur_lines();
            let buf = &mut self.buffers[idx];
            buf.delete_char(line, col);
            proof {
                k = k + 1;
                assert(before[line as int].remove(col0) =~= old_lines[line as int].take(col0)
                    + old_lines[line as int].skip(col0 + k));
                assert(self.cur_lines() =~~= old_lines.update(
                    line as int,
                    old_lines[line as int].take(col0) + old_lines[line as int].skip(col0 + k),
                ));
            }
        }
        self.clamp_cursor_col();
    }

    /// Join the current line with the next one, replacing the terminator by
    /// a single space; the cursor lands on that space. A no-op on the last
    /// line.
    pub fn join_lines(&mut self)
        requires
            old(self).wf(),
        ensures
            final(self).wf(),
            old(self).cursor.line as int + 1 >= old(self).cur_lines().len() ==> *final(self)
                == *old(self),
            old(self).cursor.line as int + 1 < old(self).cur_lines().len() ==> ({
                let l = old(self).cursor.line as int;
                let lines = old(self).cur_lines();
                &&& final(self).cur_lines() == lines.subrange(0, l) + seq![
                    lines[l] + seq![' '] + lines[l + 1],
                ] + lines.subrange(l + 2, lines.len() as int)
                &&& final(self).cursor == (Cursor {
                    line: old(self).cursor.line,
                    col: lines[l].len() as usize,
                })
                &&& final(self).buf().modified
                &&& final(self).buf().file_path == old(self).buf().file_path
                &&& final(self).mode == old(self).mode
                &&& final(self).current_buf == old(self).current_buf
                &&& final(self).buffers@.len() == old(self).buffers@.len()
                &&& final(self).command_buffer == old(self).command_buffer
                &&& final(self).status_message == old(self).status_message
                &&& final(self).pending_normal == old(self).pending_normal
                &&& final(self).last_search_pattern == old(self).last_search_pattern
                &&& final(self).viewport_offset == old(self).viewport_offset
            }),
    {
        let line_count = self.current_buffer().line_count();
        if self.cursor.line + 1 >= line_count {
            return ;
        }
        let line = self.cursor.line;
        let line_len = self.current_buffer().line_len(line);
        let ghost old_lines = self.cur_lines();
        let idx = self.current_buf;
        let buf = &mut self.buffers[idx];
        buf.insert_char(line, line_len, ' ');
        let ghost mid_lines = self.buf().lines();
        proof {
            assert(mid_lines[line as int] =~= old_lines[line as int] + seq![' ']);
            assert(mid_lines.len() == old_lines.len());
        }
        let idx2 = self.current_buf;
        let buf2 = &mut self.buffers[idx2];
        let new_len = buf2.line_len(line);
        proof {
            assert(new_len == line_len + 1);
        }
        buf2.delete_char(line, new_len);
        proof {
            let l = line as int;
            assert(self.cur_lines() =~~= old_lines.subrange(0, l) + seq![
                old_lines[l] + seq![' '] + old_lines[l + 1],
            ] + old_lines.subrange(l + 2, old_lines.len() as int));
        }
        self.cursor.col = line_len;
        self.clamp_cursor_col();
        proof {
            assert(self.cursor == (Cursor { line, col: line_len }));
        }
    }

    /// Delete the current line: its characters are removed and, unless it is
    /// the last line, its terminator too (removing the line). If the deleted
    /// line was the last and others remain, the cursor moves up one line;
    /// the column becomes 0.
    pub fn delete_current_line(&mut self)
        requires
            old(self).wf(),
        ensures
            final(self).wf(),
            (old(self).cursor.line as int) < old(self).cur_lines().len() - 1 ==> ({
                &&& final(self).cur_lines() == old(self).cur_lines().remove(
                    old(self).cursor.line as int,
                )
                &&& final(self).cursor == (Cursor { line: old(self).cursor.line, col: 0 })
                &&& final(self).buf().modified
            }),
            old(self).cursor.line as int == old(self).cur_lines().len() - 1 ==> ({
                &&& final(self).cur_lines() == old(self).cur_lines().update(
                    old(self).cursor.line as int,
                    Seq::<char>::empty(),
                )
                &&& final(self).cursor == (Cursor {
                    line: if old(self).cursor.line > 0 {
                        (old(self).cursor.line - 1) as usize
                    } else {
                        0
                    },
                    col: 0,
                })
                &&& old(self).cur_lines()[old(self).cursor.line as int].len() > 0
                    ==> final(self).buf().modified
                &&& old(self).cur_lines()[old(self).cursor.line as int].len() == 0
                    ==> final(self).buffers@ == old(self).buffers@
            }),
            final(self).buf().file_path == old(self).buf().file_path,
            final(self).mode == old(self).mode,
            final(self).current_buf == old(self).current_buf,
            final(self).buffers@.len() == old(self).buffers@.len(),
            final(self).command_buffer == old(self).command_buffer,
            final(self).status_message == old(self).status_message,
            final(self).pending_normal == old(self).pending_normal,
            final(self).last_search_pattern == old(self).last_search_pattern,
            final(self).viewport_offset == old(self).viewport_offset,
    {
        let line_count = self.current_buffer().line_count();
        let line = self.cursor.line;
        let was_last_line = line == line_count - 1;
        let ghost old_lines = self.cur_lines();
        let ghost mut k: int = 0;
        proof {
            assert(old_lines[line as int].skip(0) =~= old_lines[line as int]);
            assert(old_lines.update(line as int, old_lines[line as int]) =~~= old_lines);
        }
        loop
            invariant
                self.current_buf < self.buffers.len(),
                self.current_buf == old(self).current_buf,
                self.buffers@.len() == old(self).buffers@.len(),
                self.cursor == old(self).cursor,
                self.mode == old(self).mode,
                self.command_buffer == old(self).command_buffer,
                self.status_message == old(self).status_message,
                self.pending_normal == old(self).pending_normal,
                self.last_search_pattern == old(self).last_search_pattern,
                self.viewport_offset == old(self).viewport_offset,
                line == old(self).cursor.line,
                (line as int) < old_lines.len(),
                old_lines == old(self).cur_lines(),
                0 <= k <= old_lines[line as int].len(),
                self.cur_lines() == old_lines.update(
                    line as int,
                    old_lines[line as int].skip(k),
                ),
                k == 0 ==> self.buffers@ == old(self).buffers@,
                k > 0 ==> self.buf().modified,
                self.buf().file_path == old(self).buf().file_path,
            ensures
                self.cur_lines() == old_lines.update(line as int, Seq::<char>::empty()),
                self.current_buf == old(self).current_buf < self.buffers.len(),
                self.buffers@.len() == old(self).buffers@.len(),
                self.cursor == old(self).cursor,
                self.mode == old(self).mode,
                self.command_buffer == old(self).command_buffer,
                self.status_message == old(self).status_message,
                self.pending_normal == old(self).pending_normal,
                self.last_search_pattern == old(self).last_search_pattern,
                self.viewport_offset == old(self).viewport_offset,
                old_lines[line as int].len() > 0 ==> self.buf().modified,
                old_lines[line as int].len() == 0 ==> self.buffers@ == old(self).buffers@,
                self.buf().file_path == old(self).buf().file_path,
            decreases old_lines[line as int].len() - k,
        {
            let llen = self.current_buffer().line_len(line);
            if llen == 0 {
                proof {
                    assert(k == old_lines[line as int].len());
                    assert(old_lines[line as int].skip(k) =~= Seq::<char>::empty());
                }
                break ;
            }
            let idx = self.current_buf;
            let ghost before = self.cur_lines();
            let buf = &mut self.buffers[idx];
            buf.delete_char(line, 0);
            proof {
                k = k + 1;
                assert(before[line as int].remove(0) =~= old_lines[line as int].skip(k));
                assert(self.cur_lines() =~~= old_lines.update(
                    line as int,
                    old_lines[line as int].skip(k),
                ));
            }
        }
        let ghost mid_lines = self.cur_lines();
        if line + 1 < line_count {
            let idx = self.current_buf;
            let buf = &mut self.buffers[idx];
            buf.delete_char(line, 0);
            proof {
                let l = line as int;
                assert(Seq::<char>::empty() + old_lines[l + 1] =~= old_lines[l + 1]);
                assert(self.cur_lines() =~~= old_lines.remove(l));
            }
        }
        if was_last_line && line > 0 {
            self.cursor.line = line - 1;
        }
        self.cursor.col = 0;
        proof {
            crate::lines::lemma_split_len_pos(self.buf().text_spec());
            if (line as int) < old_lines.len() - 1 {
                assert(self.cur_lines().len() == old_lines.len() - 1);
                assert((self.cursor.line as int) < self.cur_lines().len());
            }
        }
    }
}

/// `(l, c)` is where a forward search with wraparound from `(lstart, cstart)`
/// lands: the first match strictly after the start, or, when none follows,
/// the first match of the whole buffer.
pub open spec fn wrapped_next(
    lines: Seq<Seq<char>>,
    pat: Seq<char>,
    lstart: int,
    cstart: int,
    l: int,
    c: int,
) -> bool {
    if pos_after(lstart, cstart, l, c) {
        first_match_from(lines, pat, lstart, cstart, l, c)
    } else {
        no_match_after(lines, pat, lstart, cstart) && first_match(lines, pat, l, c)
    }
}

/// `(l, c)` is where a backward search with wraparound from
/// `(lstart, cstart)` lands: the last match strictly before the start, or,
/// when none precedes, the last match of the whole buffer.
pub open spec fn wrapped_prev(
    lines: Seq<Seq<char>>,
    pat: Seq<char>,
    lstart: int,
    cstart: int,
    l: int,
    c: int,
) -> bool {
    if pos_after(l, c, lstart, cstart) {
        last_match_before(lines, pat, lstart, cstart, l, c)
    } else {
        no_match_before(lines, pat, lstart, cstart) && last_match(lines, pat, l, c)
    }
}

impl Editor {
    /// Run a forward search for the command-line pattern from the cursor,
    /// with wraparound: on a hit the cursor moves to the match and the
    /// pattern is recorded for repeats; on a miss or an empty pattern only a
    /// status message is set.
    pub fn search_forward(&mut self) -> (found: bool)
        requires
            old(self).wf(),
        ensures
            final(self).wf(),
            old(self).command_buffer@.len() == 0 ==> (!found && *final(self) == (Editor {
                status_message: Some(StatusMessage::NoPattern),
                ..*old(self)
            })),
            old(self).command_buffer@.len() > 0 ==> found == has_match(
                old(self).cur_lines(),
                old(self).command_buffer@,
            ),
            old(self).command_buffer@.len() > 0 && !found ==> *final(self) == (Editor {
                status_message: Some(StatusMessage::PatternNotFound),
                ..*old(self)
            }),
            found ==> ({
                &&& wrapped_next(
                    old(self).cur_lines(),
                    old(self).command_buffer@,
                    old(self).cursor.line as int,
                    old(self).cursor.col as int,
                    final(self).cursor.line as int,
                    final(self).cursor.col as int,
                )
                &&& (final(self).last_search_pattern matches Some(p) && p@ == old(
                    self,
                ).command_buffer@)
                &&& *final(self) == (Editor {
                    cursor: final(self).cursor,
                    last_search_pattern: final(self).last_search_pattern,
                    ..*old(self)
                })
            }),
    {
        if self.command_buffer.len() == 0 {
            self.set_status(StatusMessage::NoPattern);
            return false;
        }
        let pat_string = chars_to_string(&self.command_buffer);
        let r = self.current_buffer().find_forward(
            self.cursor.line,
            self.cursor.col,
            pat_string.as_str(),
            true,
        );
        match r {
            Option::Some((l, c)) => {
                proof {
                    assert(is_match_at(self.cur_lines(), self.command_buffer@, l as int, c as int));
                }
                self.cursor.line = l;
                self.cursor.col = c;
                proof {
                    assert(c as int <= max_col_spec(self.cur_lines(), self.mode, l as int));
                }
                self.clamp_cursor_col();
                proof {
                    assert(self.cursor == (Cursor { line: l, col: c }));
                }
                self.last_search_pattern = Option::Some(pat_string);
                true
            },
            Option::None => {
                self.set_status(StatusMessage::PatternNotFound);
                false
            },
        }
    }

    /// Run a backward search for the command-line pattern from the cursor,
    /// with wraparound; the mirror of `search_forward`.
    pub fn search_backward(&mut self) -> (found: bool)
        requires
            old(self).wf(),
        ensures
            final(self).wf(),
            old(self).command_buffer@.len() == 0 ==> (!found && *final(self) == (Editor {
                status_message: Some(StatusMessage::NoPattern),
                ..*old(self)
            })),
            old(self).command_buffer@.len() > 0 ==> found == has_match(
                old(self).cur_lines(),
                old(self).command_buffer@,
            ),
            old(self).command_buffer@.len() > 0 && !found ==> *final(self) == (Editor {
                status_message: Some(StatusMessage::PatternNotFound),
                ..*old(self)
            }),
            found ==> ({
                &&& wrapped_prev(
                    old(self).cur_lines(),
                    old(self).command_buffer@,
                    old(self).cursor.line as int,
                    old(self).cursor.col as int,
                    final(self).cursor.line as int,
                    final(self).cursor.col as int,
                )
                &&& (final(self).last_search_pattern matches Some(p) && p@ == old(
                    self,
                ).command_buffer@)
                &&& *final(self) == (Editor {
                    cursor: final(self).cursor,
                    last_search_pattern: final(self).last_search_pattern,
                    ..*old(self)
                })
            }),
    {
        if self.command_buffer.len() == 0 {
            self.set_status(StatusMessage::NoPattern);
            return false;
        }
        let pat_string = chars_to_string(&self.command_buffer);
        let r = self.current_buffer().find_backward(
            self.cursor.line,
            self.cursor.col,
            pat_string.as_str(),
            true,
        );
        match r {
            Option::Some((l, c)) => {
                proof {
                    assert(is_match_at(self.cur_lines(), self.command_buffer@, l as int, c as int));
                }
                self.cursor.line = l;
                self.cursor.col = c;
                proof {
                    assert(c as int <= max_col_spec(self.cur_lines(), self.mode, l as int));
                }
                self.clamp_cursor_col();
                proof {
                    assert(self.cursor == (Cursor { line: l, col: c }));
                }
                self.last_search_pattern = Option::Some(pat_string);
                true
            },
            Option::None => {
                self.set_status(StatusMessage::PatternNotFound);
                false
            },
        }
    }

    /// Repeat the last search forward, leaving the recorded pattern
    /// untouched; with no previous search only a status message is set.
    pub fn repeat_search_forward(&mut self) -> (found: bool)
        requires
            old(self).wf(),
        ensures
            final(self).wf(),
            (old(self).last_search_pattern is None || (old(
                self,
            ).last_search_pattern matches Some(p) && p@.len() == 0)) ==> (!found && *final(self)
                == (Editor { status_message: Some(StatusMessage::NoPreviousSearch), ..*old(self) })),
            old(self).last_search_pattern matches Some(p) && p@.len() > 0 ==> ({
                let pat = old(self).last_search_pattern->Some_0@;
                &&& found == has_match(old(self).cur_lines(), pat)
                &&& !found ==> *final(self) == (Editor {
                    status_message: Some(StatusMessage::PatternNotFound),
                    ..*old(self)
                })
                &&& found ==> (wrapped_next(
                    old(self).cur_lines(),
                    pat,
                    old(self).cursor.line as int,
                    old(self).cursor.col as int,
                    final(self).cursor.line as int,
                    final(self).cursor.col as int,
                ) && *final(self) == (Editor { cursor: final(self).cursor, ..*old(self) }))
            }),
    {
        let pattern = match &self.last_search_pattern {
            Option::Some(p) => {
                if p.as_str().is_empty() {
                    self.set_status(StatusMessage::NoPreviousSearch);
                    return false;
                }
                p.clone()
            },
            Option::None => {
                self.set_status(StatusMessage::NoPreviousSearch);
                return false;
            },
        };
        let r = self.current_buffer().find_forward(
            self.cursor.line,
            self.cursor.col,
            pattern.as_str(),
            true,
        );
        match r {
            Option::Some((l, c)) => {
                proof {
                    let ghost p = old(self).last_search_pattern->Some_0;
                    assert(is_match_at(self.cur_lines(), p@, l as int, c as int));
                }
                self.cursor.line = l;
                self.cursor.col = c;
                proof {
                    assert(c as int <= max_col_spec(self.cur_lines(), self.mode, l as int));
                }
                self.clamp_cursor_col();
                proof {
                    assert(self.cursor == (Cursor { line: l, col: c }));
                }
                true
            },
            Option::None => {
                self.set_status(StatusMessage::PatternNotFound);
                false
            },
        }
    }

    /// Repeat the last search backward, leaving the recorded pattern
    /// untouched; with no previous search only a status message is set.
    pub fn repeat_search_backward(&mut self) -> (found: bool)
        requires
            old(self).wf(),
        ensures
            final(self).wf(),
            (old(self).last_search_pattern is None || (old(
                self,
            ).last_search_pattern matches Some(p) && p@.len() == 0)) ==> (!found && *final(self)
                == (Editor { status_message: Some(StatusMessage::NoPreviousSearch), ..*old(self) })),
            old(self).last_search_pattern matches Some(p) && p@.len() > 0 ==> ({
                let pat = old(self).last_search_pattern->Some_0@;
                &&& found == has_match(old(self).cur_lines(), pat)
                &&& !found ==> *final(self) == (Editor {
                    status_message: Some(StatusMessage::PatternNotFound),
                    ..*old(self)
                })
                &&& found ==> (wrapped_prev(
                    old(self).cur_lines(),
                    pat,
                    old(self).cursor.line as int,
                    old(self).cursor.col as int,
                    final(self).cursor.line as int,
                    final(self).cursor.col as int,
                ) && *final(self) == (Editor { cursor: final(self).cursor, ..*old(self) }))
            }),
    {
        let pattern = match &self.last_search_pattern {
            Option::Some(p) => {
                if p.as_str().is_empty() {
                    self.set_status(StatusMessage::NoPreviousSearch);
                    return false;
                }
                p.clone()
            },
            Option::None => {
                self.set_status(StatusMessage::NoPreviousSearch);
                return false;
            },
        };
        let r = self.current_buffer().find_backward(
            self.cursor.line,
            self.cursor.col,
            pattern.as_str(),
            true,
        );
        match r {
            Option::Some((l, c)) => {
                proof {
                    let ghost p = old(self).last_search_pattern->Some_0;
                    assert(is_match_at(self.cur_lines(), p@, l as int, c as int));
                }
                self.cursor.line = l;
                self.cursor.col = c;
                proof {
                    assert(c as int <= max_col_spec(self.cur_lines(), self.mode, l as int));
                }
                self.clamp_cursor_col();
                proof {
                    assert(self.cursor == (Cursor { line: l, col: c }));
                }
                true
            },
            Option::None => {
                self.set_status(StatusMessage::PatternNotFound);
                false
            },
        }
    }
}

/// The trimmed command asks to quit.
pub open spec fn is_quit_cmd(t: Seq<char>) -> bool {
    t == "q"@ || t == "quit"@
}

/// The trimmed command asks to quit discarding changes.
pub open spec fn is_force_quit_cmd(t: Seq<char>) -> bool {
    t == "q!"@ || t == "quit!"@
}

/// The trimmed command asks for the next buffer.
pub open spec fn is_next_buf_cmd(t: Seq<char>) -> bool {
    t == "bn"@ || t == "bnext"@
}

/// The trimmed command asks for the previous buffer.
pub open spec fn is_prev_buf_cmd(t: Seq<char>) -> bool {
    t == "bp"@ || t == "bprev"@ || t == "bprevious"@
}

/// The trimmed command asks to write the buffer to its associated path.
pub open spec fn is_write_cmd(t: Seq<char>) -> bool {
    t == "w"@ || t == "write"@
}

/// The trimmed command asks to write and then quit.
pub open spec fn is_write_quit_cmd(t: Seq<char>) -> bool {
    t == "wq"@
}

/// The path argument of a `w <path>` or `write <path>` command, trimmed;
/// None when the command has no such form.
pub open spec fn write_as_arg(t: Seq<char>) -> Option<Seq<char>> {
    if t.len() >= 2 && t.take(2) == "w "@ {
        Some(trim_spec(t.skip(2)))
    } else if t.len() >= 6 && t.take(6) == "write "@ {
        Some(trim_spec(t.skip(6)))
    } else {
        None
    }
}

/// The trimmed command is one this interpreter recognizes.
pub open spec fn is_known_cmd(t: Seq<char>) -> bool {
    ||| is_quit_cmd(t)
    ||| is_force_quit_cmd(t)
    ||| is_next_buf_cmd(t)
    ||| is_prev_buf_cmd(t)
    ||| is_write_cmd(t)
    ||| is_write_quit_cmd(t)
    ||| write_as_arg(t) is Some
}

/// The buffer index after switching to the next buffer, wrapping around.
pub open spec fn next_buf_index(e: Editor) -> int {
    if e.buffers@.len() <= 1 {
        e.current_buf as int
    } else {
        (e.current_buf + 1) % (e.buffers@.len() as int)
    }
}

/// The buffer index after switching to the previous buffer, wrapping around.
pub open spec fn prev_buf_index(e: Editor) -> int {
    if e.buffers@.len() <= 1 {
        e.current_buf as int
    } else if e.current_buf == 0 {
        e.buffers@.len() - 1
    } else {
        e.current_buf - 1
    }
}

/// The editor after switching to buffer `nb`: cursor re-clamped to that
/// buffer, viewport reset.
pub open spec fn buf_switched(e: Editor, nb: int) -> Editor {
    Editor {
        current_buf: nb as usize,
        cursor: clamped_cursor(e.buffers@[nb].lines(), e.mode, e.cursor),
        viewport_offset: 0,
        ..e
    }
}

impl Editor {
    /// Execute the `:` command held in the command line: quit and force-quit
    /// requests are returned to the caller, buffer switches are applied,
    /// write requests (including `w <path>`, which re-associates the buffer's
    /// path first) are returned as a save request, and anything else sets an
    /// unknown-command status. The command line is always cleared and the
    /// editor returns to Normal mode.
    pub fn execute_command(&mut self) -> (r: CommandOutcome)
        requires
            old(self).wf(),
        ensures
            final(self).wf(),
            final(self).command_buffer@ == Seq::<char>::empty(),
            final(self).mode is Normal,
            final(self).buffers@.len() == old(self).buffers@.len(),
            final(self).pending_normal == old(self).pending_normal,
            final(self).last_search_pattern == old(self).last_search_pattern,
            ({
                let t = trim_spec(old(self).command_buffer@);
                &&& (!is_next_buf_cmd(t) && !is_prev_buf_cmd(t) ==> (final(self).current_buf == old(
                    self,
                ).current_buf && final(self).viewport_offset == old(self).viewport_offset))
                &&& (is_quit_cmd(t) ==> r == CommandOutcome::Control(EditorCommand::Quit))
                &&& (is_force_quit_cmd(t) ==> r == CommandOutcome::Control(EditorCommand::ForceQuit))
                &&& (is_quit_cmd(t) || is_force_quit_cmd(t) ==> (final(self).buffers@ == old(
                    self,
                ).buffers@ && final(self).current_buf == old(self).current_buf && final(self).cursor
                    == old(self).cursor && final(self).viewport_offset == old(self).viewport_offset
                    && final(self).status_message == old(self).status_message))
                &&& (is_next_buf_cmd(t) ==> (r == CommandOutcome::Nothing && final(self).buffers@
                    == old(self).buffers@ && final(self).status_message == old(
                    self,
                ).status_message && ({
                    let a = buf_switched(*old(self), next_buf_index(*old(self)));
                    old(self).buffers@.len() > 1 ==> (final(self).current_buf == a.current_buf
                        && final(self).cursor == a.cursor && final(self).viewport_offset
                        == a.viewport_offset)
                }) && (old(self).buffers@.len() <= 1 ==> (final(self).current_buf == old(
                    self,
                ).current_buf && final(self).cursor == old(self).cursor && final(self).viewport_offset == old(self).viewport_offset))))
                &&& (is_prev_buf_cmd(t) ==> (r == CommandOutcome::Nothing && final(self).buffers@
                    == old(self).buffers@ && final(self).status_message == old(
                    self,
                ).status_message && ({
                    let a = buf_switched(*old(self), prev_buf_index(*old(self)));
                    old(self).buffers@.len() > 1 ==> (final(self).current_buf == a.current_buf
                        && final(self).cursor == a.cursor && final(self).viewport_offset
                        == a.viewport_offset)
                }) && (old(self).buffers@.len() <= 1 ==> (final(self).current_buf == old(
                    self,
                ).current_buf && final(self).cursor == old(self).cursor && final(self).viewport_offset == old(self).viewport_offset))))
                &&& ((is_write_cmd(t) || is_write_quit_cmd(t)) && old(self).buf().file_path is Some
                    ==> (r == (CommandOutcome::Save { and_quit: is_write_quit_cmd(t) }) && final(self).buffers@ == old(self).buffers@ && final(self).cursor == old(self).cursor && final(self).status_message == old(self).status_message))
                &&& ((is_write_cmd(t) || is_write_quit_cmd(t)) && old(self).buf().file_path is None
                    ==> (r == CommandOutcome::Nothing && final(self).buffers@ == old(self).buffers@
                    && final(self).cursor == old(self).cursor && final(self).status_message == Some(
                    StatusMessage::SaveFailedNoPath,
                )))
                &&& (!is_write_cmd(t) && !is_write_quit_cmd(t) && write_as_arg(t) is Some ==> (r
                    == (CommandOutcome::Save { and_quit: false }) && (final(self).buf().file_path matches Some(p) && p@ == write_as_arg(t)->Some_0) && final(self).buf().text_spec() == old(self).buf().text_spec() && final(self).buf().modified
                    == old(self).buf().modified && final(self).current_buf == old(self).current_buf
                    && final(self).buffers@ == old(self).buffers@.update(
                    old(self).current_buf as int,
                    final(self).buf(),
                ) && final(self).cursor == old(self).cursor && final(self).status_message == old(
                    self,
                ).status_message))
                &&& (!is_known_cmd(t) ==> (r == CommandOutcome::Nothing && final(self).buffers@
                    == old(self).buffers@ && final(self).cursor == old(self).cursor && (final(self).status_message matches Some(m) && m matches StatusMessage::UnknownCommand(c)
                    && c@ == t)))
            }),
    {
        let cmd = trim_chars(&self.command_buffer);
        let ghost t = trim_spec(old(self).command_buffer@);
        let cmd_len = cmd.len();
        proof {
            assert(cmd@.subrange(0, cmd@.len() as int) =~= cmd@);
            reveal_strlit("q");
            reveal_strlit("quit");
            reveal_strlit("q!");
            reveal_strlit("quit!");
            reveal_strlit("bn");
            reveal_strlit("bnext");
            reveal_strlit("bp");
            reveal_strlit("bprev");
            reveal_strlit("bprevious");
            reveal_strlit("w");
            reveal_strlit("write");
            reveal_strlit("wq");
            reveal_strlit("w ");
            reveal_strlit("write ");
            assert("q"@.len() == 1 && "q"@[0] == 'q');
            assert("quit"@.len() == 4 && "quit"@[0] == 'q');
            assert("q!"@.len() == 2 && "q!"@[0] == 'q');
            assert("quit!"@.len() == 5 && "quit!"@[0] == 'q');
            assert("bn"@.len() == 2 && "bn"@[0] == 'b' && "bn"@[1] == 'n');
            assert("bnext"@.len() == 5 && "bnext"@[0] == 'b' && "bnext"@[1] == 'n');
            assert("bp"@.len() == 2 && "bp"@[0] == 'b' && "bp"@[1] == 'p');
            assert("bprev"@.len() == 5 && "bprev"@[0] == 'b' && "bprev"@[1] == 'p');
            assert("bprevious"@.len() == 9 && "bprevious"@[0] == 'b');
            assert("w"@.len() == 1 && "w"@[0] == 'w');
            assert("write"@.len() == 5 && "write"@[0] == 'w' && "write"@[1] == 'r');
            assert("wq"@.len() == 2 && "wq"@[0] == 'w' && "wq"@[1] == 'q');
            assert("w "@.len() == 2 && "w "@[0] == 'w' && "w "@[1] == ' ');
            assert("write "@.len() == 6 && "write "@[1] == 'r' && "write "@[5] == ' ');
        }
        let r: CommandOutcome = if range_eq_str(&cmd, 0, cmd_len, "q") || range_eq_str(
            &cmd,
            0,
            cmd_len,
            "quit",
        ) {
            proof {
                assert(cmd@.subrange(0, cmd@.len() as int) =~= cmd@);
            }
            CommandOutcome::Control(EditorCommand::Quit)
        } else if range_eq_str(&cmd, 0, cmd_len, "q!") || range_eq_str(&cmd, 0, cmd_len, "quit!") {
            proof {
                assert(cmd@.subrange(0, cmd@.len() as int) =~= cmd@);
            }
            CommandOutcome::Control(EditorCommand::ForceQuit)
        } else if range_eq_str(&cmd, 0, cmd_len, "bn") || range_eq_str(&cmd, 0, cmd_len, "bnext") {
            proof {
                assert(cmd@.subrange(0, cmd@.len() as int) =~= cmd@);
            }
            self.next_buf();
            CommandOutcome::Nothing
        } else if range_eq_str(&cmd, 0, cmd_len, "bp") || range_eq_str(&cmd, 0, cmd_len, "bprev")
            || range_eq_str(&cmd, 0, cmd_len, "bprevious") {
            proof {
                assert(cmd@.subrange(0, cmd@.len() as int) =~= cmd@);
            }
            self.prev_buf();
            CommandOutcome::Nothing
        } else if range_eq_str(&cmd, 0, cmd_len, "w") || range_eq_str(&cmd, 0, cmd_len, "write") {
            proof {
                assert(cmd@.subrange(0, cmd@.len() as int) =~= cmd@);
            }
            if self.current_buffer().file_path.is_some() {
                CommandOutcome::Save { and_quit: false }
            } else {
                self.set_status(StatusMessage::SaveFailedNoPath);
                CommandOutcome::Nothing
            }
        } else if range_eq_str(&cmd, 0, cmd_len, "wq") {
            proof {
                assert(cmd@.subrange(0, cmd@.len() as int) =~= cmd@);
            }
            if self.current_buffer().file_path.is_some() {
                CommandOutcome::Save { and_quit: true }
            } else {
                self.set_status(StatusMessage::SaveFailedNoPath);
                CommandOutcome::Nothing
            }
        } else if cmd_len >= 2 && range_eq_str(&cmd, 0, 2, "w ") {
            let arg = subrange_chars(&cmd, 2, cmd_len);
            proof {
                assert(arg@ =~= t.skip(2));
            }
            let path = trim_chars(&arg);
            let path_string = chars_to_string(&path);
            let idx = self.current_buf;
            let buf = &mut self.buffers[idx];
            buf.file_path = Option::Some(path_string);
            CommandOutcome::Save { and_quit: false }
        } else if cmd_len >= 6 && range_eq_str(&cmd, 0, 6, "write ") {
            let arg = subrange_chars(&cmd, 6, cmd_len);
            proof {
                assert(arg@ =~= t.skip(6));
            }
            let path = trim_chars(&arg);
            let path_string = chars_to_string(&path);
            let idx = self.current_buf;
            let buf = &mut self.buffers[idx];
            buf.file_path = Option::Some(path_string);
            CommandOutcome::Save { and_quit: false }
        } else {
            let text = chars_to_string(&cmd);
            self.set_status(StatusMessage::UnknownCommand(text));
            CommandOutcome::Nothing
        };
        self.command_buffer = Vec::new();
        self.mode = Mode::Normal;
        proof {
            crate::lines::lemma_split_len_pos(self.buf().text_spec());
        }
        r
    }

    /// Record the outcome of a save performed by the caller: on success the
    /// modified flag is cleared and a written/saved status set; on failure
    /// only an error status is set and the buffer keeps its state.
    pub fn finish_save(&mut self, result: Result<(), String>)
        requires
            old(self).wf(),
        ensures
            final(self).wf(),
            final(self).cursor == old(self).cursor,
            final(self).mode == old(self).mode,
            final(self).current_buf == old(self).current_buf,
            final(self).buffers@.len() == old(self).buffers@.len(),
            final(self).command_buffer == old(self).command_buffer,
            final(self).pending_normal == old(self).pending_normal,
            final(self).last_search_pattern == old(self).last_search_pattern,
            final(self).viewport_offset == old(self).viewport_offset,
            result is Ok ==> (!final(self).buf().modified && final(self).buf().text_spec() == old(
                self,
            ).buf().text_spec() && final(self).buf().file_path == old(self).buf().file_path && (
            match old(self).buf().file_path {
                Some(p) => final(self).status_message matches Some(m) && m
                    matches StatusMessage::FileWritten(n) && n@ == crate::strings::after_last_sep(
                    p@,
                ),
                None => final(self).status_message == Some(StatusMessage::FileSaved),
            })),
            result matches Err(e) ==> (final(self).buffers@ == old(self).buffers@ && final(self).status_message == Some(StatusMessage::SaveFailedIo(e))),
    {
        match result {
            Result::Ok(()) => {
                let idx = self.current_buf;
                self.buffers[idx].modified = false;
                let name = self.current_buffer().filename();
                match name {
                    Option::Some(n) => self.set_status(StatusMessage::FileWritten(n)),
                    Option::None => self.set_status(StatusMessage::FileSaved),
                }
            },
            Result::Err(e) => {
                self.set_status(StatusMessage::SaveFailedIo(e));
            },
        }
    }
}

impl StatusMessage {
    /// The human-readable text of the message.
    pub fn text(&self) -> (r: String)
        ensures
            self matches StatusMessage::FileWritten(n) ==> r@ == "\""@ + n@ + "\" written"@,
            self matches StatusMessage::FileSaved ==> r@ == "File saved"@,
            self matches StatusMessage::SaveFailedNoPath ==> r@
                == "Error saving: No file path associated with buffer"@,
            self matches StatusMessage::SaveFailedIo(e) ==> r@ == "Error saving: "@ + e@,
            self matches StatusMessage::UnknownCommand(c) ==> r@ == "Unknown command: "@ + c@,
            self matches StatusMessage::PatternNotFound ==> r@ == "Pattern not found"@,
            self matches StatusMessage::NoPattern ==> r@ == "No pattern"@,
            self matches StatusMessage::NoPreviousSearch ==> r@ == "No previous search"@,
            self matches StatusMessage::NoWriteSinceLastChange ==> r@
                == "No write since last change (add ! to override)"@,
            self matches StatusMessage::Info(s) ==> r@ == s@,
    {
        match self {
            StatusMessage::FileWritten(n) => {
                let mut s = String::from_str("\"");
                s.append(n.as_str());
                s.append("\" written");
                s
            },
            StatusMessage::FileSaved => String::from_str("File saved"),
            StatusMessage::SaveFailedNoPath => String::from_str(
                "Error saving: No file path associated with buffer",
            ),
            StatusMessage::SaveFailedIo(e) => {
                let mut s = String::from_str("Error saving: ");
                s.append(e.as_str());
                s
            },
            StatusMessage::UnknownCommand(c) => {
                let mut s = String::from_str("Unknown command: ");
                s.append(c.as_str());
                s
            },
            StatusMessage::PatternNotFound => String::from_str("Pattern not found"),
            StatusMessage::NoPattern => String::from_str("No pattern"),
            StatusMessage::NoPreviousSearch => String::from_str("No previous search"),
            StatusMessage::NoWriteSinceLastChange => String::from_str(
                "No write since last change (add ! to override)",
            ),
            StatusMessage::Info(s) => s.clone(),
        }
    }
}

} // verus!
