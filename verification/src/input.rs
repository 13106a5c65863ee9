//! The key dispatcher: resolves an incoming key event, together with the
//! current mode and pending-chord state, into an action on the editor.

use crate::buffer::has_match;
use crate::editor::{
    clamped_cursor, end_of_word_target, line_with_term, max_col_spec, next_blank_line,
    prev_blank_line, scan_while, word_backward_target, word_forward_target, wrapped_next,
    wrapped_prev, CommandOutcome, Cursor, Editor, EditorCommand, PendingNormal, StatusMessage,
};
use crate::key::{KeyCode, KeyEvent};
use crate::mode::Mode;
use vstd::prelude::*;

verus! {

/// The result of handling an input event.
#[derive(Debug, Clone, Copy, PartialEq, Eq, Structural)]
pub enum InputResult {
    /// Continue running.
    Continue,
    /// Exit the editor.
    Exit,
}

/// What handling a key asks of the front end, beyond the state changes
/// already applied to the editor.
#[derive(Debug, Clone, Copy, PartialEq, Eq, Structural)]
pub enum KeyOutcome {
    /// Nothing further; keep running.
    Continue,
    /// Exit the editor.
    Exit,
    /// Write the current buffer to its associated path and report the result
    /// back through `Editor::finish_save`; with `and_quit`, exit after a
    /// successful save.
    Save { and_quit: bool },
    /// Toggle the file-explorer sidebar.
    ToggleSidebar,
}

/// A pending replace-chord consumes every character key as its argument.
pub open spec fn replace_consumes(pending: PendingNormal, k: KeyEvent) -> bool {
    pending is ReplaceChar && k.code is Char
}

/// The pending-chord state after a Normal-mode key that is not consumed by a
/// replace chord: `g`, `d` and `r` arm their chords (a repeated `g` or `d`
/// completes and disarms); any other key disarms.
pub open spec fn pending_after(pending: PendingNormal, k: KeyEvent) -> PendingNormal {
    if k.code == KeyCode::Char('g') {
        if pending is SecondG {
            PendingNormal::Idle
        } else {
            PendingNormal::SecondG
        }
    } else if k.code == KeyCode::Char('d') {
        if pending is SecondD {
            PendingNormal::Idle
        } else {
            PendingNormal::SecondD
        }
    } else if k.code == KeyCode::Char('r') {
        PendingNormal::ReplaceChar
    } else {
        PendingNormal::Idle
    }
}

/// Fields a Normal-mode key never touches when it only moves the cursor.
pub open spec fn same_but_cursor(pre: Editor, post: Editor) -> bool {
    &&& post.buffers@ == pre.buffers@
    &&& post.current_buf == pre.current_buf
    &&& post.mode == pre.mode
    &&& post.viewport_offset == pre.viewport_offset
    &&& post.command_buffer == pre.command_buffer
    &&& post.last_search_pattern == pre.last_search_pattern
}

/// Fields a Normal-mode edit never touches.
pub open spec fn same_edit_frame(pre: Editor, post: Editor) -> bool {
    &&& post.current_buf == pre.current_buf
    &&& post.buffers@.len() == pre.buffers@.len()
    &&& post.mode == pre.mode
    &&& post.viewport_offset == pre.viewport_offset
    &&& post.command_buffer == pre.command_buffer
    &&& post.last_search_pattern == pre.last_search_pattern
    &&& post.buf().file_path == pre.buf().file_path
}

/// The effect of replacing the character under the cursor by `ch`.
pub open spec fn replace_effect(pre: Editor, post: Editor, ch: char) -> bool {
    let l = pre.cursor.line as int;
    let c = pre.cursor.col as int;
    &&& same_edit_frame(pre, post)
    &&& (c < pre.cur_lines()[l].len() ==> (post.cur_lines() == pre.cur_lines().update(
        l,
        pre.cur_lines()[l].update(c, ch),
    ) && post.buf().modified && post.cursor == pre.cursor))
    &&& (c >= pre.cur_lines()[l].len() ==> (post.buffers@ == pre.buffers@ && post.cursor
        == clamped_cursor(pre.cur_lines(), pre.mode, pre.cursor)))
}

/// The effect of deleting the character under the cursor.
pub open spec fn delete_at_cursor_effect(pre: Editor, post: Editor) -> bool {
    let l = pre.cursor.line as int;
    let c = pre.cursor.col as int;
    let lines = pre.cur_lines();
    &&& same_edit_frame(pre, post)
    &&& (c < lines[l].len() ==> ({
        let lines2 = lines.update(l, lines[l].remove(c));
        post.cur_lines() == lines2 && post.cursor == clamped_cursor(lines2, pre.mode, pre.cursor)
            && post.buf().modified
    }))
    &&& (c == lines[l].len() && l < lines.len() - 1 ==> ({
        let lines2 = lines.subrange(0, l) + seq![lines[l] + lines[l + 1]] + lines.subrange(
            l + 2,
            lines.len() as int,
        );
        post.cur_lines() == lines2 && post.cursor == clamped_cursor(lines2, pre.mode, pre.cursor)
            && post.buf().modified
    }))
    &&& (c == lines[l].len() && l == lines.len() - 1 ==> (post.buffers@ == pre.buffers@
        && post.cursor == clamped_cursor(lines, pre.mode, pre.cursor)))
}

/// The effect of deleting from the cursor to the end of the line.
pub open spec fn delete_to_eol_effect(pre: Editor, post: Editor) -> bool {
    let l = pre.cursor.line as int;
    let c = pre.cursor.col as int;
    let lines2 = pre.cur_lines().update(l, pre.cur_lines()[l].take(c));
    &&& same_edit_frame(pre, post)
    &&& post.cur_lines() == lines2
    &&& post.cursor == clamped_cursor(lines2, pre.mode, pre.cursor)
    &&& (c < pre.cur_lines()[l].len() ==> post.buf().modified)
}

/// The effect of joining the current line with the next by a single space.
pub open spec fn join_lines_effect(pre: Editor, post: Editor) -> bool {
    let l = pre.cursor.line as int;
    let lines = pre.cur_lines();
    &&& (l + 1 >= lines.len() ==> (post.buffers@ == pre.buffers@ && post.cursor == pre.cursor
        && same_edit_frame(pre, post)))
    &&& (l + 1 < lines.len() ==> (same_edit_frame(pre, post) && post.cur_lines() == lines.subrange(
        0,
        l,
    ) + seq![lines[l] + seq![' '] + lines[l + 1]] + lines.subrange(l + 2, lines.len() as int)
        && post.cursor == (Cursor { line: pre.cursor.line, col: lines[l].len() as usize })
        && post.buf().modified))
}

/// The effect of deleting the current line.
pub open spec fn delete_line_effect(pre: Editor, post: Editor) -> bool {
    let l = pre.cursor.line as int;
    let lines = pre.cur_lines();
    &&& same_edit_frame(pre, post)
    &&& (l < lines.len() - 1 ==> (post.cur_lines() == lines.remove(l) && post.cursor == (Cursor {
        line: pre.cursor.line,
        col: 0,
    }) && post.buf().modified))
    &&& (l == lines.len() - 1 ==> (post.cur_lines() == lines.update(l, Seq::<char>::empty())
        && post.cursor == (Cursor {
        line: if pre.cursor.line > 0 {
            (pre.cursor.line - 1) as usize
        } else {
            0
        },
        col: 0,
    })))
}

/// The effect of repeating the last search in the given direction.
pub open spec fn repeat_search_effect(pre: Editor, post: Editor, forward: bool) -> bool {
    &&& post.buffers@ == pre.buffers@
    &&& post.current_buf == pre.current_buf
    &&& post.mode == pre.mode
    &&& post.viewport_offset == pre.viewport_offset
    &&& post.command_buffer == pre.command_buffer
    &&& post.last_search_pattern == pre.last_search_pattern
    &&& ((pre.last_search_pattern is None || (pre.last_search_pattern matches Some(p) && p@.len()
        == 0)) ==> (post.status_message == Some(StatusMessage::NoPreviousSearch) && post.cursor
        == pre.cursor))
    &&& (pre.last_search_pattern matches Some(p) && p@.len() > 0 ==> ({
        let pat = pre.last_search_pattern->Some_0@;
        if has_match(pre.cur_lines(), pat) {
            post.status_message is None && (if forward {
                wrapped_next(
                    pre.cur_lines(),
                    pat,
                    pre.cursor.line as int,
                    pre.cursor.col as int,
                    post.cursor.line as int,
                    post.cursor.col as int,
                )
            } else {
                wrapped_prev(
                    pre.cur_lines(),
                    pat,
                    pre.cursor.line as int,
                    pre.cursor.col as int,
                    post.cursor.line as int,
                    post.cursor.col as int,
                )
            })
        } else {
            post.status_message == Some(StatusMessage::PatternNotFound) && post.cursor
                == pre.cursor
        }
    }))
}

/// What a Normal-mode key does, as a relation between the editor before and
/// after: the status message is first cleared; a pending replace chord
/// consumes the next character key; otherwise the key's action runs and the
/// pending-chord state becomes `pending_after`.
pub open spec fn normal_key_spec(pre: Editor, post: Editor, k: KeyEvent) -> bool {
    let lines = pre.cur_lines();
    let cur = pre.cursor;
    let l = cur.line as int;
    let cleared = Editor { status_message: None, ..pre };
    if replace_consumes(pre.pending_normal, k) {
        let ch = k.code->Char_0;
        &&& post.pending_normal is Idle
        &&& post.status_message is None
        &&& (ch != '\n' ==> replace_effect(pre, post, ch))
        &&& (ch == '\n' ==> (post.buffers@ == pre.buffers@ && post.cursor == pre.cursor
            && same_but_cursor(pre, post)))
    } else {
        &&& post.pending_normal == pending_after(pre.pending_normal, k)
        &&& (match k.code {
            KeyCode::Char('c') => (if k.modifiers.ctrl {
                post.command_buffer@ == Seq::<char>::empty() && post.mode is Normal && post.cursor
                    == clamped_cursor(lines, Mode::Normal, cur) && post.buffers@ == pre.buffers@
                    && post.current_buf == pre.current_buf && post.viewport_offset
                    == pre.viewport_offset && post.last_search_pattern
                    == pre.last_search_pattern && post.status_message is None
            } else {
                post.status_message is None && post.cursor == pre.cursor && same_but_cursor(
                    pre,
                    post,
                )
            }),
            KeyCode::Char('h') => post.status_message is None && same_but_cursor(pre, post)
                && post.cursor == (Cursor {
                line: cur.line,
                col: if cur.col > 0 {
                    (cur.col - 1) as usize
                } else {
                    0
                },
            }),
            KeyCode::Left => post.status_message is None && same_but_cursor(pre, post)
                && post.cursor == (Cursor {
                line: cur.line,
                col: if cur.col > 0 {
                    (cur.col - 1) as usize
                } else {
                    0
                },
            }),
            KeyCode::Char('l') => post.status_message is None && same_but_cursor(pre, post)
                && post.cursor == (Cursor {
                line: cur.line,
                col: if (cur.col as int) < max_col_spec(lines, pre.mode, l) {
                    (cur.col + 1) as usize
                } else {
                    cur.col
                },
            }),
            KeyCode::Right => post.status_message is None && same_but_cursor(pre, post)
                && post.cursor == (Cursor {
                line: cur.line,
                col: if (cur.col as int) < max_col_spec(lines, pre.mode, l) {
                    (cur.col + 1) as usize
                } else {
                    cur.col
                },
            }),
            KeyCode::Char('j') => post.status_message is None && same_but_cursor(pre, post)
                && post.cursor == (if l + 1 < lines.len() {
                clamped_cursor(lines, pre.mode, Cursor { line: (cur.line + 1) as usize, col: cur.col })
            } else {
                cur
            }),
            KeyCode::Down => post.status_message is None && same_but_cursor(pre, post)
                && post.cursor == (if l + 1 < lines.len() {
                clamped_cursor(lines, pre.mode, Cursor { line: (cur.line + 1) as usize, col: cur.col })
            } else {
                cur
            }),
            KeyCode::Char('k') => post.status_message is None && same_but_cursor(pre, post)
                && post.cursor == (if cur.line > 0 {
                clamped_cursor(lines, pre.mode, Cursor { line: (cur.line - 1) as usize, col: cur.col })
            } else {
                cur
            }),
            KeyCode::Up => post.status_message is None && same_but_cursor(pre, post)
                && post.cursor == (if cur.line > 0 {
                clamped_cursor(lines, pre.mode, Cursor { line: (cur.line - 1) as usize, col: cur.col })
            } else {
                cur
            }),
            KeyCode::Char('w') => post.status_message is None && same_but_cursor(pre, post)
                && post.cursor == word_forward_target(lines, pre.mode, cur),
            KeyCode::Char('W') => post.status_message is None && same_but_cursor(pre, post)
                && post.cursor == word_forward_target(lines, pre.mode, cur),
            KeyCode::Char('b') => post.status_message is None && same_but_cursor(pre, post)
                && post.cursor == word_backward_target(lines, pre.mode, cur),
            KeyCode::Char('B') => post.status_message is None && same_but_cursor(pre, post)
                && post.cursor == word_backward_target(lines, pre.mode, cur),
            KeyCode::Char('e') => post.status_message is None && same_but_cursor(pre, post)
                && post.cursor == end_of_word_target(lines, pre.mode, cur),
            KeyCode::Char('E') => post.status_message is None && same_but_cursor(pre, post)
                && post.cursor == end_of_word_target(lines, pre.mode, cur),
            KeyCode::Char('0') => post.status_message is None && same_but_cursor(pre, post)
                && post.cursor == (Cursor { line: cur.line, col: 0 }),
            KeyCode::Char('$') => post.status_message is None && same_but_cursor(pre, post)
                && post.cursor == (Cursor {
                line: cur.line,
                col: max_col_spec(lines, pre.mode, l) as usize,
            }),
            KeyCode::Char('^') => post.status_message is None && same_but_cursor(pre, post)
                && post.cursor == (Cursor {
                line: cur.line,
                col: ({
                    let c = scan_while(line_with_term(lines, l), 0, true);
                    let m = max_col_spec(lines, pre.mode, l);
                    if c <= m {
                        c as usize
                    } else {
                        m as usize
                    }
                }),
            }),
            KeyCode::Char('G') => post.status_message is None && same_but_cursor(pre, post)
                && post.cursor == clamped_cursor(
                lines,
                pre.mode,
                Cursor { line: (lines.len() - 1) as usize, col: cur.col },
            ),
            KeyCode::Char('{') => post.status_message is None && same_but_cursor(pre, post)
                && post.cursor == (Cursor { line: prev_blank_line(lines, l) as usize, col: 0 }),
            KeyCode::Char('}') => post.status_message is None && same_but_cursor(pre, post)
                && post.cursor == (Cursor {
                line: ({
                    let t = next_blank_line(lines, l + 1);
                    if t < lines.len() {
                        t as usize
                    } else {
                        (lines.len() - 1) as usize
                    }
                }),
                col: 0,
            }),
            KeyCode::Char('g') => post.status_message is None && same_but_cursor(pre, post)
                && post.cursor == (if pre.pending_normal is SecondG {
                clamped_cursor(lines, pre.mode, Cursor { line: 0, col: cur.col })
            } else {
                cur
            }),
            KeyCode::Char('i') => post.status_message is None && post.mode is Insert
                && post.cursor == cur && post.buffers@ == pre.buffers@ && post.current_buf
                == pre.current_buf && post.viewport_offset == pre.viewport_offset
                && post.command_buffer == pre.command_buffer && post.last_search_pattern
                == pre.last_search_pattern,
            KeyCode::Char('a') => post.status_message is None && post.mode is Insert
                && post.cursor == (Cursor {
                line: cur.line,
                col: if (cur.col as int) < lines[l].len() {
                    (cur.col + 1) as usize
                } else {
                    cur.col
                },
            }) && post.buffers@ == pre.buffers@ && post.current_buf == pre.current_buf
                && post.viewport_offset == pre.viewport_offset && post.command_buffer
                == pre.command_buffer && post.last_search_pattern == pre.last_search_pattern,
            KeyCode::Char('A') => post.status_message is None && post.mode is Insert
                && post.cursor == (Cursor { line: cur.line, col: lines[l].len() as usize })
                && post.buffers@ == pre.buffers@ && post.current_buf == pre.current_buf
                && post.viewport_offset == pre.viewport_offset && post.command_buffer
                == pre.command_buffer && post.last_search_pattern == pre.last_search_pattern,
            KeyCode::Char('I') => post.status_message is None && post.mode is Insert
                && post.cursor == (Cursor { line: cur.line, col: 0 }) && post.buffers@
                == pre.buffers@ && post.current_buf == pre.current_buf && post.viewport_offset
                == pre.viewport_offset && post.command_buffer == pre.command_buffer
                && post.last_search_pattern == pre.last_search_pattern,
            KeyCode::Char('o') => post.status_message is None && post.mode is Insert
                && post.cur_lines() == lines.insert(l + 1, Seq::<char>::empty()) && post.cursor
                == (Cursor { line: (cur.line + 1) as usize, col: 0 }) && post.buf().modified
                && post.current_buf == pre.current_buf && post.buffers@.len()
                == pre.buffers@.len() && post.viewport_offset == pre.viewport_offset
                && post.command_buffer == pre.command_buffer && post.last_search_pattern
                == pre.last_search_pattern && post.buf().file_path == pre.buf().file_path,
            KeyCode::Char('O') => post.status_message is None && post.mode is Insert
                && post.cur_lines() == lines.insert(l, Seq::<char>::empty()) && post.cursor
                == (Cursor { line: cur.line, col: 0 }) && post.buf().modified && post.current_buf
                == pre.current_buf && post.buffers@.len() == pre.buffers@.len()
                && post.viewport_offset == pre.viewport_offset && post.command_buffer
                == pre.command_buffer && post.last_search_pattern == pre.last_search_pattern
                && post.buf().file_path == pre.buf().file_path,
            KeyCode::Char('x') => post.status_message is None && delete_at_cursor_effect(pre, post),
            KeyCode::Char('D') => post.status_message is None && delete_to_eol_effect(pre, post),
            KeyCode::Char('J') => post.status_message is None && join_lines_effect(pre, post),
            KeyCode::Char('d') => (if pre.pending_normal is SecondD {
                post.status_message is None && delete_line_effect(pre, post)
            } else {
                post.status_message is None && post.cursor == cur && same_but_cursor(pre, post)
            }),
            KeyCode::Char('r') => post.status_message is None && post.cursor == cur
                && same_but_cursor(pre, post),
            KeyCode::Char(':') => post.status_message is None && post.mode is Command
                && post.command_buffer@ == Seq::<char>::empty() && post.cursor == cur
                && post.buffers@ == pre.buffers@ && post.current_buf == pre.current_buf
                && post.viewport_offset == pre.viewport_offset && post.last_search_pattern
                == pre.last_search_pattern,
            KeyCode::Char('/') => post.status_message is None && post.mode is Search
                && post.command_buffer@ == Seq::<char>::empty() && post.cursor == cur
                && post.buffers@ == pre.buffers@ && post.current_buf == pre.current_buf
                && post.viewport_offset == pre.viewport_offset && post.last_search_pattern
                == pre.last_search_pattern,
            KeyCode::Char('n') => repeat_search_effect(cleared, post, true),
            KeyCode::Char('N') => repeat_search_effect(cleared, post, false),
            _ => post.status_message is None && post.cursor == cur && same_but_cursor(pre, post),
        })
    }
}

/// Clear the command line and return to Normal mode.
fn return_to_normal_mode(editor: &mut Editor) -> (r: InputResult)
    requires
        old(editor).wf(),
    ensures
        final(editor).wf(),
        r is Continue,
        final(editor).command_buffer@ == Seq::<char>::empty(),
        final(editor).mode is Normal,
        final(editor).pending_normal is Idle,
        final(editor).cursor == clamped_cursor(
            old(editor).cur_lines(),
            Mode::Normal,
            old(editor).cursor,
        ),
        final(editor).buffers@ == old(editor).buffers@,
        final(editor).current_buf == old(editor).current_buf,
        final(editor).viewport_offset == old(editor).viewport_offset,
        final(editor).last_search_pattern == old(editor).last_search_pattern,
        final(editor).status_message == old(editor).status_message,
{
    editor.command_buffer = Vec::new();
    editor.enter_normal_mode();
    InputResult::Continue
}

/// Handle a key event in Normal mode: clear the status line, feed a pending
/// replace chord, then run the key's motion, edit, chord or mode change.
pub fn handle_normal_mode(editor: &mut Editor, key: KeyEvent) -> (r: InputResult)
    requires
        old(editor).wf(),
    ensures
        final(editor).wf(),
        r is Continue,
        normal_key_spec(*old(editor), *final(editor), key),
{
    editor.clear_status();
    match editor.pending_normal {
        PendingNormal::SecondG => {
            if key.code != KeyCode::Char('g') {
                editor.clear_pending_normal();
            }
        },
        PendingNormal::SecondD => {
            if key.code != KeyCode::Char('d') {
                editor.clear_pending_normal();
            }
        },
        PendingNormal::ReplaceChar => {
            if let KeyCode::Char(c) = key.code {
                if c != '\n' {
                    editor.replace_char_at_cursor(c);
                }
                editor.clear_pending_normal();
                return InputResult::Continue;
            }
            editor.clear_pending_normal();
        },
        PendingNormal::Idle => {},
    }
    match key.code {
        KeyCode::Char('h') | KeyCode::Left => editor.move_left(),
        KeyCode::Char('j') | KeyCode::Down => editor.move_down(),
        KeyCode::Char('k') | KeyCode::Up => editor.move_up(),
        KeyCode::Char('l') | KeyCode::Right => editor.move_right(),
        KeyCode::Char('w') | KeyCode::Char('W') => editor.move_word_forward(),
        KeyCode::Char('b') | KeyCode::Char('B') => editor.move_word_backward(),
        KeyCode::Char('e') | KeyCode::Char('E') => editor.move_to_end_of_word(),
        KeyCode::Char('0') => editor.move_to_line_start(),
        KeyCode::Char('$') => editor.move_to_line_end(),
        KeyCode::Char('^') => editor.move_to_first_non_blank(),
        KeyCode::Char('G') => editor.move_to_last_line(),
        KeyCode::Char('{') => editor.move_paragraph_prev(),
        KeyCode::Char('}') => editor.move_paragraph_next(),
        KeyCode::Char('g') => {
            if matches!(editor.pending_normal, PendingNormal::SecondG) {
                editor.move_to_first_line();
                editor.clear_pending_normal();
            } else {
                editor.pending_normal = PendingNormal::SecondG;
            }
        },
        KeyCode::Char('i') => editor.enter_insert_mode(),
        KeyCode::Char('a') => editor.enter_insert_mode_append(),
        KeyCode::Char('A') => editor.enter_insert_mode_end(),
        KeyCode::Char('I') => editor.enter_insert_mode_start(),
        KeyCode::Char('o') => editor.open_line_below(),
        KeyCode::Char('O') => editor.open_line_above(),
        KeyCode::Char('x') => editor.delete_char_at_cursor(),
        KeyCode::Char('D') => editor.delete_to_end_of_line(),
        KeyCode::Char('J') => editor.join_lines(),
        KeyCode::Char('d') => {
            if matches!(editor.pending_normal, PendingNormal::SecondD) {
                editor.delete_current_line();
                editor.clear_pending_normal();
            } else {
                editor.pending_normal = PendingNormal::SecondD;
            }
        },
        KeyCode::Char('r') => editor.pending_normal = PendingNormal::ReplaceChar,
        KeyCode::Char(':') => editor.enter_command_mode(),
        KeyCode::Char('/') => editor.enter_search_mode(),
        KeyCode::Char('n') => {
            editor.repeat_search_forward();
        },
        KeyCode::Char('N') => {
            editor.repeat_search_backward();
        },
        KeyCode::Char('c') => {
            if key.modifiers.ctrl {
                return return_to_normal_mode(editor);
            }
        },
        _ => {},
    }
    InputResult::Continue
}

/// What an Insert-mode key does: Escape returns to Normal mode with the
/// stricter clamp, Backspace deletes before the cursor, Enter splits the
/// line, arrows move, Tab inserts four spaces, and any other character key
/// is inserted at the cursor (Ctrl+C also returns to Normal mode).
pub open spec fn insert_key_spec(pre: Editor, post: Editor, k: KeyEvent) -> bool {
    let lines = pre.cur_lines();
    let cur = pre.cursor;
    let l = cur.line as int;
    let c = cur.col as int;
    match k.code {
        KeyCode::Esc => {
            &&& post.mode is Normal
            &&& post.pending_normal is Idle
            &&& post.cursor == clamped_cursor(lines, Mode::Normal, cur)
            &&& post.buffers@ == pre.buffers@
            &&& post.current_buf == pre.current_buf
            &&& post.viewport_offset == pre.viewport_offset
            &&& post.command_buffer == pre.command_buffer
            &&& post.status_message == pre.status_message
            &&& post.last_search_pattern == pre.last_search_pattern
        },
        KeyCode::Backspace => {
            &&& same_edit_frame(pre, post)
            &&& post.status_message == pre.status_message
            &&& post.pending_normal == pre.pending_normal
            &&& (cur.col > 0 ==> (post.cur_lines() == lines.update(l, lines[l].remove(c - 1))
                && post.cursor == (Cursor { line: cur.line, col: (cur.col - 1) as usize })
                && post.buf().modified))
            &&& (cur.col == 0 && cur.line > 0 ==> (post.cur_lines() == lines.subrange(0, l - 1)
                + seq![lines[l - 1] + lines[l]] + lines.subrange(l + 1, lines.len() as int)
                && post.cursor == (Cursor {
                line: (cur.line - 1) as usize,
                col: lines[l - 1].len() as usize,
            }) && post.buf().modified))
            &&& (cur.col == 0 && cur.line == 0 ==> (post.buffers@ == pre.buffers@ && post.cursor
                == cur))
        },
        KeyCode::Enter => {
            &&& same_edit_frame(pre, post)
            &&& post.status_message == pre.status_message
            &&& post.pending_normal == pre.pending_normal
            &&& post.cur_lines() == lines.subrange(0, l) + seq![
                lines[l].take(c),
                lines[l].skip(c),
            ] + lines.subrange(l + 1, lines.len() as int)
            &&& post.cursor == (Cursor { line: (cur.line + 1) as usize, col: 0 })
            &&& post.buf().modified
        },
        KeyCode::Left => post.cursor == (Cursor {
            line: cur.line,
            col: if cur.col > 0 {
                (cur.col - 1) as usize
            } else {
                0
            },
        }) && same_but_cursor(pre, post) && post.status_message == pre.status_message
            && post.pending_normal == pre.pending_normal,
        KeyCode::Right => post.cursor == (Cursor {
            line: cur.line,
            col: if c < max_col_spec(lines, pre.mode, l) {
                (cur.col + 1) as usize
            } else {
                cur.col
            },
        }) && same_but_cursor(pre, post) && post.status_message == pre.status_message
            && post.pending_normal == pre.pending_normal,
        KeyCode::Up => post.cursor == (if cur.line > 0 {
            clamped_cursor(lines, pre.mode, Cursor { line: (cur.line - 1) as usize, col: cur.col })
        } else {
            cur
        }) && same_but_cursor(pre, post) && post.status_message == pre.status_message
            && post.pending_normal == pre.pending_normal,
        KeyCode::Down => post.cursor == (if l + 1 < lines.len() {
            clamped_cursor(lines, pre.mode, Cursor { line: (cur.line + 1) as usize, col: cur.col })
        } else {
            cur
        }) && same_but_cursor(pre, post) && post.status_message == pre.status_message
            && post.pending_normal == pre.pending_normal,
        KeyCode::Tab => {
            &&& same_edit_frame(pre, post)
            &&& post.status_message == pre.status_message
            &&& post.pending_normal == pre.pending_normal
            &&& post.cur_lines() == lines.update(
                l,
                lines[l].take(c) + seq![' ', ' ', ' ', ' '] + lines[l].skip(c),
            )
            &&& post.cursor == (Cursor { line: cur.line, col: (cur.col + 4) as usize })
            &&& post.buf().modified
        },
        KeyCode::Char(ch) => (if ch == 'c' && k.modifiers.ctrl {
            &&& post.mode is Normal
            &&& post.pending_normal is Idle
            &&& post.command_buffer@ == Seq::<char>::empty()
            &&& post.cursor == clamped_cursor(lines, Mode::Normal, cur)
            &&& post.buffers@ == pre.buffers@
            &&& post.current_buf == pre.current_buf
            &&& post.viewport_offset == pre.viewport_offset
            &&& post.status_message == pre.status_message
            &&& post.last_search_pattern == pre.last_search_pattern
        } else if ch == '\n' {
            &&& same_edit_frame(pre, post)
            &&& post.status_message == pre.status_message
            &&& post.pending_normal == pre.pending_normal
            &&& post.cur_lines() == lines.subrange(0, l) + seq![
                lines[l].take(c),
                lines[l].skip(c),
            ] + lines.subrange(l + 1, lines.len() as int)
            &&& post.cursor == (Cursor { line: (cur.line + 1) as usize, col: 0 })
            &&& post.buf().modified
        } else {
            &&& same_edit_frame(pre, post)
            &&& post.status_message == pre.status_message
            &&& post.pending_normal == pre.pending_normal
            &&& post.cur_lines() == lines.update(l, lines[l].insert(c, ch))
            &&& post.cursor == (Cursor { line: cur.line, col: (cur.col + 1) as usize })
            &&& post.buf().modified
        }),
        _ => post == pre,
    }
}

/// Handle a key event in Insert mode.
pub fn handle_insert_mode(editor: &mut Editor, key: KeyEvent) -> (r: InputResult)
    requires
        old(editor).wf(),
    ensures
        final(editor).wf(),
        r is Continue,
        insert_key_spec(*old(editor), *final(editor), key),
{
    match key.code {
        KeyCode::Esc => editor.enter_normal_mode(),
        KeyCode::Backspace => editor.backspace(),
        KeyCode::Enter => editor.insert_newline(),
        KeyCode::Char(c) => {
            if c == 'c' && key.modifiers.ctrl {
                return return_to_normal_mode(editor);
            }
            if c == '\n' {
                editor.insert_newline();
            } else {
                editor.insert_char(c);
            }
        },
        KeyCode::Left => editor.move_left(),
        KeyCode::Right => editor.move_right(),
        KeyCode::Up => editor.move_up(),
        KeyCode::Down => editor.move_down(),
        KeyCode::Tab => {
            let ghost lines0 = editor.cur_lines();
            let ghost l = editor.cursor.line as int;
            let ghost c0 = editor.cursor.col as int;
            editor.insert_char(' ');
            let ghost lines1 = editor.cur_lines();
            editor.insert_char(' ');
            let ghost lines2 = editor.cur_lines();
            editor.insert_char(' ');
            let ghost lines3 = editor.cur_lines();
            editor.insert_char(' ');
            proof {
                let line0 = lines0[l];
                let one = line0.insert(c0, ' ');
                let two = one.insert(c0 + 1, ' ');
                let three = two.insert(c0 + 2, ' ');
                let four = three.insert(c0 + 3, ' ');
                assert(lines1 == lines0.update(l, one));
                assert(lines2 == lines1.update(l, two));
                assert(lines3 == lines2.update(l, three));
                assert(editor.cur_lines() == lines3.update(l, four));
                assert(four =~= line0.take(c0) + seq![' ', ' ', ' ', ' '] + line0.skip(c0));
                assert(editor.cur_lines() =~~= lines0.update(
                    l,
                    line0.take(c0) + seq![' ', ' ', ' ', ' '] + line0.skip(c0),
                ));
            }
        },
        _ => {},
    }
    InputResult::Continue
}

/// The command texts that toggle the file-explorer sidebar.
pub open spec fn is_toggle_cmd(t: Seq<char>) -> bool {
    t == "e."@ || t == "Explore"@ || t == "Lexplore"@
}

/// What a Search-mode (`/`) key does: Enter runs a forward search with
/// wraparound and returns to Normal mode whatever the outcome; Escape, or
/// Backspace on an empty pattern, cancels; Backspace otherwise shortens the
/// pattern and any character key extends it.
pub open spec fn search_key_spec(pre: Editor, post: Editor, k: KeyEvent) -> bool {
    let lines = pre.cur_lines();
    let pat = pre.command_buffer@;
    match k.code {
        KeyCode::Esc => cancel_to_normal(pre, post),
        KeyCode::Enter => {
            &&& post.mode is Normal
            &&& post.pending_normal is Idle
            &&& post.command_buffer@ == Seq::<char>::empty()
            &&& post.buffers@ == pre.buffers@
            &&& post.current_buf == pre.current_buf
            &&& post.viewport_offset == pre.viewport_offset
            &&& (pat.len() == 0 ==> (post.status_message == Some(StatusMessage::NoPattern)
                && post.cursor == clamped_cursor(lines, Mode::Normal, pre.cursor)
                && post.last_search_pattern == pre.last_search_pattern))
            &&& (pat.len() > 0 && !has_match(lines, pat) ==> (post.status_message == Some(
                StatusMessage::PatternNotFound,
            ) && post.cursor == clamped_cursor(lines, Mode::Normal, pre.cursor)
                && post.last_search_pattern == pre.last_search_pattern))
            &&& (pat.len() > 0 && has_match(lines, pat) ==> (wrapped_next(
                lines,
                pat,
                pre.cursor.line as int,
                pre.cursor.col as int,
                post.cursor.line as int,
                post.cursor.col as int,
            ) && (post.last_search_pattern matches Some(p) && p@ == pat) && post.status_message
                == pre.status_message))
        },
        KeyCode::Backspace => (if pre.command_buffer@.len() == 0 {
            cancel_to_normal(pre, post)
        } else {
            &&& post.command_buffer@ == pre.command_buffer@.drop_last()
            &&& post.cursor == pre.cursor
            &&& post.mode == pre.mode
            &&& post.buffers@ == pre.buffers@
            &&& post.current_buf == pre.current_buf
            &&& post.viewport_offset == pre.viewport_offset
            &&& post.status_message == pre.status_message
            &&& post.pending_normal == pre.pending_normal
            &&& post.last_search_pattern == pre.last_search_pattern
        }),
        KeyCode::Char(c) => {
            &&& post.command_buffer@ == pre.command_buffer@.push(c)
            &&& post.cursor == pre.cursor
            &&& post.mode == pre.mode
            &&& post.buffers@ == pre.buffers@
            &&& post.current_buf == pre.current_buf
            &&& post.viewport_offset == pre.viewport_offset
            &&& post.status_message == pre.status_message
            &&& post.pending_normal == pre.pending_normal
            &&& post.last_search_pattern == pre.last_search_pattern
        },
        _ => post == pre,
    }
}

/// The state after cancelling a command or search line: the line is cleared
/// and the editor is back in Normal mode with the stricter clamp applied.
pub open spec fn cancel_to_normal(pre: Editor, post: Editor) -> bool {
    &&& post.mode is Normal
    &&& post.pending_normal is Idle
    &&& post.command_buffer@ == Seq::<char>::empty()
    &&& post.cursor == clamped_cursor(pre.cur_lines(), Mode::Normal, pre.cursor)
    &&& post.buffers@ == pre.buffers@
    &&& post.current_buf == pre.current_buf
    &&& post.viewport_offset == pre.viewport_offset
    &&& post.status_message == pre.status_message
    &&& post.last_search_pattern == pre.last_search_pattern
}

/// Handle a key event in Search mode.
pub fn handle_search_mode(editor: &mut Editor, key: KeyEvent) -> (r: InputResult)
    requires
        old(editor).wf(),
    ensures
        final(editor).wf(),
        r is Continue,
        search_key_spec(*old(editor), *final(editor), key),
{
    match key.code {
        KeyCode::Esc => {
            return return_to_normal_mode(editor);
        },
        KeyCode::Enter => {
            let found = editor.search_forward();
            proof {
                if found {
                    let pre = *old(editor);
                    let pat = pre.command_buffer@;
                    assert(crate::buffer::is_match_at(
                        pre.cur_lines(),
                        pat,
                        editor.cursor.line as int,
                        editor.cursor.col as int,
                    ));
                }
            }
            editor.command_buffer = Vec::new();
            editor.enter_normal_mode();
        },
        KeyCode::Backspace => {
            if editor.command_buffer.len() == 0 {
                return return_to_normal_mode(editor);
            }
            editor.command_buffer.pop();
        },
        KeyCode::Char(c) => {
            editor.command_buffer.push(c);
        },
        _ => {},
    }
    InputResult::Continue
}

/// What a Command-mode (`:`) key does: Enter executes the command line
/// (sidebar-toggle commands are recognized first), Escape, or Backspace on
/// an empty line, cancels, Backspace otherwise shortens the line and any
/// character key extends it. Quit is refused with a status message while
/// the buffer is modified, unless forced.
pub open spec fn command_key_spec(pre: Editor, post: Editor, k: KeyEvent, r: KeyOutcome) -> bool {
    let t = crate::strings::trim_spec(pre.command_buffer@);
    match k.code {
        KeyCode::Esc => cancel_to_normal(pre, post) && r is Continue,
        KeyCode::Enter => {
            &&& post.mode is Normal
            &&& post.command_buffer@ == Seq::<char>::empty()
            &&& post.buffers@.len() == pre.buffers@.len()
            &&& post.last_search_pattern == pre.last_search_pattern
            &&& (!crate::editor::is_next_buf_cmd(t) && !crate::editor::is_prev_buf_cmd(t) ==> (
            post.current_buf == pre.current_buf && post.viewport_offset == pre.viewport_offset))
            &&& (is_toggle_cmd(t) ==> (r is ToggleSidebar && post.buffers@ == pre.buffers@
                && post.cursor == pre.cursor && post.status_message == pre.status_message
                && post.pending_normal == pre.pending_normal))
            &&& (!is_toggle_cmd(t) ==> post.pending_normal == pre.pending_normal)
            &&& (!is_toggle_cmd(t) && crate::editor::is_quit_cmd(t) ==> (post.buffers@
                == pre.buffers@ && post.cursor == pre.cursor && (if pre.buf().modified {
                r is Continue && post.status_message == Some(StatusMessage::NoWriteSinceLastChange)
            } else {
                r is Exit && post.status_message == pre.status_message
            })))
            &&& (!is_toggle_cmd(t) && crate::editor::is_force_quit_cmd(t) ==> (r is Exit
                && post.buffers@ == pre.buffers@ && post.cursor == pre.cursor
                && post.status_message == pre.status_message))
            &&& (!is_toggle_cmd(t) && crate::editor::is_next_buf_cmd(t) ==> (r is Continue
                && post.buffers@ == pre.buffers@ && post.status_message == pre.status_message))
            &&& (!is_toggle_cmd(t) && crate::editor::is_prev_buf_cmd(t) ==> (r is Continue
                && post.buffers@ == pre.buffers@ && post.status_message == pre.status_message))
            &&& (!is_toggle_cmd(t) && (crate::editor::is_write_cmd(t)
                || crate::editor::is_write_quit_cmd(t)) && pre.buf().file_path is Some ==> (r == (
            KeyOutcome::Save { and_quit: crate::editor::is_write_quit_cmd(t) }) && post.buffers@
                == pre.buffers@ && post.cursor == pre.cursor && post.status_message
                == pre.status_message))
            &&& (!is_toggle_cmd(t) && (crate::editor::is_write_cmd(t)
                || crate::editor::is_write_quit_cmd(t)) && pre.buf().file_path is None ==> (
            r is Continue && post.buffers@ == pre.buffers@ && post.status_message == Some(
                StatusMessage::SaveFailedNoPath,
            )))
            &&& (!is_toggle_cmd(t) && !crate::editor::is_write_cmd(t)
                && !crate::editor::is_write_quit_cmd(t) && crate::editor::write_as_arg(t) is Some
                ==> (r == (KeyOutcome::Save { and_quit: false }) && (post.buf().file_path
                matches Some(p) && p@ == crate::editor::write_as_arg(t)->Some_0)
                && post.buf().text_spec() == pre.buf().text_spec() && post.buf().modified
                == pre.buf().modified && post.buffers@ == pre.buffers@.update(
                pre.current_buf as int,
                post.buf(),
            ) && post.cursor == pre.cursor && post.status_message == pre.status_message))
            &&& (!is_toggle_cmd(t) && !crate::editor::is_known_cmd(t) ==> (r is Continue
                && post.buffers@ == pre.buffers@ && post.cursor == pre.cursor && (
            post.status_message matches Some(m) && m matches StatusMessage::UnknownCommand(c)
                && c@ == t)))
        },
        KeyCode::Backspace => (if pre.command_buffer@.len() == 0 {
            &&& r is Continue
            &&& post == (Editor { mode: Mode::Normal, ..pre })
        } else {
            &&& r is Continue
            &&& post.command_buffer@ == pre.command_buffer@.drop_last()
            &&& post.cursor == pre.cursor
            &&& post.mode == pre.mode
            &&& post.buffers@ == pre.buffers@
            &&& post.current_buf == pre.current_buf
            &&& post.viewport_offset == pre.viewport_offset
            &&& post.status_message == pre.status_message
            &&& post.pending_normal == pre.pending_normal
            &&& post.last_search_pattern == pre.last_search_pattern
        }),
        KeyCode::Char(c) => {
            &&& r is Continue
            &&& post.command_buffer@ == pre.command_buffer@.push(c)
            &&& post.cursor == pre.cursor
            &&& post.mode == pre.mode
            &&& post.buffers@ == pre.buffers@
            &&& post.current_buf == pre.current_buf
            &&& post.viewport_offset == pre.viewport_offset
            &&& post.status_message == pre.status_message
            &&& post.pending_normal == pre.pending_normal
            &&& post.last_search_pattern == pre.last_search_pattern
        },
        _ => post == pre && r is Continue,
    }
}

/// Handle a key event in Command mode.
pub fn handle_command_mode(editor: &mut Editor, key: KeyEvent) -> (r: KeyOutcome)
    requires
        old(editor).wf(),
    ensures
        final(editor).wf(),
        command_key_spec(*old(editor), *final(editor), key, r),
{
    match key.code {
        KeyCode::Esc => {
            return_to_normal_mode(editor);
            KeyOutcome::Continue
        },
        KeyCode::Enter => {
            let cmd = crate::strings::trim_chars(&editor.command_buffer);
            let n = cmd.len();
            let is_toggle = crate::strings::range_eq_str(&cmd, 0, n, "e.")
                || crate::strings::range_eq_str(&cmd, 0, n, "Explore")
                || crate::strings::range_eq_str(&cmd, 0, n, "Lexplore");
            proof {
                assert(cmd@.subrange(0, cmd@.len() as int) =~= cmd@);
            }
            if is_toggle {
                editor.command_buffer = Vec::new();
                editor.mode = Mode::Normal;
                return KeyOutcome::ToggleSidebar;
            }
            let outcome = editor.execute_command();
            match outcome {
                CommandOutcome::Nothing => KeyOutcome::Continue,
                CommandOutcome::Control(EditorCommand::Quit) => {
                    if editor.current_buffer().modified {
                        editor.set_status(StatusMessage::NoWriteSinceLastChange);
                        KeyOutcome::Continue
                    } else {
                        KeyOutcome::Exit
                    }
                },
                CommandOutcome::Control(EditorCommand::ForceQuit) => KeyOutcome::Exit,
                CommandOutcome::Save { and_quit } => KeyOutcome::Save { and_quit },
            }
        },
        KeyCode::Backspace => {
            if editor.command_buffer.len() == 0 {
                editor.mode = Mode::Normal;
            } else {
                editor.command_buffer.pop();
            }
            KeyOutcome::Continue
        },
        KeyCode::Char(c) => {
            editor.command_buffer.push(c);
            KeyOutcome::Continue
        },
        _ => KeyOutcome::Continue,
    }
}

/// Handle a key for the editor pane, dispatching on the current mode.
pub fn handle_editor(editor: &mut Editor, key: KeyEvent) -> (r: KeyOutcome)
    requires
        old(editor).wf(),
    ensures
        final(editor).wf(),
        old(editor).mode is Normal ==> (r is Continue && normal_key_spec(
            *old(editor),
            *final(editor),
            key,
        )),
        old(editor).mode is Insert ==> (r is Continue && insert_key_spec(
            *old(editor),
            *final(editor),
            key,
        )),
        old(editor).mode is Search ==> (r is Continue && search_key_spec(
            *old(editor),
            *final(editor),
            key,
        )),
        old(editor).mode is Command ==> command_key_spec(*old(editor), *final(editor), key, r),
{
    match editor.mode {
        Mode::Normal => {
            handle_normal_mode(editor, key);
            KeyOutcome::Continue
        },
        Mode::Insert => {
            handle_insert_mode(editor, key);
            KeyOutcome::Continue
        },
        Mode::Command => handle_command_mode(editor, key),
        Mode::Search => {
            handle_search_mode(editor, key);
            KeyOutcome::Continue
        },
    }
}

/// Apply the result of a save the front end performed for a
/// `KeyOutcome::Save`: the editor records it, and the front end should exit
/// exactly when the save succeeded and a quit was requested with it.
pub fn apply_save_result(editor: &mut Editor, result: Result<(), String>, and_quit: bool) -> (r:
    InputResult)
    requires
        old(editor).wf(),
    ensures
        final(editor).wf(),
        r is Exit <==> (result is Ok && and_quit),
        result is Ok ==> !final(editor).buf().modified,
        result matches Err(e) ==> (final(editor).buffers@ == old(editor).buffers@ && final(editor).status_message == Some(StatusMessage::SaveFailedIo(e))),
{
    let ok = result.is_ok();
    editor.finish_save(result);
    if ok && and_quit {
        InputResult::Exit
    } else {
        InputResult::Continue
    }
}

/// Where a key should be routed before the editor sees it.
#[derive(Debug, Clone, Copy, PartialEq, Eq, Structural)]
pub enum RouteDecision {
    /// Toggle the sidebar (or open the current directory in it).
    ToggleSidebar,
    /// Toggle keyboard focus between the explorer and the editor, if an
    /// explorer is open; the key is consumed either way.
    ToggleExplorerFocus,
    /// The key armed a two-key application chord and is consumed.
    Swallow,
    /// Give the key to the file explorer.
    Explorer,
    /// Give the key to the editor.
    Editor,
}

/// A routing decision together with the new application chord flags.
#[derive(Debug, Clone, Copy, PartialEq, Eq, Structural)]
pub struct RouteResult {
    pub decision: RouteDecision,
    /// Space was pressed in Normal mode; an `e` next toggles the sidebar.
    pub pending_space_e: bool,
    /// Ctrl+w was pressed; a `w` next toggles explorer focus.
    pub pending_ctrl_w: bool,
}

/// Routing of one key at the application level: the Space-then-e and
/// Ctrl+w-then-w chords are tried first, in that order; otherwise the key
/// goes to the explorer when it has focus, else to the editor, with a plain
/// Space in Normal mode arming the sidebar chord.
pub open spec fn route_key_spec(
    pending_space_e: bool,
    pending_ctrl_w: bool,
    mode: Mode,
    focus_on_explorer: bool,
    k: KeyEvent,
) -> RouteResult {
    if pending_space_e && (k.code == KeyCode::Char('e') || k.code == KeyCode::Char('E'))
        && !k.modifiers.has_non_shift_spec() && mode is Normal {
        RouteResult {
            decision: RouteDecision::ToggleSidebar,
            pending_space_e: false,
            pending_ctrl_w,
        }
    } else if k.code == KeyCode::Char('w') && k.modifiers.ctrl {
        RouteResult { decision: RouteDecision::Swallow, pending_space_e: false, pending_ctrl_w: true }
    } else if pending_ctrl_w && k.code == KeyCode::Char('w')
        && !k.modifiers.has_non_shift_spec() {
        RouteResult {
            decision: RouteDecision::ToggleExplorerFocus,
            pending_space_e: false,
            pending_ctrl_w: false,
        }
    } else if focus_on_explorer {
        RouteResult {
            decision: RouteDecision::Explorer,
            pending_space_e: false,
            pending_ctrl_w: false,
        }
    } else if mode is Normal && k.code == KeyCode::Char(' ') {
        RouteResult {
            decision: RouteDecision::Swallow,
            pending_space_e: true,
            pending_ctrl_w: false,
        }
    } else {
        RouteResult { decision: RouteDecision::Editor, pending_space_e: false, pending_ctrl_w: false }
    }
}

/// Route one key at the application level; see [`route_key_spec`].
pub fn route_key(
    pending_space_e: bool,
    pending_ctrl_w: bool,
    mode: Mode,
    focus_on_explorer: bool,
    k: KeyEvent,
) -> (r: RouteResult)
    ensures
        r == route_key_spec(pending_space_e, pending_ctrl_w, mode, focus_on_explorer, k),
{
    if pending_space_e && (k.code == KeyCode::Char('e') || k.code == KeyCode::Char('E'))
        && !k.modifiers.has_non_shift() && matches!(mode, Mode::Normal) {
        return RouteResult {
            decision: RouteDecision::ToggleSidebar,
            pending_space_e: false,
            pending_ctrl_w,
        };
    }
    if k.code == KeyCode::Char('w') && k.modifiers.ctrl {
        return RouteResult {
            decision: RouteDecision::Swallow,
            pending_space_e: false,
            pending_ctrl_w: true,
        };
    }
    if pending_ctrl_w && k.code == KeyCode::Char('w') && !k.modifiers.has_non_shift() {
        return RouteResult {
            decision: RouteDecision::ToggleExplorerFocus,
            pending_space_e: false,
            pending_ctrl_w: false,
        };
    }
    if focus_on_explorer {
        return RouteResult {
            decision: RouteDecision::Explorer,
            pending_space_e: false,
            pending_ctrl_w: false,
        };
    }
    if matches!(mode, Mode::Normal) && k.code == KeyCode::Char(' ') {
        return RouteResult {
            decision: RouteDecision::Swallow,
            pending_space_e: true,
            pending_ctrl_w: false,
        };
    }
    RouteResult { decision: RouteDecision::Editor, pending_space_e: false, pending_ctrl_w: false }
}

} // verus!
