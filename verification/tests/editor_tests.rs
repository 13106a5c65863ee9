//! Tests of the cursor and motion engine, mode transitions and the `:`
//! command interpreter.

use vibevim::editor::{CommandOutcome, Cursor, Editor, EditorCommand, PendingNormal, StatusMessage};
use vibevim::mode::Mode;

fn ed(content: &str) -> Editor {
    Editor::with_content(content, None)
}

fn set_command(e: &mut Editor, text: &str) {
    e.command_buffer = text.chars().collect();
}

#[test]
fn new_editor_starts_in_normal_mode_at_origin() {
    let e = Editor::new();
    assert_eq!(e.mode, Mode::Normal);
    assert_eq!(e.cursor, Cursor { line: 0, col: 0 });
    assert_eq!(e.pending_normal, PendingNormal::Idle);
    assert_eq!(e.viewport_offset, 0);
    assert!(e.status_message.is_none());
    assert!(e.last_search_pattern.is_none());
}

#[test]
fn move_left_stops_at_column_zero() {
    let mut e = ed("abc");
    e.move_left();
    assert_eq!(e.cursor, Cursor { line: 0, col: 0 });
    e.cursor.col = 2;
    e.move_left();
    assert_eq!(e.cursor.col, 1);
}

#[test]
fn move_right_stops_at_last_column_in_normal_mode() {
    let mut e = ed("ab");
    e.move_right();
    assert_eq!(e.cursor.col, 1);
    e.move_right();
    assert_eq!(e.cursor.col, 1);
}

#[test]
fn move_right_allows_line_end_in_insert_mode() {
    let mut e = ed("ab");
    e.enter_insert_mode();
    e.move_right();
    e.move_right();
    assert_eq!(e.cursor.col, 2);
    e.move_right();
    assert_eq!(e.cursor.col, 2);
}

#[test]
fn vertical_motion_reclamps_column() {
    let mut e = ed("abcdef\nxy\nabcdef");
    e.cursor.col = 5;
    e.move_down();
    assert_eq!(e.cursor, Cursor { line: 1, col: 1 });
    e.move_down();
    assert_eq!(e.cursor, Cursor { line: 2, col: 1 });
    e.move_up();
    e.move_up();
    assert_eq!(e.cursor, Cursor { line: 0, col: 1 });
    e.move_up();
    assert_eq!(e.cursor, Cursor { line: 0, col: 1 });
}

#[test]
fn word_motions() {
    let mut e = ed("one two  three");
    e.move_word_forward();
    assert_eq!(e.cursor.col, 4);
    e.move_word_forward();
    assert_eq!(e.cursor.col, 9);
    e.move_word_backward();
    assert_eq!(e.cursor.col, 4);
    e.move_word_backward();
    assert_eq!(e.cursor.col, 0);
}

#[test]
fn word_forward_crosses_to_next_line() {
    let mut e = ed("one\ntwo");
    e.move_word_forward();
    assert_eq!(e.cursor, Cursor { line: 1, col: 0 });
}

#[test]
fn end_of_word_lands_on_last_character() {
    let mut e = ed("one two");
    e.move_to_end_of_word();
    assert_eq!(e.cursor.col, 2);
    e.move_to_end_of_word();
    assert_eq!(e.cursor.col, 2);
}

#[test]
fn first_non_blank_and_line_ends() {
    let mut e = ed("   abc ");
    e.move_to_first_non_blank();
    assert_eq!(e.cursor.col, 3);
    e.move_to_line_end();
    assert_eq!(e.cursor.col, 6);
    e.move_to_line_start();
    assert_eq!(e.cursor.col, 0);
}

#[test]
fn first_and_last_line_jumps() {
    let mut e = ed("a\nb\nc");
    e.move_to_last_line();
    assert_eq!(e.cursor.line, 2);
    e.move_to_first_line();
    assert_eq!(e.cursor.line, 0);
}

#[test]
fn paragraph_motions_stop_at_blank_lines() {
    let mut e = ed("aa\nbb\n\ncc\ndd");
    e.move_paragraph_next();
    assert_eq!(e.cursor, Cursor { line: 2, col: 0 });
    e.move_paragraph_next();
    assert_eq!(e.cursor, Cursor { line: 4, col: 0 });
    e.move_paragraph_prev();
    assert_eq!(e.cursor.line, 2);
}

#[test]
fn insert_mode_entries() {
    let mut e = ed("abc");
    e.cursor.col = 1;
    e.enter_insert_mode_append();
    assert_eq!((e.mode, e.cursor.col), (Mode::Insert, 2));
    e.enter_normal_mode();
    e.enter_insert_mode_end();
    assert_eq!(e.cursor.col, 3);
    e.enter_insert_mode_start();
    assert_eq!(e.cursor.col, 0);
}

#[test]
fn open_lines_enter_insert_mode() {
    let mut e = ed("ab\ncd");
    e.open_line_below();
    assert_eq!((e.mode, e.cursor.line, e.cursor.col), (Mode::Insert, 1, 0));
    assert_eq!(e.current_buffer().content(), "ab\n\ncd");
    let mut e2 = ed("ab");
    e2.open_line_above();
    assert_eq!(e2.current_buffer().content(), "\nab");
    assert_eq!(e2.cursor, Cursor { line: 0, col: 0 });
}

#[test]
fn enter_normal_mode_reclamps_and_is_idempotent() {
    let mut e = ed("ab");
    e.enter_insert_mode_end();
    assert_eq!(e.cursor.col, 2);
    e.enter_normal_mode();
    assert_eq!((e.mode, e.cursor.col), (Mode::Normal, 1));
    let before = (e.mode, e.cursor, e.pending_normal);
    e.enter_normal_mode();
    assert_eq!((e.mode, e.cursor, e.pending_normal), before);
}

#[test]
fn typing_inserts_and_moves_cursor() {
    let mut e = ed("");
    e.enter_insert_mode();
    e.insert_char('h');
    e.insert_char('i');
    assert_eq!(e.current_buffer().content(), "hi");
    assert_eq!(e.cursor.col, 2);
    e.insert_newline();
    assert_eq!(e.cursor, Cursor { line: 1, col: 0 });
    assert_eq!(e.current_buffer().content(), "hi\n");
}

#[test]
fn backspace_joins_lines_at_column_zero() {
    let mut e = ed("ab\ncd");
    e.cursor = Cursor { line: 1, col: 0 };
    e.backspace();
    assert_eq!(e.current_buffer().content(), "abcd");
    assert_eq!(e.cursor, Cursor { line: 0, col: 2 });
    let mut e2 = ed("ab");
    e2.backspace();
    assert_eq!(e2.current_buffer().content(), "ab");
    assert_eq!(e2.cursor, Cursor { line: 0, col: 0 });
}

#[test]
fn delete_char_at_cursor_reclamps() {
    let mut e = ed("ab");
    e.cursor.col = 1;
    e.delete_char_at_cursor();
    assert_eq!(e.current_buffer().content(), "a");
    assert_eq!(e.cursor.col, 0);
}

#[test]
fn replace_char_at_cursor_in_place() {
    let mut e = ed("abc");
    e.cursor.col = 1;
    e.replace_char_at_cursor('X');
    assert_eq!(e.current_buffer().content(), "aXc");
    assert_eq!(e.cursor.col, 1);
}

#[test]
fn replace_past_line_end_is_noop() {
    let mut e = ed("");
    e.replace_char_at_cursor('X');
    assert_eq!(e.current_buffer().content(), "");
}

#[test]
fn delete_to_end_of_line_truncates() {
    let mut e = ed("abcdef\nxy");
    e.cursor.col = 2;
    e.delete_to_end_of_line();
    assert_eq!(e.current_buffer().content(), "ab\nxy");
    assert_eq!(e.cursor.col, 1);
}

#[test]
fn join_lines_replaces_terminator_with_space() {
    let mut e = ed("ab\ncd");
    e.join_lines();
    assert_eq!(e.current_buffer().content(), "ab cd");
    assert_eq!(e.cursor, Cursor { line: 0, col: 2 });
    let mut last = ed("ab");
    last.join_lines();
    assert_eq!(last.current_buffer().content(), "ab");
}

#[test]
fn delete_current_line_removes_line() {
    let mut e = ed("abc\ndef");
    e.delete_current_line();
    assert_eq!(e.current_buffer().content(), "def");
    assert_eq!(e.cursor, Cursor { line: 0, col: 0 });
}

#[test]
fn delete_last_line_moves_cursor_up() {
    let mut e = ed("abc\ndef");
    e.cursor.line = 1;
    e.delete_current_line();
    assert_eq!(e.current_buffer().content(), "abc\n");
    assert_eq!(e.cursor, Cursor { line: 0, col: 0 });
}

#[test]
fn search_forward_moves_and_records_pattern() {
    let mut e = ed("foo\nbar\nfoo\n");
    set_command(&mut e, "foo");
    assert!(e.search_forward());
    assert_eq!(e.cursor, Cursor { line: 2, col: 0 });
    assert_eq!(e.last_search_pattern.as_deref(), Some("foo"));
}

#[test]
fn search_with_empty_pattern_sets_status() {
    let mut e = ed("foo");
    assert!(!e.search_forward());
    assert_eq!(e.status_message, Some(StatusMessage::NoPattern));
}

#[test]
fn search_miss_sets_pattern_not_found() {
    let mut e = ed("foo");
    set_command(&mut e, "zzz");
    assert!(!e.search_forward());
    assert_eq!(e.status_message, Some(StatusMessage::PatternNotFound));
    assert_eq!(e.cursor, Cursor { line: 0, col: 0 });
}

#[test]
fn repeat_search_without_previous_reports_it() {
    let mut e = ed("foo");
    assert!(!e.repeat_search_forward());
    assert_eq!(e.status_message, Some(StatusMessage::NoPreviousSearch));
    assert!(!e.repeat_search_backward());
}

#[test]
fn repeat_search_wraps() {
    let mut e = ed("foo\nbar\nfoo\n");
    set_command(&mut e, "foo");
    assert!(e.search_forward());
    assert_eq!(e.cursor, Cursor { line: 2, col: 0 });
    assert!(e.repeat_search_forward());
    assert_eq!(e.cursor, Cursor { line: 0, col: 0 });
    assert!(e.repeat_search_backward());
    assert_eq!(e.cursor, Cursor { line: 2, col: 0 });
}

#[test]
fn execute_quit_commands() {
    let mut e = ed("x");
    set_command(&mut e, "q");
    assert_eq!(e.execute_command(), CommandOutcome::Control(EditorCommand::Quit));
    assert_eq!(e.mode, Mode::Normal);
    assert!(e.command_buffer.is_empty());
    set_command(&mut e, " quit ");
    assert_eq!(e.execute_command(), CommandOutcome::Control(EditorCommand::Quit));
    set_command(&mut e, "q!");
    assert_eq!(e.execute_command(), CommandOutcome::Control(EditorCommand::ForceQuit));
    set_command(&mut e, "quit!");
    assert_eq!(e.execute_command(), CommandOutcome::Control(EditorCommand::ForceQuit));
}

#[test]
fn execute_write_without_path_reports_error() {
    let mut e = ed("x");
    set_command(&mut e, "w");
    assert_eq!(e.execute_command(), CommandOutcome::Nothing);
    assert_eq!(e.status_message, Some(StatusMessage::SaveFailedNoPath));
}

#[test]
fn execute_write_with_path_requests_save() {
    let mut e = Editor::with_content("x", Some(String::from("/tmp/f.txt")));
    set_command(&mut e, "w");
    assert_eq!(e.execute_command(), CommandOutcome::Save { and_quit: false });
    set_command(&mut e, "wq");
    assert_eq!(e.execute_command(), CommandOutcome::Save { and_quit: true });
}

#[test]
fn execute_write_as_sets_path() {
    let mut e = ed("x");
    set_command(&mut e, "w  /tmp/out.txt ");
    assert_eq!(e.execute_command(), CommandOutcome::Save { and_quit: false });
    assert_eq!(
        e.current_buffer().file_path.as_deref(),
        Some("/tmp/out.txt")
    );
    set_command(&mut e, "write other.txt");
    assert_eq!(e.execute_command(), CommandOutcome::Save { and_quit: false });
    assert_eq!(e.current_buffer().file_path.as_deref(), Some("other.txt"));
}

#[test]
fn execute_unknown_command_sets_status() {
    let mut e = ed("x");
    set_command(&mut e, "frobnicate");
    assert_eq!(e.execute_command(), CommandOutcome::Nothing);
    assert_eq!(
        e.status_message,
        Some(StatusMessage::UnknownCommand(String::from("frobnicate")))
    );
}

#[test]
fn buffer_switching_commands_wrap_around() {
    let mut e = ed("first");
    e.open_content_into_new_buffer("second", None);
    assert_eq!(e.current_buf, 1);
    set_command(&mut e, "bn");
    assert_eq!(e.execute_command(), CommandOutcome::Nothing);
    assert_eq!(e.current_buf, 0);
    set_command(&mut e, "bp");
    e.execute_command();
    assert_eq!(e.current_buf, 1);
    e.next_buf();
    assert_eq!(e.current_buf, 0);
    e.prev_buf();
    assert_eq!(e.current_buf, 1);
}

#[test]
fn finish_save_clears_modified_and_reports() {
    let mut e = Editor::with_content("x", Some(String::from("/tmp/dir/f.txt")));
    e.insert_char('y');
    assert!(e.current_buffer().modified);
    e.finish_save(Ok(()));
    assert!(!e.current_buffer().modified);
    assert_eq!(
        e.status_message,
        Some(StatusMessage::FileWritten(String::from("f.txt")))
    );
    e.finish_save(Err(String::from("disk full")));
    assert_eq!(
        e.status_message,
        Some(StatusMessage::SaveFailedIo(String::from("disk full")))
    );
}

#[test]
fn status_message_texts() {
    assert_eq!(
        StatusMessage::FileWritten(String::from("f.txt")).text(),
        "\"f.txt\" written"
    );
    assert_eq!(StatusMessage::PatternNotFound.text(), "Pattern not found");
    assert_eq!(
        StatusMessage::NoWriteSinceLastChange.text(),
        "No write since last change (add ! to override)"
    );
    assert_eq!(
        StatusMessage::UnknownCommand(String::from("zz")).text(),
        "Unknown command: zz"
    );
}

#[test]
fn viewport_follows_cursor() {
    let mut e = ed("a\nb\nc\nd\ne\nf");
    e.cursor.line = 5;
    e.adjust_viewport_with_height(3);
    assert_eq!(e.viewport_offset, 3);
    e.cursor.line = 1;
    e.adjust_viewport_with_height(3);
    assert_eq!(e.viewport_offset, 1);
    e.adjust_viewport_with_height(3);
    assert_eq!(e.viewport_offset, 1);
}

#[test]
fn word_backward_from_column_zero_goes_to_previous_line_end() {
    let mut e = ed("abc\ndef");
    e.cursor = Cursor { line: 1, col: 0 };
    e.move_word_backward();
    assert_eq!(e.cursor, Cursor { line: 0, col: 2 });
    let mut origin = ed("abc");
    origin.move_word_backward();
    assert_eq!(origin.cursor, Cursor { line: 0, col: 0 });
}

#[test]
fn end_of_word_spills_to_next_line() {
    // Past the last word of the line only whitespace remains, so the motion
    // continues with the next line's first word.
    let mut e = ed("ab \n  cdef");
    e.cursor.col = 2;
    e.move_to_end_of_word();
    assert_eq!(e.cursor, Cursor { line: 1, col: 5 });
}

#[test]
fn first_non_blank_on_blank_line_clamps_to_end() {
    let mut e = ed("   ");
    e.move_to_first_non_blank();
    assert_eq!(e.cursor.col, 2);
}

#[test]
fn paragraph_prev_stays_on_blank_line() {
    let mut e = ed("aa\n\nbb");
    e.cursor.line = 1;
    e.move_paragraph_prev();
    assert_eq!(e.cursor.line, 1);
}

#[test]
fn open_content_into_new_buffer_switches() {
    let mut e = ed("one");
    e.cursor.col = 2;
    e.open_content_into_new_buffer("two\nlines", Some(String::from("p")));
    assert_eq!(e.buffers.len(), 2);
    assert_eq!(e.current_buf, 1);
    assert_eq!(e.cursor, Cursor { line: 0, col: 0 });
    assert_eq!(e.current_buffer().content(), "two\nlines");
}

#[test]
fn delete_only_line_leaves_empty_buffer() {
    let mut e = ed("abc");
    e.delete_current_line();
    assert_eq!(e.current_buffer().content(), "");
    assert_eq!(e.cursor, Cursor { line: 0, col: 0 });
    assert_eq!(e.current_buffer().line_count(), 1);
}

#[test]
fn entering_command_or_search_mode_disarms_pending_chord() {
    let mut e = ed("abc");
    e.pending_normal = PendingNormal::SecondG;
    e.enter_command_mode();
    assert_eq!(e.pending_normal, PendingNormal::Idle);
    assert_eq!(e.mode, Mode::Command);
    e.enter_normal_mode();
    e.pending_normal = PendingNormal::SecondD;
    e.enter_search_mode();
    assert_eq!(e.pending_normal, PendingNormal::Idle);
    assert_eq!(e.mode, Mode::Search);
}
