//! Tests of the key dispatcher: mode handlers, chords, and scenario runs.

use vibevim::editor::{Cursor, Editor, PendingNormal, StatusMessage};
use vibevim::input::{
    apply_save_result, handle_editor, route_key, InputResult, KeyOutcome, RouteDecision,
};
use vibevim::key::{KeyCode, KeyEvent, KeyModifiers};
use vibevim::mode::Mode;

fn key(c: char) -> KeyEvent {
    KeyEvent::plain(KeyCode::Char(c))
}

fn ctrl(c: char) -> KeyEvent {
    KeyEvent {
        code: KeyCode::Char(c),
        modifiers: KeyModifiers { ctrl: true, alt: false, shift: false, sup: false },
    }
}

fn press(e: &mut Editor, k: KeyEvent) -> KeyOutcome {
    handle_editor(e, k)
}

fn type_str(e: &mut Editor, s: &str) {
    for c in s.chars() {
        press(e, key(c));
    }
}

#[test]
fn scenario_insert_hello_write_quit() {
    // An empty buffer opened for a fresh file: type `hello`, then `:wq`.
    let mut e = Editor::with_content("", Some(String::from("scratch.txt")));
    press(&mut e, key('i'));
    assert_eq!(e.mode, Mode::Insert);
    type_str(&mut e, "hello");
    press(&mut e, KeyEvent::plain(KeyCode::Esc));
    assert_eq!(e.mode, Mode::Normal);
    press(&mut e, key(':'));
    assert_eq!(e.mode, Mode::Command);
    type_str(&mut e, "wq");
    let out = press(&mut e, KeyEvent::plain(KeyCode::Enter));
    assert_eq!(out, KeyOutcome::Save { and_quit: true });
    // The front end now writes exactly the content and reports back.
    assert_eq!(e.current_buffer().content(), "hello");
    let decision = apply_save_result(&mut e, Ok(()), true);
    assert_eq!(decision, InputResult::Exit);
    assert!(!e.current_buffer().modified);
}

#[test]
fn scenario_search_and_repeat_wraps() {
    let mut e = Editor::with_content("foo\nbar\nfoo\n", None);
    press(&mut e, key('/'));
    assert_eq!(e.mode, Mode::Search);
    type_str(&mut e, "foo");
    press(&mut e, KeyEvent::plain(KeyCode::Enter));
    assert_eq!(e.mode, Mode::Normal);
    assert_eq!(e.cursor, Cursor { line: 2, col: 0 });
    press(&mut e, key('n'));
    assert_eq!(e.cursor, Cursor { line: 0, col: 0 });
}

#[test]
fn scenario_delete_line_chord() {
    let mut e = Editor::with_content("abc\ndef", None);
    press(&mut e, key('d'));
    assert_eq!(e.pending_normal, PendingNormal::SecondD);
    press(&mut e, key('d'));
    assert_eq!(e.current_buffer().content(), "def");
    assert_eq!(e.cursor, Cursor { line: 0, col: 0 });
    assert_eq!(e.pending_normal, PendingNormal::Idle);
}

#[test]
fn scenario_broken_chord_still_moves() {
    let mut e = Editor::with_content("ab\ncd", None);
    press(&mut e, key('g'));
    assert_eq!(e.pending_normal, PendingNormal::SecondG);
    press(&mut e, key('j'));
    assert_eq!(e.pending_normal, PendingNormal::Idle);
    assert_eq!(e.cursor.line, 1);
}

#[test]
fn double_g_jumps_to_first_line() {
    let mut e = Editor::with_content("a\nb\nc", None);
    e.cursor.line = 2;
    press(&mut e, key('g'));
    press(&mut e, key('g'));
    assert_eq!(e.cursor.line, 0);
    assert_eq!(e.pending_normal, PendingNormal::Idle);
}

#[test]
fn replace_chord_consumes_next_character() {
    let mut e = Editor::with_content("abc", None);
    press(&mut e, key('r'));
    assert_eq!(e.pending_normal, PendingNormal::ReplaceChar);
    // The next key would otherwise be the `j` motion; it is consumed.
    press(&mut e, key('j'));
    assert_eq!(e.current_buffer().content(), "jbc");
    assert_eq!(e.pending_normal, PendingNormal::Idle);
    assert_eq!(e.cursor, Cursor { line: 0, col: 0 });
}

#[test]
fn normal_mode_motions_via_keys() {
    let mut e = Editor::with_content("one two\nnext", None);
    press(&mut e, key('w'));
    assert_eq!(e.cursor.col, 4);
    press(&mut e, key('$'));
    assert_eq!(e.cursor.col, 6);
    press(&mut e, key('0'));
    assert_eq!(e.cursor.col, 0);
    press(&mut e, key('G'));
    assert_eq!(e.cursor.line, 1);
}

#[test]
fn insert_mode_keys() {
    let mut e = Editor::with_content("", None);
    press(&mut e, key('i'));
    press(&mut e, key('a'));
    press(&mut e, KeyEvent::plain(KeyCode::Enter));
    press(&mut e, key('b'));
    assert_eq!(e.current_buffer().content(), "a\nb");
    press(&mut e, KeyEvent::plain(KeyCode::Backspace));
    assert_eq!(e.current_buffer().content(), "a\n");
    press(&mut e, KeyEvent::plain(KeyCode::Tab));
    assert_eq!(e.current_buffer().content(), "a\n    ");
    press(&mut e, ctrl('c'));
    assert_eq!(e.mode, Mode::Normal);
}

#[test]
fn quit_refused_while_modified() {
    let mut e = Editor::with_content("x", Some(String::from("f")));
    press(&mut e, key('i'));
    press(&mut e, key('y'));
    press(&mut e, KeyEvent::plain(KeyCode::Esc));
    press(&mut e, key(':'));
    press(&mut e, key('q'));
    let out = press(&mut e, KeyEvent::plain(KeyCode::Enter));
    assert_eq!(out, KeyOutcome::Continue);
    assert_eq!(e.status_message, Some(StatusMessage::NoWriteSinceLastChange));
    // Forced quit goes through.
    press(&mut e, key(':'));
    type_str(&mut e, "q!");
    let out2 = press(&mut e, KeyEvent::plain(KeyCode::Enter));
    assert_eq!(out2, KeyOutcome::Exit);
}

#[test]
fn command_mode_editing_keys() {
    let mut e = Editor::with_content("x", None);
    press(&mut e, key(':'));
    type_str(&mut e, "ab");
    press(&mut e, KeyEvent::plain(KeyCode::Backspace));
    assert_eq!(e.command_buffer, vec!['a']);
    press(&mut e, KeyEvent::plain(KeyCode::Backspace));
    assert_eq!(e.mode, Mode::Command);
    press(&mut e, KeyEvent::plain(KeyCode::Backspace));
    assert_eq!(e.mode, Mode::Normal);
}

#[test]
fn command_mode_toggle_sidebar_commands() {
    let mut e = Editor::with_content("x", None);
    press(&mut e, key(':'));
    type_str(&mut e, "e.");
    let out = press(&mut e, KeyEvent::plain(KeyCode::Enter));
    assert_eq!(out, KeyOutcome::ToggleSidebar);
    assert_eq!(e.mode, Mode::Normal);
}

#[test]
fn search_mode_escape_cancels() {
    let mut e = Editor::with_content("foo", None);
    press(&mut e, key('/'));
    type_str(&mut e, "fo");
    press(&mut e, KeyEvent::plain(KeyCode::Esc));
    assert_eq!(e.mode, Mode::Normal);
    assert!(e.command_buffer.is_empty());
    assert_eq!(e.cursor, Cursor { line: 0, col: 0 });
}

#[test]
fn save_failure_keeps_running_and_reports() {
    let mut e = Editor::with_content("x", Some(String::from("f")));
    let decision = apply_save_result(&mut e, Err(String::from("denied")), true);
    assert_eq!(decision, InputResult::Continue);
    assert_eq!(
        e.status_message,
        Some(StatusMessage::SaveFailedIo(String::from("denied")))
    );
}

#[test]
fn routing_space_e_toggles_sidebar() {
    let r1 = route_key(false, false, Mode::Normal, false, key(' '));
    assert_eq!(r1.decision, RouteDecision::Swallow);
    assert!(r1.pending_space_e);
    let r2 = route_key(true, false, Mode::Normal, false, key('e'));
    assert_eq!(r2.decision, RouteDecision::ToggleSidebar);
    assert!(!r2.pending_space_e);
    // A different key falls through to the editor and disarms.
    let r3 = route_key(true, false, Mode::Normal, false, key('j'));
    assert_eq!(r3.decision, RouteDecision::Editor);
    assert!(!r3.pending_space_e);
}

#[test]
fn routing_ctrl_w_toggles_focus() {
    let r1 = route_key(false, false, Mode::Normal, false, ctrl('w'));
    assert_eq!(r1.decision, RouteDecision::Swallow);
    assert!(r1.pending_ctrl_w);
    let r2 = route_key(false, true, Mode::Normal, false, key('w'));
    assert_eq!(r2.decision, RouteDecision::ToggleExplorerFocus);
    let r3 = route_key(false, true, Mode::Normal, true, key('x'));
    assert_eq!(r3.decision, RouteDecision::Explorer);
}

#[test]
fn routing_space_outside_normal_mode_is_typed() {
    let r = route_key(false, false, Mode::Insert, false, key(' '));
    assert_eq!(r.decision, RouteDecision::Editor);
    assert!(!r.pending_space_e);
}

#[test]
fn replace_pending_with_non_character_key_still_moves() {
    let mut e = Editor::with_content("ab\ncd", None);
    press(&mut e, key('r'));
    press(&mut e, KeyEvent::plain(KeyCode::Down));
    // The arrow is not consumed as a replacement; it moves the cursor.
    assert_eq!(e.cursor.line, 1);
    assert_eq!(e.pending_normal, PendingNormal::Idle);
    assert_eq!(e.current_buffer().content(), "ab\ncd");
}

#[test]
fn tab_inserts_four_spaces() {
    let mut e = Editor::with_content("ab", None);
    press(&mut e, key('i'));
    press(&mut e, key('a'));
    press(&mut e, KeyEvent::plain(KeyCode::Tab));
    assert_eq!(e.current_buffer().content(), "a    ab");
    assert_eq!(e.cursor.col, 5);
}

#[test]
fn normal_mode_clears_status_on_next_key() {
    let mut e = Editor::with_content("foo", None);
    press(&mut e, key('n'));
    assert_eq!(e.status_message, Some(StatusMessage::NoPreviousSearch));
    press(&mut e, key('h'));
    assert_eq!(e.status_message, None);
}

#[test]
fn search_mode_backspace_on_empty_cancels() {
    let mut e = Editor::with_content("foo", None);
    press(&mut e, key('/'));
    let _ = press(&mut e, KeyEvent::plain(KeyCode::Backspace));
    assert_eq!(e.mode, Mode::Normal);
}

#[test]
fn unnamed_key_clears_status_and_disarms_chord() {
    let mut e = Editor::with_content("foo", None);
    press(&mut e, key('n'));
    assert_eq!(e.status_message, Some(StatusMessage::NoPreviousSearch));
    press(&mut e, key('g'));
    assert_eq!(e.pending_normal, PendingNormal::SecondG);
    // A key outside the named set still counts as input: the status line is
    // cleared and the pending chord disarmed, with nothing else done.
    press(&mut e, KeyEvent::plain(KeyCode::Other));
    assert_eq!(e.status_message, None);
    assert_eq!(e.pending_normal, PendingNormal::Idle);
    assert_eq!(e.current_buffer().content(), "foo");
}
