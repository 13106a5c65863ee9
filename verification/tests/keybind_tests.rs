//! Tests of the keybind grammar, the default table, user overrides and key
//! resolution.

use vibevim::key::{KeyCode, KeyEvent, KeyModifiers};
use vibevim::keybinds::{
    default_keybinds, load_user_keybinds, merge_keybinds, parse_binding, parse_key,
    resolve_action, resolve_chord_second, resolve_first_key_chord, Binding, ParsedKey,
};
use vibevim::mode::Mode;

fn plain(code: KeyCode) -> ParsedKey {
    ParsedKey { code, modifiers: KeyModifiers { ctrl: false, alt: false, shift: false, sup: false } }
}

fn event(code: KeyCode) -> KeyEvent {
    KeyEvent::plain(code)
}

#[test]
fn parse_single_character_keys() {
    assert_eq!(parse_key("h"), Some(plain(KeyCode::Char('h'))));
    assert_eq!(parse_key(" $ "), Some(plain(KeyCode::Char('$'))));
    assert_eq!(parse_key(""), None);
    assert_eq!(parse_key("   "), None);
}

#[test]
fn parse_named_keys() {
    assert_eq!(parse_key("Enter"), Some(plain(KeyCode::Enter)));
    assert_eq!(parse_key("Return"), Some(plain(KeyCode::Enter)));
    assert_eq!(parse_key("Esc"), Some(plain(KeyCode::Esc)));
    assert_eq!(parse_key("Escape"), Some(plain(KeyCode::Esc)));
    assert_eq!(parse_key("Space"), Some(plain(KeyCode::Char(' '))));
    assert_eq!(parse_key("F5"), Some(plain(KeyCode::F(5))));
    assert_eq!(parse_key("F12"), Some(plain(KeyCode::F(12))));
    assert_eq!(parse_key("F"), Some(plain(KeyCode::Char('F'))));
    assert_eq!(parse_key("Fx"), None);
    assert_eq!(parse_key("nope"), None);
}

#[test]
fn parse_modified_keys() {
    let ctrl_c = ParsedKey {
        code: KeyCode::Char('c'),
        modifiers: KeyModifiers { ctrl: true, alt: false, shift: false, sup: false },
    };
    assert_eq!(parse_key("Ctrl+c"), Some(ctrl_c));
    assert_eq!(parse_key("Control+c"), Some(ctrl_c));
    let all = ParsedKey {
        code: KeyCode::Left,
        modifiers: KeyModifiers { ctrl: true, alt: true, shift: true, sup: true },
    };
    assert_eq!(parse_key("Ctrl+Shift+Alt+Super+Left"), Some(all));
    assert_eq!(parse_key("Meta+x").map(|p| p.modifiers.sup), Some(true));
    assert_eq!(parse_key("Bogus+c"), None);
    assert_eq!(parse_key("Ctrl+"), None);
}

#[test]
fn parse_binding_single_and_chord() {
    assert_eq!(
        parse_binding("h"),
        Some(Binding::Single(plain(KeyCode::Char('h'))))
    );
    assert_eq!(
        parse_binding("g g"),
        Some(Binding::Chord(plain(KeyCode::Char('g')), plain(KeyCode::Char('g'))))
    );
    assert_eq!(
        parse_binding("Space e"),
        Some(Binding::Chord(plain(KeyCode::Char(' ')), plain(KeyCode::Char('e'))))
    );
    assert_eq!(parse_binding("a b c"), None);
    assert_eq!(parse_binding(""), None);
}

#[test]
fn matches_allow_shift_ignores_letter_case_but_not_control() {
    let e_key = plain(KeyCode::Char('e'));
    // The Shift flag is tolerated.
    let shifted = KeyEvent {
        code: KeyCode::Char('e'),
        modifiers: KeyModifiers { ctrl: false, alt: false, shift: true, sup: false },
    };
    assert!(e_key.matches_allow_shift(&shifted));
    // A letter's case is ignored: `e` matches both `e` and `E`.
    assert!(e_key.matches_allow_shift(&event(KeyCode::Char('E'))));
    assert!(plain(KeyCode::Char('E')).matches_allow_shift(&event(KeyCode::Char('e'))));
    // But a different letter, or control/alt/super, is not.
    assert!(!e_key.matches_allow_shift(&event(KeyCode::Char('f'))));
    let controlled = KeyEvent {
        code: KeyCode::Char('e'),
        modifiers: KeyModifiers { ctrl: true, alt: false, shift: false, sup: false },
    };
    assert!(!e_key.matches_allow_shift(&controlled));
    assert!(!e_key.matches(&shifted));
    // Non-letter codes still need exact equality.
    assert!(plain(KeyCode::F(5)).matches_allow_shift(&event(KeyCode::F(5))));
    assert!(!plain(KeyCode::F(5)).matches_allow_shift(&event(KeyCode::F(6))));
}

#[test]
fn chord_completes_with_either_case_of_its_second_key() {
    let m = default_keybinds();
    // `g g` pending: an upper-case G also completes the chord.
    let second = plain(KeyCode::Char('g'));
    let r = resolve_action(
        &m,
        "normal",
        &event(KeyCode::Char('G')),
        Some(("move_to_first_line", &second)),
    );
    assert_eq!(r, Some((String::from("move_to_first_line"), true)));
}

#[test]
fn defaults_resolve_normal_mode_keys() {
    let m = default_keybinds();
    let r = resolve_action(&m, "normal", &event(KeyCode::Char('h')), None);
    assert_eq!(r, Some((String::from("move_left"), false)));
    let r2 = resolve_action(&m, "normal", &event(KeyCode::Left), None);
    assert_eq!(r2, Some((String::from("move_left"), false)));
    let r3 = resolve_action(&m, "normal", &event(KeyCode::Char('g')), None);
    assert_eq!(r3, Some((String::from("move_to_first_line"), true)));
    assert_eq!(resolve_action(&m, "nowhere", &event(KeyCode::Char('h')), None), None);
}

#[test]
fn defaults_resolve_pending_chord_second_key() {
    let m = default_keybinds();
    let second = plain(KeyCode::Char('g'));
    let r = resolve_action(
        &m,
        "normal",
        &event(KeyCode::Char('g')),
        Some(("move_to_first_line", &second)),
    );
    assert_eq!(r, Some((String::from("move_to_first_line"), true)));
}

#[test]
fn first_key_chord_resolution_yields_second_key() {
    let m = default_keybinds();
    let r = resolve_first_key_chord(&m, "normal", &event(KeyCode::Char('d')));
    assert_eq!(
        r,
        Some((String::from("delete_current_line"), plain(KeyCode::Char('d'))))
    );
    let r2 = resolve_chord_second(
        &m,
        "normal",
        &event(KeyCode::Char('d')),
        &plain(KeyCode::Char('d')),
    );
    assert_eq!(r2, Some(String::from("delete_current_line")));
}

#[test]
fn user_keybinds_replace_defaults_per_action() {
    let user_json = "{\"normal\": {\"move_left\": [\"a\"], \"brand_new\": [\"F3\"]}}";
    let user = load_user_keybinds(user_json).unwrap();
    let merged = merge_keybinds(default_keybinds(), user);
    // The overridden action answers only to its new key.
    let r = resolve_action(&merged, "normal", &event(KeyCode::Char('h')), None);
    assert_ne!(r, Some((String::from("move_left"), false)));
    let r2 = resolve_action(&merged, "normal", &event(KeyCode::F(3)), None);
    assert_eq!(r2, Some((String::from("brand_new"), false)));
    // Untouched actions keep their defaults.
    let r3 = resolve_action(&merged, "normal", &event(KeyCode::Char('j')), None);
    assert_eq!(r3, Some((String::from("move_down"), false)));
}

#[test]
fn unparseable_user_entries_are_skipped() {
    let user_json = "{\"normal\": {\"move_left\": [\"NotAKey+\"]}}";
    let user = load_user_keybinds(user_json).unwrap();
    let merged = merge_keybinds(default_keybinds(), user);
    // Every binding string failed to parse, so the default stays.
    let r = resolve_action(&merged, "normal", &event(KeyCode::Char('h')), None);
    assert_eq!(r, Some((String::from("move_left"), false)));
}

#[test]
fn invalid_user_file_yields_nothing() {
    assert!(load_user_keybinds("not json at all").is_none());
    assert!(load_user_keybinds("[1, 2, 3]").is_none());
}

#[test]
fn config_paths_append_exactly_the_fixed_components() {
    assert_eq!(
        vibevim::keybinds::config_dir_under("/home/someone/.config"),
        "/home/someone/.config/vibevim"
    );
    assert_eq!(
        vibevim::keybinds::keybinds_path_under("/home/someone/.config"),
        "/home/someone/.config/vibevim/keybinds.json"
    );
    assert_eq!(vibevim::keybinds::config_dir_under(""), "/vibevim");
}

#[test]
fn keybinds_path_ends_with_folder_and_file_name() {
    if let Some(p) = vibevim::keybinds::keybinds_path() {
        assert!(p.ends_with("/vibevim/keybinds.json"));
    }
    if let Some(d) = vibevim::keybinds::config_dir() {
        assert!(d.ends_with("/vibevim"));
    }
}

#[test]
fn mode_names() {
    assert_eq!(Mode::Normal.as_str(), "NORMAL");
    assert_eq!(Mode::Insert.as_str(), "INSERT");
    assert_eq!(Mode::Command.as_str(), "COMMAND");
    assert_eq!(Mode::Search.as_str(), "SEARCH");
}
