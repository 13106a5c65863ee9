//! Keybind configuration: the binding-string grammar, built-in defaults, a
//! user override merged over them, and the resolution of key events to
//! action names.
//!
//! A binding string is one or two whitespace-separated key tokens. A key
//! token is a named key (`Enter`, `Esc`, `F1`..`F12`, ...) or a single
//! character, optionally prefixed by `Modifier+` clauses (`Ctrl`, `Shift`,
//! `Alt`, `Super`/`Meta`). Two tokens form a chord: the first key arms a
//! pending state and the second completes the action, matched with
//! shift-tolerance.

use crate::key::{KeyCode, KeyEvent, KeyModifiers};
use crate::strings::{
    range_eq_str, str_chars, split_chars, split_sep, trim_chars, trim_spec, trim_start_spec,
};
use vstd::prelude::*;

verus! {

broadcast use vstd::string::group_string_axioms;

/// A single key (code plus modifiers) that bindings are matched against.
#[derive(Clone, Copy, Debug, PartialEq, Eq, Hash, Structural)]
pub struct ParsedKey {
    pub code: KeyCode,
    pub modifiers: KeyModifiers,
}

/// Exact match: same code and exactly the same modifiers.
pub open spec fn key_match(p: ParsedKey, k: KeyEvent) -> bool {
    k.code == p.code && k.modifiers == p.modifiers
}

/// Two characters are the same letter up to case: equal, or an ASCII
/// upper/lower pair.
pub open spec fn same_letter(a: char, b: char) -> bool {
    ||| a == b
    ||| ('A' <= a && a <= 'Z' && 'a' <= b && b <= 'z' && (a as int) + 32 == b as int)
    ||| ('a' <= a && a <= 'z' && 'A' <= b && b <= 'Z' && a as int == (b as int) + 32)
}

/// Shift-tolerant code match: equal codes, or character keys that are the
/// same letter with its case ignored.
pub open spec fn code_match_shift_tolerant(a: KeyCode, b: KeyCode) -> bool {
    match (a, b) {
        (KeyCode::Char(x), KeyCode::Char(y)) => same_letter(x, y),
        _ => a == b,
    }
}

/// Shift-tolerant match, for the second key of a chord: the codes name the
/// same key with a letter's case ignored, and neither side holds control,
/// alt or super.
pub open spec fn key_match_allow_shift(p: ParsedKey, k: KeyEvent) -> bool {
    code_match_shift_tolerant(p.code, k.code) && !k.modifiers.has_non_shift_spec()
        && !p.modifiers.has_non_shift_spec()
}

/// Whether two characters are the same letter up to ASCII case.
fn chars_same_letter(a: char, b: char) -> (r: bool)
    ensures
        r == same_letter(a, b),
{
    if a == b {
        return true;
    }
    let ai = a as u32;
    let bi = b as u32;
    ('A' <= a && a <= 'Z' && 'a' <= b && b <= 'z' && ai + 32 == bi) || ('a' <= a && a <= 'z' && 'A'
        <= b && b <= 'Z' && ai == bi + 32)
}

impl ParsedKey {
    /// Whether the key event matches this key exactly.
    pub fn matches(&self, key: &KeyEvent) -> (r: bool)
        ensures
            r == key_match(*self, *key),
    {
        key.code == self.code && key.modifiers == self.modifiers
    }

    /// Whether the key event matches with shift-tolerance: a letter's case
    /// is ignored (so `e` matches both `e` and `E`), but control, alt and
    /// super must be absent on both sides.
    pub fn matches_allow_shift(&self, key: &KeyEvent) -> (r: bool)
        ensures
            r == key_match_allow_shift(*self, *key),
    {
        let codes_match = match (self.code, key.code) {
            (KeyCode::Char(x), KeyCode::Char(y)) => chars_same_letter(x, y),
            _ => self.code == key.code,
        };
        if !codes_match {
            return false;
        }
        !key.modifiers.has_non_shift() && !self.modifiers.has_non_shift()
    }
}

/// A binding: a single key or a two-key chord.
#[derive(Clone, Copy, Debug, PartialEq, Eq, Structural)]
pub enum Binding {
    Single(ParsedKey),
    Chord(ParsedKey, ParsedKey),
}

/// Whether the key event matches the binding's first key.
pub open spec fn first_key_match(b: Binding, k: KeyEvent) -> bool {
    match b {
        Binding::Single(p) => key_match(p, k),
        Binding::Chord(p, _) => key_match(p, k),
    }
}

/// Whether the key event completes the binding as the second key of a
/// chord (shift-tolerant); never true of a single-key binding.
pub open spec fn second_key_match(b: Binding, k: KeyEvent) -> bool {
    match b {
        Binding::Single(_) => false,
        Binding::Chord(_, s) => key_match_allow_shift(s, k),
    }
}

impl Binding {
    /// The key that triggers or arms the binding.
    pub fn first_key(&self) -> (r: &ParsedKey)
        ensures
            *self matches Binding::Single(p) ==> *r == p,
            *self matches Binding::Chord(p, _) ==> *r == p,
    {
        match self {
            Binding::Single(p) => p,
            Binding::Chord(p, _) => p,
        }
    }

    /// The chord's completing key, if this is a chord.
    pub fn second_key(&self) -> (r: Option<&ParsedKey>)
        ensures
            *self matches Binding::Single(_) ==> r is None,
            *self matches Binding::Chord(_, s) ==> (r matches Some(p) && *p == s),
    {
        match self {
            Binding::Single(_) => Option::None,
            Binding::Chord(_, s) => Option::Some(s),
        }
    }

    /// Whether the key event matches the binding's first key.
    pub fn matches_first_key(&self, key: &KeyEvent) -> (r: bool)
        ensures
            r == first_key_match(*self, *key),
    {
        match self {
            Binding::Single(p) => p.matches(key),
            Binding::Chord(p, _) => p.matches(key),
        }
    }

    /// Whether the key event completes the binding as a chord's second key.
    pub fn matches_second_key(&self, key: &KeyEvent) -> (r: bool)
        ensures
            r == second_key_match(*self, *key),
    {
        match self {
            Binding::Single(_) => false,
            Binding::Chord(_, second) => second.matches_allow_shift(key),
        }
    }

    /// Whether this binding is a two-key chord.
    pub fn is_chord(&self) -> (r: bool)
        ensures
            r == (*self is Chord),
    {
        matches!(self, Binding::Chord(_, _))
    }
}

/// The modifier flag named by one (trimmed) `Modifier+` clause, applied to
/// the given set; None for an unknown name.
pub open spec fn apply_mod(m: KeyModifiers, tok: Seq<char>) -> Option<KeyModifiers> {
    if tok == "Ctrl"@ || tok == "Control"@ {
        Some(KeyModifiers { ctrl: true, ..m })
    } else if tok == "Shift"@ {
        Some(KeyModifiers { shift: true, ..m })
    } else if tok == "Alt"@ {
        Some(KeyModifiers { alt: true, ..m })
    } else if tok == "Super"@ || tok == "Meta"@ {
        Some(KeyModifiers { sup: true, ..m })
    } else {
        None
    }
}

/// The modifier set named by the first `n` parts of a split key token, each
/// part trimmed; None if any part is not a modifier name.
pub open spec fn mods_of(parts: Seq<Seq<char>>, n: int) -> Option<KeyModifiers>
    decreases n,
{
    if n <= 0 {
        Some(KeyModifiers::empty_spec())
    } else {
        match mods_of(parts, n - 1) {
            Some(m) => apply_mod(m, trim_spec(parts[n - 1])),
            None => None,
        }
    }
}

/// The key code named by one (trimmed) key token: a named key, a single
/// character, or `F` followed by one digit.
pub open spec fn keycode_of(t: Seq<char>) -> Option<KeyCode> {
    if t == "Enter"@ || t == "Return"@ {
        Some(KeyCode::Enter)
    } else if t == "Backspace"@ {
        Some(KeyCode::Backspace)
    } else if t == "Tab"@ {
        Some(KeyCode::Tab)
    } else if t == "Esc"@ || t == "Escape"@ {
        Some(KeyCode::Esc)
    } else if t == "Left"@ {
        Some(KeyCode::Left)
    } else if t == "Right"@ {
        Some(KeyCode::Right)
    } else if t == "Up"@ {
        Some(KeyCode::Up)
    } else if t == "Down"@ {
        Some(KeyCode::Down)
    } else if t == "Space"@ {
        Some(KeyCode::Char(' '))
    } else if t == "F1"@ {
        Some(KeyCode::F(1))
    } else if t == "F2"@ {
        Some(KeyCode::F(2))
    } else if t == "F3"@ {
        Some(KeyCode::F(3))
    } else if t == "F4"@ {
        Some(KeyCode::F(4))
    } else if t == "F5"@ {
        Some(KeyCode::F(5))
    } else if t == "F6"@ {
        Some(KeyCode::F(6))
    } else if t == "F7"@ {
        Some(KeyCode::F(7))
    } else if t == "F8"@ {
        Some(KeyCode::F(8))
    } else if t == "F9"@ {
        Some(KeyCode::F(9))
    } else if t == "F10"@ {
        Some(KeyCode::F(10))
    } else if t == "F11"@ {
        Some(KeyCode::F(11))
    } else if t == "F12"@ {
        Some(KeyCode::F(12))
    } else if t.len() == 1 {
        Some(KeyCode::Char(t[0]))
    } else if t.len() == 2 && t[0] == 'F' && '0' <= t[1] && t[1] <= '9' {
        Some(KeyCode::F(((t[1] as int) - 48) as u8))
    } else {
        None
    }
}

/// A parsed key token: the whole string is trimmed and split at `+`; the
/// leading parts name modifiers and the last part the key.
pub open spec fn parse_key_spec(s: Seq<char>) -> Option<ParsedKey> {
    let t = trim_spec(s);
    if t.len() == 0 {
        None
    } else {
        let parts = split_sep(t, '+');
        match mods_of(parts, parts.len() - 1) {
            Some(m) => match keycode_of(trim_spec(parts.last())) {
                Some(code) => Some(ParsedKey { code, modifiers: m }),
                None => None,
            },
            None => None,
        }
    }
}

/// The key code of one trimmed token.
fn keycode_of_exec(t: &Vec<char>) -> (r: Option<KeyCode>)
    ensures
        r == keycode_of(t@),
{
    let n = t.len();
    proof {
        assert(t@.subrange(0, t@.len() as int) =~= t@);
    }
    if range_eq_str(t, 0, n, "Enter") || range_eq_str(t, 0, n, "Return") {
        Option::Some(KeyCode::Enter)
    } else if range_eq_str(t, 0, n, "Backspace") {
        Option::Some(KeyCode::Backspace)
    } else if range_eq_str(t, 0, n, "Tab") {
        Option::Some(KeyCode::Tab)
    } else if range_eq_str(t, 0, n, "Esc") || range_eq_str(t, 0, n, "Escape") {
        Option::Some(KeyCode::Esc)
    } else if range_eq_str(t, 0, n, "Left") {
        Option::Some(KeyCode::Left)
    } else if range_eq_str(t, 0, n, "Right") {
        Option::Some(KeyCode::Right)
    } else if range_eq_str(t, 0, n, "Up") {
        Option::Some(KeyCode::Up)
    } else if range_eq_str(t, 0, n, "Down") {
        Option::Some(KeyCode::Down)
    } else if range_eq_str(t, 0, n, "Space") {
        Option::Some(KeyCode::Char(' '))
    } else if range_eq_str(t, 0, n, "F1") {
        Option::Some(KeyCode::F(1))
    } else if range_eq_str(t, 0, n, "F2") {
        Option::Some(KeyCode::F(2))
    } else if range_eq_str(t, 0, n, "F3") {
        Option::Some(KeyCode::F(3))
    } else if range_eq_str(t, 0, n, "F4") {
        Option::Some(KeyCode::F(4))
    } else if range_eq_str(t, 0, n, "F5") {
        Option::Some(KeyCode::F(5))
    } else if range_eq_str(t, 0, n, "F6") {
        Option::Some(KeyCode::F(6))
    } else if range_eq_str(t, 0, n, "F7") {
        Option::Some(KeyCode::F(7))
    } else if range_eq_str(t, 0, n, "F8") {
        Option::Some(KeyCode::F(8))
    } else if range_eq_str(t, 0, n, "F9") {
        Option::Some(KeyCode::F(9))
    } else if range_eq_str(t, 0, n, "F10") {
        Option::Some(KeyCode::F(10))
    } else if range_eq_str(t, 0, n, "F11") {
        Option::Some(KeyCode::F(11))
    } else if range_eq_str(t, 0, n, "F12") {
        Option::Some(KeyCode::F(12))
    } else if n == 1 {
        Option::Some(KeyCode::Char(t[0]))
    } else if n == 2 && t[0] == 'F' && '0' <= t[1] && t[1] <= '9' {
        let d = t[1] as u32;
        Option::Some(KeyCode::F((d - 48) as u8))
    } else {
        Option::None
    }
}

/// Parse a key token such as `h`, `Left`, `Ctrl+c`, `F5` or `Space`.
pub fn parse_key(s: &str) -> (r: Option<ParsedKey>)
    ensures
        r == parse_key_spec(s@),
{
    let cs = str_chars(s);
    let t = trim_chars(&cs);
    if t.len() == 0 {
        return Option::None;
    }
    let parts = split_chars(&t, '+');
    let ghost parts_view = split_sep(trim_spec(s@), '+');
    proof {
        assert(parts@.map_values(|p: Vec<char>| p@) == parts_view);
    }
    let n = parts.len();
    let mut m = KeyModifiers::empty();
    let mut i: usize = 0;
    while i < n - 1
        invariant
            i <= n - 1,
            n == parts@.len(),
            n >= 1,
            parts_view == split_sep(trim_spec(s@), '+'),
            trim_spec(s@).len() > 0,
            parts@.map_values(|p: Vec<char>| p@) == parts_view,
            mods_of(parts_view, i as int) == Some(m),
        decreases n - 1 - i,
    {
        proof {
            assert(parts@.map_values(|p: Vec<char>| p@)[i as int] == parts@[i as int]@);
        }
        let tok = trim_chars(&parts[i]);
        let tn = tok.len();
        if range_eq_str(&tok, 0, tn, "Ctrl") || range_eq_str(&tok, 0, tn, "Control") {
            proof {
                assert(tok@.subrange(0, tok@.len() as int) =~= tok@);
            }
            m = KeyModifiers { ctrl: true, ..m };
        } else if range_eq_str(&tok, 0, tn, "Shift") {
            m = KeyModifiers { shift: true, ..m };
        } else if range_eq_str(&tok, 0, tn, "Alt") {
            m = KeyModifiers { alt: true, ..m };
        } else if range_eq_str(&tok, 0, tn, "Super") || range_eq_str(&tok, 0, tn, "Meta") {
            m = KeyModifiers { sup: true, ..m };
        } else {
            proof {
                assert(tok@.subrange(0, tok@.len() as int) =~= tok@);
                assert(mods_of(parts_view, i as int + 1) is None);
                lemma_mods_none(parts_view, i as int + 1, parts_view.len() - 1);
            }
            return Option::None;
        }
        proof {
            assert(tok@.subrange(0, tok@.len() as int) =~= tok@);
        }
        i += 1;
    }
    proof {
        assert(parts@.map_values(|p: Vec<char>| p@)[n - 1] == parts@[n - 1]@);
        assert(parts_view.last() == parts@[n - 1]@);
    }
    let keytok = trim_chars(&parts[n - 1]);
    match keycode_of_exec(&keytok) {
        Option::Some(code) => Option::Some(ParsedKey { code, modifiers: m }),
        Option::None => Option::None,
    }
}

/// Once the modifier fold has failed it stays failed.
proof fn lemma_mods_none(parts: Seq<Seq<char>>, from: int, to: int)
    requires
        mods_of(parts, from) is None,
        from <= to,
    ensures
        mods_of(parts, to) is None,
    decreases to - from,
{
    if from < to {
        lemma_mods_none(parts, from + 1, to);
    }
}

/// A parsed binding string: one key token, or two whitespace-separated key
/// tokens forming a chord.
pub open spec fn parse_binding_spec(s: Seq<char>) -> Option<Binding> {
    let t = trim_spec(s);
    if t.len() == 0 {
        None
    } else {
        let i = crate::editor::scan_while(t, 0, false);
        let first = t.take(i);
        let rest = trim_start_spec(t.skip(i));
        if rest.len() == 0 {
            match parse_key_spec(first) {
                Some(p) => Some(Binding::Single(p)),
                None => None,
            }
        } else if crate::editor::scan_while(rest, 0, false) < rest.len() {
            None
        } else {
            match (parse_key_spec(first), parse_key_spec(rest)) {
                (Some(a), Some(b)) => Some(Binding::Chord(a, b)),
                _ => None,
            }
        }
    }
}

/// Parse a binding string such as `h`, `Space e` or `Ctrl+w w`.
pub fn parse_binding(s: &str) -> (r: Option<Binding>)
    ensures
        r == parse_binding_spec(s@),
{
    let cs = str_chars(s);
    let t = trim_chars(&cs);
    if t.len() == 0 {
        return Option::None;
    }
    let i = crate::editor::scan_chars(&t, 0, false);
    let first = crate::strings::subrange_chars(&t, 0, i);
    proof {
        assert(first@ =~= trim_spec(s@).take(i as int));
    }
    let after = crate::strings::subrange_chars(&t, i, t.len());
    proof {
        assert(after@ =~= trim_spec(s@).skip(i as int));
    }
    let rest = trim_start_chars(&after);
    if rest.len() == 0 {
        let first_s = crate::strings::chars_to_string(&first);
        match parse_key(first_s.as_str()) {
            Option::Some(p) => Option::Some(Binding::Single(p)),
            Option::None => Option::None,
        }
    } else {
        let j = crate::editor::scan_chars(&rest, 0, false);
        if j < rest.len() {
            Option::None
        } else {
            let first_s = crate::strings::chars_to_string(&first);
            let rest_s = crate::strings::chars_to_string(&rest);
            match (parse_key(first_s.as_str()), parse_key(rest_s.as_str())) {
                (Option::Some(a), Option::Some(b)) => Option::Some(Binding::Chord(a, b)),
                _ => Option::None,
            }
        }
    }
}

/// The characters of `v` with leading whitespace removed.
fn trim_start_chars(v: &Vec<char>) -> (r: Vec<char>)
    ensures
        r@ == trim_start_spec(v@),
{
    let n = v.len();
    let mut lo: usize = 0;
    proof {
        assert(v@.skip(0) =~= v@);
    }
    loop
        invariant
            lo <= n,
            n == v@.len(),
            trim_start_spec(v@) == trim_start_spec(v@.skip(lo as int)),
        ensures
            lo <= n == v@.len(),
            trim_start_spec(v@) == v@.skip(lo as int),
        decreases n - lo,
    {
        if lo >= n {
            proof {
                assert(v@.skip(lo as int) =~= Seq::<char>::empty());
            }
            return Vec::new();
        }
        if !crate::strings::is_ws(v[lo]) {
            proof {
                assert(v@.skip(lo as int)[0] == v@[lo as int]);
            }
            break ;
        }
        lo += 1;
        proof {
            assert(v@.skip(lo as int - 1).skip(1) =~= v@.skip(lo as int));
        }
    }
    crate::strings::subrange_chars(v, lo, n)
}

/// Per-context map: action name to its list of alternative bindings.
pub struct ContextKeybinds {
    pub entries: Vec<(String, Vec<Binding>)>,
}

/// Full keybind map: context name to its action bindings.
pub struct KeybindMap {
    pub contexts: Vec<(String, ContextKeybinds)>,
}

/// The bindings of the first entry named `action`, if any.
pub open spec fn ctx_get(entries: Seq<(String, Vec<Binding>)>, action: Seq<char>) -> Option<
    Seq<Binding>,
>
    decreases entries.len(),
{
    if entries.len() == 0 {
        None
    } else if entries[0].0@ == action {
        Some(entries[0].1@)
    } else {
        ctx_get(entries.skip(1), action)
    }
}

/// The first context named `ctx`, if any.
pub open spec fn map_get_idx(contexts: Seq<(String, ContextKeybinds)>, ctx: Seq<char>) -> int
    decreases contexts.len(),
{
    if contexts.len() == 0 {
        -1
    } else if contexts[0].0@ == ctx {
        0
    } else {
        let r = map_get_idx(contexts.skip(1), ctx);
        if r < 0 {
            -1
        } else {
            r + 1
        }
    }
}

/// The bindings of `action` in context `ctx`, if both exist.
pub open spec fn lookup(m: KeybindMap, ctx: Seq<char>, action: Seq<char>) -> Option<Seq<Binding>> {
    let i = map_get_idx(m.contexts@, ctx);
    if i < 0 {
        None
    } else {
        ctx_get(m.contexts@[i].1.entries@, action)
    }
}

/// Action names within a context are unique.
pub open spec fn ctx_wf(entries: Seq<(String, Vec<Binding>)>) -> bool {
    forall|i: int, j: int|
        0 <= i < j < entries.len() ==> (#[trigger] entries[i]).0@ != (#[trigger] entries[j]).0@
}

/// Context names are unique and every context is well formed.
pub open spec fn map_wf(m: KeybindMap) -> bool {
    &&& forall|i: int, j: int|
        0 <= i < j < m.contexts@.len() ==> (#[trigger] m.contexts@[i]).0@ != (
        #[trigger] m.contexts@[j]).0@
    &&& forall|i: int|
        0 <= i < m.contexts@.len() ==> ctx_wf((#[trigger] m.contexts@[i]).1.entries@)
}

/// The found index names the context and no earlier one does.
pub proof fn lemma_map_get_idx(contexts: Seq<(String, ContextKeybinds)>, ctx: Seq<char>)
    ensures
        map_get_idx(contexts, ctx) >= 0 ==> {
            &&& map_get_idx(contexts, ctx) < contexts.len()
            &&& contexts[map_get_idx(contexts, ctx)].0@ == ctx
        },
        map_get_idx(contexts, ctx) < 0 ==> forall|i: int|
            0 <= i < contexts.len() ==> (#[trigger] contexts[i]).0@ != ctx,
    decreases contexts.len(),
{
    if contexts.len() > 0 && contexts[0].0@ != ctx {
        lemma_map_get_idx(contexts.skip(1), ctx);
        assert(forall|i: int|
            1 <= i < contexts.len() ==> contexts.skip(1)[i - 1] == #[trigger] contexts[i]);
        let r = map_get_idx(contexts.skip(1), ctx);
        if r >= 0 {
            assert(contexts[r + 1] == contexts.skip(1)[r]);
        }
    }
}

/// Replacing the first entry of a key rewrites exactly that key's lookup.
proof fn lemma_ctx_get_update(
    entries: Seq<(String, Vec<Binding>)>,
    i: int,
    p: (String, Vec<Binding>),
)
    requires
        0 <= i < entries.len(),
        entries[i].0@ == p.0@,
        forall|j: int| 0 <= j < i ==> (#[trigger] entries[j]).0@ != p.0@,
    ensures
        forall|a: Seq<char>|
            #[trigger] ctx_get(entries.update(i, p), a) == if a == p.0@ {
                Some(p.1@)
            } else {
                ctx_get(entries, a)
            },
    decreases entries.len(),
{
    let upd = entries.update(i, p);
    if i == 0 {
        assert(upd[0] == p);
        assert(upd.skip(1) =~= entries.skip(1));
        assert forall|a: Seq<char>| #[trigger] ctx_get(upd, a) == (if a == p.0@ {
            Some(p.1@)
        } else {
            ctx_get(entries, a)
        }) by {
            if a == p.0@ {
            } else {
                assert(ctx_get(upd, a) == ctx_get(upd.skip(1), a));
                assert(ctx_get(entries, a) == ctx_get(entries.skip(1), a));
            }
        }
    } else {
        lemma_ctx_get_update(entries.skip(1), i - 1, p);
        assert(upd.skip(1) =~= entries.skip(1).update(i - 1, p));
        assert(upd[0] == entries[0]);
        assert(entries[0].0@ != p.0@);
        assert forall|a: Seq<char>| #[trigger] ctx_get(upd, a) == (if a == p.0@ {
            Some(p.1@)
        } else {
            ctx_get(entries, a)
        }) by {
            assert(ctx_get(entries.skip(1).update(i - 1, p), a) == if a == p.0@ {
                Some(p.1@)
            } else {
                ctx_get(entries.skip(1), a)
            });
        }
    }
}

/// Appending an entry with a fresh key extends the lookups by that key.
proof fn lemma_ctx_get_push(entries: Seq<(String, Vec<Binding>)>, p: (String, Vec<Binding>))
    requires
        forall|j: int| 0 <= j < entries.len() ==> (#[trigger] entries[j]).0@ != p.0@,
    ensures
        forall|a: Seq<char>|
            #[trigger] ctx_get(entries.push(p), a) == if a == p.0@ {
                Some(p.1@)
            } else {
                ctx_get(entries, a)
            },
    decreases entries.len(),
{
    if entries.len() == 0 {
        assert forall|a: Seq<char>| #[trigger] ctx_get(entries.push(p), a) == (if a == p.0@ {
            Some(p.1@)
        } else {
            ctx_get(entries, a)
        }) by {
            assert(entries.push(p)[0] == p);
            assert(entries.push(p).skip(1) =~= Seq::<(String, Vec<Binding>)>::empty());
            assert(ctx_get(entries.push(p).skip(1), a) is None);
            assert(ctx_get(entries, a) is None);
        }
    } else {
        lemma_ctx_get_push(entries.skip(1), p);
        assert(entries.push(p).skip(1) =~= entries.skip(1).push(p));
        assert(entries.push(p)[0] == entries[0]);
        assert forall|a: Seq<char>| #[trigger] ctx_get(entries.push(p), a) == (if a == p.0@ {
            Some(p.1@)
        } else {
            ctx_get(entries, a)
        }) by {
            assert(ctx_get(entries.skip(1).push(p), a) == if a == p.0@ {
                Some(p.1@)
            } else {
                ctx_get(entries.skip(1), a)
            });
        }
    }
}

impl ContextKeybinds {
    /// An empty context.
    pub fn new() -> (r: Self)
        ensures
            r.entries@ == Seq::<(String, Vec<Binding>)>::empty(),
            ctx_wf(r.entries@),
    {
        let r = ContextKeybinds { entries: Vec::new() };
        r
    }

    /// The bindings registered for an action, if any.
    pub fn get(&self, action: &str) -> (r: Option<&Vec<Binding>>)
        ensures
            match r {
                Some(bs) => ctx_get(self.entries@, action@) == Some(bs@),
                None => ctx_get(self.entries@, action@) is None,
            },
    {
        let n = self.entries.len();
        let mut i: usize = 0;
        proof {
            assert(self.entries@.skip(0) =~= self.entries@);
        }
        while i < n
            invariant
                i <= n,
                n == self.entries@.len(),
                ctx_get(self.entries@, action@) == ctx_get(self.entries@.skip(i as int), action@),
            decreases n - i,
        {
            if crate::strings::str_eq(self.entries[i].0.as_str(), action) {
                proof {
                    assert(self.entries@.skip(i as int)[0] == self.entries@[i as int]);
                }
                return Option::Some(&self.entries[i].1);
            }
            proof {
                assert(self.entries@.skip(i as int)[0] == self.entries@[i as int]);
                assert(self.entries@.skip(i as int).skip(1) =~= self.entries@.skip(i as int + 1));
            }
            i += 1;
        }
        proof {
            assert(self.entries@.skip(n as int) =~= Seq::<(String, Vec<Binding>)>::empty());
        }
        Option::None
    }

    /// Register the bindings for an action, replacing any it already had.
    pub fn insert(&mut self, action: String, bindings: Vec<Binding>)
        requires
            ctx_wf(old(self).entries@),
        ensures
            ctx_wf(final(self).entries@),
            forall|a: Seq<char>|
                #[trigger] ctx_get(final(self).entries@, a) == if a == action@ {
                    Some(bindings@)
                } else {
                    ctx_get(old(self).entries@, a)
                },
    {
        let n = self.entries.len();
        let mut i: usize = 0;
        while i < n
            invariant
                i <= n,
                n == self.entries@.len(),
                *self == *old(self),
                ctx_wf(old(self).entries@),
                forall|j: int| 0 <= j < i ==> (#[trigger] self.entries@[j]).0@ != action@,
            decreases n - i,
        {
            if crate::strings::str_eq(self.entries[i].0.as_str(), action.as_str()) {
                proof {
                    lemma_ctx_get_update(self.entries@, i as int, (action, bindings));
                }
                self.entries[i] = (action, bindings);
                proof {
                    assert forall|x: int, y: int|
                        0 <= x < y < self.entries@.len() implies (#[trigger] self.entries@[x]).0@
                        != (#[trigger] self.entries@[y]).0@ by {
                        if x != i as int && y != i as int {
                            assert(self.entries@[x] == old(self).entries@[x]);
                            assert(self.entries@[y] == old(self).entries@[y]);
                        } else if y == i as int {
                            assert(self.entries@[x] == old(self).entries@[x]);
                            assert(self.entries@[y].0@ == old(self).entries@[i as int].0@);
                        } else {
                            assert(self.entries@[y] == old(self).entries@[y]);
                            assert(self.entries@[x].0@ == old(self).entries@[i as int].0@);
                        }
                    }
                }
                return ;
            }
            i += 1;
        }
        proof {
            lemma_ctx_get_push(self.entries@, (action, bindings));
        }
        self.entries.push((action, bindings));
        proof {
            assert forall|x: int, y: int|
                0 <= x < y < self.entries@.len() implies (#[trigger] self.entries@[x]).0@ != (
                #[trigger] self.entries@[y]).0@ by {
                if y < n as int {
                    assert(self.entries@[x] == old(self).entries@[x]);
                    assert(self.entries@[y] == old(self).entries@[y]);
                } else {
                    assert(self.entries@[x] == old(self).entries@[x]);
                }
            }
        }
    }
}

/// An entry whose key is first in the list is the one the index names.
proof fn lemma_map_get_idx_found(contexts: Seq<(String, ContextKeybinds)>, c: Seq<char>, i: int)
    requires
        0 <= i < contexts.len(),
        contexts[i].0@ == c,
        forall|j: int| 0 <= j < i ==> (#[trigger] contexts[j]).0@ != c,
    ensures
        map_get_idx(contexts, c) == i,
    decreases i,
{
    if i > 0 {
        lemma_map_get_idx_found(contexts.skip(1), c, i - 1);
        assert(forall|j: int|
            1 <= j < contexts.len() ==> contexts.skip(1)[j - 1] == #[trigger] contexts[j]);
        assert(forall|j: int|
            0 <= j < i - 1 ==> (#[trigger] contexts.skip(1)[j]).0@ != c);
    }
}

/// A key in no entry has no index.
proof fn lemma_map_get_idx_absent(contexts: Seq<(String, ContextKeybinds)>, c: Seq<char>)
    requires
        forall|j: int| 0 <= j < contexts.len() ==> (#[trigger] contexts[j]).0@ != c,
    ensures
        map_get_idx(contexts, c) == -1,
    decreases contexts.len(),
{
    if contexts.len() > 0 {
        lemma_map_get_idx_absent(contexts.skip(1), c);
        assert(forall|j: int|
            1 <= j < contexts.len() ==> contexts.skip(1)[j - 1] == #[trigger] contexts[j]);
    }
}

/// Appending a context with a fresh name leaves every other lookup index
/// unchanged and gives the new name the last index.
proof fn lemma_map_get_idx_push(contexts: Seq<(String, ContextKeybinds)>, p: (
    String,
    ContextKeybinds,
))
    ensures
        forall|c: Seq<char>|
            #[trigger] map_get_idx(contexts.push(p), c) == if map_get_idx(contexts, c) >= 0 {
                map_get_idx(contexts, c)
            } else if p.0@ == c {
                contexts.len() as int
            } else {
                -1int
            },
    decreases contexts.len(),
{
    if contexts.len() == 0 {
        assert forall|c: Seq<char>| #[trigger] map_get_idx(contexts.push(p), c) == (if map_get_idx(
            contexts,
            c,
        ) >= 0 {
            map_get_idx(contexts, c)
        } else if p.0@ == c {
            contexts.len() as int
        } else {
            -1int
        }) by {
            assert(contexts.push(p)[0] == p);
            assert(contexts.push(p).skip(1) =~~= Seq::<(String, ContextKeybinds)>::empty());
            assert(map_get_idx(contexts.push(p).skip(1), c) == -1);
            assert(map_get_idx(contexts, c) == -1);
        }
    } else {
        lemma_map_get_idx_push(contexts.skip(1), p);
        assert(contexts.push(p).skip(1) =~~= contexts.skip(1).push(p));
        assert(contexts.push(p)[0] == contexts[0]);
        assert forall|c: Seq<char>| #[trigger] map_get_idx(contexts.push(p), c) == (if map_get_idx(
            contexts,
            c,
        ) >= 0 {
            map_get_idx(contexts, c)
        } else if p.0@ == c {
            contexts.len() as int
        } else {
            -1int
        }) by {
            assert(map_get_idx(contexts.skip(1).push(p), c) == if map_get_idx(contexts.skip(1), c)
                >= 0 {
                map_get_idx(contexts.skip(1), c)
            } else if p.0@ == c {
                contexts.skip(1).len() as int
            } else {
                -1int
            });
        }
    }
}

/// Replacing a context without renaming it leaves every lookup index
/// unchanged.
proof fn lemma_map_get_idx_update(
    contexts: Seq<(String, ContextKeybinds)>,
    i: int,
    p: (String, ContextKeybinds),
)
    requires
        0 <= i < contexts.len(),
        contexts[i].0@ == p.0@,
    ensures
        forall|c: Seq<char>|
            #[trigger] map_get_idx(contexts.update(i, p), c) == map_get_idx(contexts, c),
    decreases contexts.len(),
{
    let upd = contexts.update(i, p);
    if i == 0 {
        assert(upd[0] == p);
        assert(upd.skip(1) =~~= contexts.skip(1));
        assert forall|c: Seq<char>| #[trigger] map_get_idx(upd, c) == map_get_idx(contexts, c) by {
            assert(upd[0].0@ == contexts[0].0@);
        }
    } else {
        lemma_map_get_idx_update(contexts.skip(1), i - 1, p);
        assert(upd.skip(1) =~~= contexts.skip(1).update(i - 1, p));
        assert(upd[0] == contexts[0]);
        assert forall|c: Seq<char>| #[trigger] map_get_idx(upd, c) == map_get_idx(contexts, c) by {
            assert(map_get_idx(contexts.skip(1).update(i - 1, p), c) == map_get_idx(
                contexts.skip(1),
                c,
            ));
        }
    }
}

impl KeybindMap {
    /// An empty keybind map.
    pub fn new() -> (r: Self)
        ensures
            r.contexts@ == Seq::<(String, ContextKeybinds)>::empty(),
            map_wf(r),
    {
        let r = KeybindMap { contexts: Vec::new() };
        r
    }

    /// The position of the context with the given name, if present.
    pub fn find_context(&self, name: &str) -> (r: Option<usize>)
        ensures
            r matches Some(i) ==> (i < self.contexts@.len() && map_get_idx(self.contexts@, name@)
                == i as int),
            r is None ==> map_get_idx(self.contexts@, name@) == -1,
    {
        let n = self.contexts.len();
        let mut i: usize = 0;
        while i < n
            invariant
                i <= n,
                n == self.contexts@.len(),
                forall|j: int| 0 <= j < i ==> (#[trigger] self.contexts@[j]).0@ != name@,
            decreases n - i,
        {
            if crate::strings::str_eq(self.contexts[i].0.as_str(), name) {
                proof {
                    lemma_map_get_idx_found(self.contexts@, name@, i as int);
                }
                return Option::Some(i);
            }
            i += 1;
        }
        proof {
            lemma_map_get_idx_absent(self.contexts@, name@);
        }
        Option::None
    }

    /// The context with the given name, if present.
    pub fn get_context(&self, name: &str) -> (r: Option<&ContextKeybinds>)
        ensures
            r matches Some(c) ==> ({
                let i = map_get_idx(self.contexts@, name@);
                i >= 0 && *c == self.contexts@[i].1
            }),
            r is None ==> map_get_idx(self.contexts@, name@) == -1,
    {
        match self.find_context(name) {
            Option::Some(i) => Option::Some(&self.contexts[i].1),
            Option::None => Option::None,
        }
    }
}

/// A copy of a binding list.
fn copy_bindings(v: &Vec<Binding>) -> (r: Vec<Binding>)
    ensures
        r@ == v@,
{
    let mut out: Vec<Binding> = Vec::new();
    let mut i: usize = 0;
    while i < v.len()
        invariant
            i <= v@.len(),
            out@ == v@.take(i as int),
        decreases v@.len() - i,
    {
        out.push(v[i]);
        i += 1;
        proof {
            assert(out@ =~= v@.take(i as int));
        }
    }
    proof {
        assert(v@.take(v@.len() as int) =~= v@);
    }
    out
}

/// The merge of a user map over defaults, restricted to the first `ui` user
/// contexts: a user entry replaces the default bindings for that action.
pub open spec fn merged_lookup(
    default: KeybindMap,
    user: KeybindMap,
    ui: int,
    c: Seq<char>,
    a: Seq<char>,
) -> Option<Seq<Binding>> {
    let i = map_get_idx(user.contexts@.take(ui), c);
    if i < 0 {
        lookup(default, c, a)
    } else {
        match ctx_get(user.contexts@[i].1.entries@, a) {
            Some(b) => Some(b),
            None => lookup(default, c, a),
        }
    }
}

/// Merge user keybinds over the defaults: a user entry for an action
/// replaces (not appends to) the default bindings for that action; contexts
/// and actions the user does not mention keep their defaults.
pub fn merge_keybinds(default: KeybindMap, user: KeybindMap) -> (r: KeybindMap)
    requires
        map_wf(default),
        map_wf(user),
    ensures
        map_wf(r),
        forall|c: Seq<char>, a: Seq<char>|
            #[trigger] lookup(r, c, a) == match lookup(user, c, a) {
                Some(b) => Some(b),
                None => lookup(default, c, a),
            },
{
    let mut out = default;
    let un = user.contexts.len();
    let mut ui: usize = 0;
    proof {
        assert(user.contexts@.take(0) =~~= Seq::<(String, ContextKeybinds)>::empty());
    }
    while ui < un
        invariant
            ui <= un,
            un == user.contexts@.len(),
            map_wf(out),
            map_wf(user),
            forall|c: Seq<char>, a: Seq<char>|
                #[trigger] lookup(out, c, a) == merged_lookup(default, user, ui as int, c, a),
        decreases un - ui,
    {
        let name = user.contexts[ui].0.clone();
        let ghost pre_out = out;
        let idx = match out.find_context(name.as_str()) {
            Option::Some(i) => i,
            Option::None => {
                let fresh_name = name.clone();
                out.contexts.push((fresh_name, ContextKeybinds::new()));
                proof {
                    lemma_map_get_idx_push(pre_out.contexts@, out.contexts@.last());
                }
                out.contexts.len() - 1
            },
        };
        proof {
            assert(map_get_idx(out.contexts@, name@) == idx as int) by {
                if pre_out != out {
                    assert(out.contexts@ == pre_out.contexts@.push(out.contexts@.last()));
                }
            }
        }
        proof {
            assert(map_wf(out)) by {
                if pre_out != out {
                    assert forall|x: int, y: int|
                        0 <= x < y < out.contexts@.len() implies (#[trigger] out.contexts@[x]).0@
                        != (#[trigger] out.contexts@[y]).0@ by {
                        if y < out.contexts@.len() - 1 {
                            assert(out.contexts@[x] == pre_out.contexts@[x]);
                            assert(out.contexts@[y] == pre_out.contexts@[y]);
                        } else {
                            assert(out.contexts@[x] == pre_out.contexts@[x]);
                            lemma_map_get_idx(pre_out.contexts@, name@);
                        }
                    }
                    assert forall|x: int| 0 <= x < out.contexts@.len() implies ctx_wf(
                        (#[trigger] out.contexts@[x]).1.entries@,
                    ) by {
                        if x < out.contexts@.len() - 1 {
                            assert(out.contexts@[x] == pre_out.contexts@[x]);
                        }
                    }
                }
            }
        }
        let ghost mid_out = out;
        proof {
            lemma_map_get_idx(mid_out.contexts@, name@);
            assert(mid_out.contexts@[idx as int].0@ == name@);
            assert(name@ == user.contexts@[ui as int].0@);
        }
        let an = user.contexts[ui].1.entries.len();
        let mut ai: usize = 0;
        proof {
            assert(user.contexts@[ui as int].1.entries@.take(0) =~~= Seq::<
                (String, Vec<Binding>),
            >::empty());
        }
        while ai < an
            invariant
                ai <= an,
                ui < un == user.contexts@.len(),
                an == user.contexts@[ui as int].1.entries@.len(),
                map_wf(user),
                map_wf(out),
                idx < out.contexts@.len(),
                out.contexts@.len() == mid_out.contexts@.len(),
                forall|j: int|
                    0 <= j < out.contexts@.len() && j != idx as int ==> #[trigger] out.contexts@[j]
                        == mid_out.contexts@[j],
                out.contexts@[idx as int].0 == mid_out.contexts@[idx as int].0,
                map_get_idx(out.contexts@, user.contexts@[ui as int].0@) == idx as int,
                forall|a: Seq<char>|
                    #[trigger] ctx_get(out.contexts@[idx as int].1.entries@, a) == match ctx_get(
                        user.contexts@[ui as int].1.entries@.take(ai as int),
                        a,
                    ) {
                        Some(b) => Some(b),
                        None => ctx_get(mid_out.contexts@[idx as int].1.entries@, a),
                    },
            decreases an - ai,
        {
            let action = user.contexts[ui].1.entries[ai].0.clone();
            let bindings = copy_bindings(&user.contexts[ui].1.entries[ai].1);
            let ghost before = out;
            proof {
                lemma_map_get_idx_update(
                    out.contexts@,
                    idx as int,
                    (
                        out.contexts@[idx as int].0,
                        ContextKeybinds { entries: out.contexts@[idx as int].1.entries },
                    ),
                );
            }
            out.contexts[idx].1.insert(action, bindings);
            proof {
                let uentries = user.contexts@[ui as int].1.entries@;
                assert(uentries.take(ai as int).push(uentries[ai as int]) =~~= uentries.take(
                    ai as int + 1,
                ));
                lemma_ctx_get_push_general(uentries, ai as int);
                assert(out.contexts@ == before.contexts@.update(
                    idx as int,
                    out.contexts@[idx as int],
                ));
                assert(out.contexts@[idx as int].0@ == before.contexts@[idx as int].0@);
                lemma_map_get_idx_update(before.contexts@, idx as int, out.contexts@[idx as int]);
                assert forall|x: int| 0 <= x < out.contexts@.len() implies ctx_wf(
                    (#[trigger] out.contexts@[x]).1.entries@,
                ) by {
                    if x != idx as int {
                        assert(out.contexts@[x] == before.contexts@[x]);
                    }
                }
                assert forall|x: int, y: int|
                    0 <= x < y < out.contexts@.len() implies (#[trigger] out.contexts@[x]).0@ != (
                #[trigger] out.contexts@[y]).0@ by {
                    if x != idx as int && y != idx as int {
                        assert(out.contexts@[x] == before.contexts@[x]);
                        assert(out.contexts@[y] == before.contexts@[y]);
                    } else if x == idx as int {
                        assert(out.contexts@[y] == before.contexts@[y]);
                    } else {
                        assert(out.contexts@[x] == before.contexts@[x]);
                    }
                }
            }
            ai += 1;
        }
        proof {
            let uentries = user.contexts@[ui as int].1.entries@;
            assert(uentries.take(an as int) =~~= uentries);
            let cname = user.contexts@[ui as int].0@;
            assert(user.contexts@.take(ui as int + 1) =~~= user.contexts@.take(ui as int).push(
                user.contexts@[ui as int],
            ));
            lemma_map_get_idx_push_general(user.contexts@, ui as int);
            assert(out.contexts@ =~~= mid_out.contexts@.update(
                idx as int,
                out.contexts@[idx as int],
            ));
            assert(out.contexts@[idx as int].0@ == mid_out.contexts@[idx as int].0@);
            lemma_map_get_idx_update(mid_out.contexts@, idx as int, out.contexts@[idx as int]);
            assert forall|c: Seq<char>, a: Seq<char>| #[trigger] lookup(out, c, a) == merged_lookup(
                default,
                user,
                ui as int + 1,
                c,
                a,
            ) by {
                lemma_map_get_idx(user.contexts@.take(ui as int), c);
                lemma_map_get_idx(mid_out.contexts@, c);
                lemma_map_get_idx(out.contexts@, c);
                if c == cname {
                    assert(map_get_idx(user.contexts@.take(ui as int), c) == -1) by {
                        lemma_map_get_idx(user.contexts@.take(ui as int), c);
                        if map_get_idx(user.contexts@.take(ui as int), c) >= 0 {
                            let j = map_get_idx(user.contexts@.take(ui as int), c);
                            assert(user.contexts@.take(ui as int)[j] == user.contexts@[j]);
                            assert(user.contexts@[j].0@ == user.contexts@[ui as int].0@);
                        }
                    }
                    assert(lookup(mid_out, c, a) == lookup(pre_out, c, a)) by {
                        if pre_out != mid_out {
                            lemma_map_get_idx(pre_out.contexts@, c);
                            assert(ctx_get(
                                Seq::<(String, Vec<Binding>)>::empty(),
                                a,
                            ) is None);
                        }
                    }
                } else {
                    assert(map_get_idx(out.contexts@, c) == map_get_idx(mid_out.contexts@, c));
                    if map_get_idx(mid_out.contexts@, c) >= 0 {
                        let j = map_get_idx(mid_out.contexts@, c);
                        assert(j != idx as int) by {
                            assert(mid_out.contexts@[j].0@ == c);
                            assert(mid_out.contexts@[idx as int].0@ == cname);
                        }
                        assert(out.contexts@[j] == mid_out.contexts@[j]);
                    }
                    assert(lookup(mid_out, c, a) == lookup(pre_out, c, a)) by {
                        if pre_out != mid_out {
                            lemma_map_get_idx(pre_out.contexts@, c);
                        }
                    }
                }
            }
        }
        ui += 1;
    }
    proof {
        assert(user.contexts@.take(un as int) =~~= user.contexts@);
    }
    out
}

/// Relies on dirs::config_dir: the platform's configuration directory, if
/// one is known for the current user and environment. The result depends on
/// the environment, so nothing further is assumed of it.
#[verifier::external_body]
fn os_config_dir() -> (r: Option<String>) {
    dirs::config_dir().and_then(|p| p.to_str().map(|s| s.to_string()))
}

/// The editor's configuration directory under a given platform
/// configuration directory: exactly that base with the application's folder
/// appended.
pub fn config_dir_under(base: &str) -> (r: String)
    ensures
        r@ == base@ + "/vibevim"@,
{
    let mut s = String::from_str(base);
    s.append("/vibevim");
    s
}

/// The keybind file's path under a given platform configuration directory:
/// exactly that base with the application's folder and the file name
/// appended.
pub fn keybinds_path_under(base: &str) -> (r: String)
    ensures
        r@ == base@ + "/vibevim/keybinds.json"@,
{
    let mut s = config_dir_under(base);
    s.append("/keybinds.json");
    proof {
        reveal_strlit("/vibevim");
        reveal_strlit("/keybinds.json");
        reveal_strlit("/vibevim/keybinds.json");
        assert(s@ =~= base@ + "/vibevim/keybinds.json"@);
    }
    s
}

/// The editor's configuration directory: the platform configuration
/// directory (an environment-dependent lookup) with the application's
/// folder appended; the append itself is pinned by [`config_dir_under`].
pub fn config_dir() -> (r: Option<String>)
    ensures
        r matches Some(p) ==> (p@.len() >= "/vibevim"@.len() && p@.skip(
            p@.len() - "/vibevim"@.len(),
        ) == "/vibevim"@),
{
    match os_config_dir() {
        Option::Some(base) => {
            let s = config_dir_under(base.as_str());
            proof {
                assert(s@.skip(s@.len() - "/vibevim"@.len()) =~= "/vibevim"@);
            }
            Option::Some(s)
        },
        Option::None => Option::None,
    }
}

/// The path of the keybind configuration file inside the configuration
/// directory; the appended folder and file name are pinned by
/// [`keybinds_path_under`].
pub fn keybinds_path() -> (r: Option<String>)
    ensures
        r matches Some(p) ==> (p@.len() >= "/vibevim/keybinds.json"@.len() && p@.skip(
            p@.len() - "/vibevim/keybinds.json"@.len(),
        ) == "/vibevim/keybinds.json"@),
{
    match os_config_dir() {
        Option::Some(base) => {
            let s = keybinds_path_under(base.as_str());
            proof {
                assert(s@.skip(s@.len() - "/vibevim/keybinds.json"@.len())
                    =~= "/vibevim/keybinds.json"@);
            }
            Option::Some(s)
        },
        Option::None => Option::None,
    }
}

/// What the keybind configuration decoder yields for a given JSON text: the
/// context entries in a stable order, each with its action entries, or
/// nothing for text that is not an object of objects of string arrays.
pub uninterp spec fn keybind_config_of(s: Seq<char>) -> Option<
    Seq<(Seq<char>, Seq<(Seq<char>, Seq<Seq<char>>)>)>,
>;

/// The decoded entries as mathematical values.
pub open spec fn config_entries_view(v: Seq<(String, Vec<(String, Vec<String>)>)>) -> Seq<
    (Seq<char>, Seq<(Seq<char>, Seq<Seq<char>>)>),
> {
    v.map_values(
        |ctx: (String, Vec<(String, Vec<String>)>)|
            (
                ctx.0@,
                ctx.1@.map_values(
                    |ab: (String, Vec<String>)|
                        (ab.0@, ab.1@.map_values(|b: String| b@)),
                ),
            ),
    )
}

/// The decode result as a mathematical value.
pub open spec fn config_view(r: Option<Vec<(String, Vec<(String, Vec<String>)>)>>) -> Option<
    Seq<(Seq<char>, Seq<(Seq<char>, Seq<Seq<char>>)>)>,
> {
    match r {
        Option::None => None,
        Option::Some(v) => Some(config_entries_view(v@)),
    }
}

/// Relies on serde_json::from_str, decoding into ordered maps of ordered
/// maps of string lists: the entries, in key order, are a function of the
/// JSON text alone, here named `keybind_config_of`; text that does not
/// parse as that shape yields nothing.
#[verifier::external_body]
fn decode_keybind_config(s: &str) -> (r: Option<Vec<(String, Vec<(String, Vec<String>)>)>>)
    ensures
        config_view(r) == keybind_config_of(s@),
{
    let parsed: Result<
        std::collections::BTreeMap<String, std::collections::BTreeMap<String, Vec<String>>>,
        serde_json::Error,
    > = serde_json::from_str(s);
    match parsed {
        Err(_) => None,
        Ok(m) => Some(
            m.into_iter().map(|(c, acts)| (c, acts.into_iter().collect())).collect(),
        ),
    }
}

/// The bindings parsed from a list of binding strings, skipping the ones
/// that do not parse.
pub open spec fn binds_of(strs: Seq<Seq<char>>) -> Seq<Binding>
    decreases strs.len(),
{
    if strs.len() == 0 {
        Seq::empty()
    } else {
        let rest = binds_of(strs.drop_last());
        match parse_binding_spec(strs.last()) {
            Some(b) => rest.push(b),
            None => rest,
        }
    }
}

/// The bindings a configuration gives an action in a context: the action's
/// entry of the last occurrence of the context, skipped when no binding
/// string of its last occurrence parses.
pub open spec fn config_lookup(
    cfg: Seq<(Seq<char>, Seq<(Seq<char>, Seq<Seq<char>>)>)>,
    c: Seq<char>,
    a: Seq<char>,
) -> Option<Seq<Binding>>
    decreases cfg.len(),
{
    if cfg.len() == 0 {
        None
    } else if cfg.last().0 == c {
        config_ctx_lookup(cfg.last().1, a)
    } else {
        config_lookup(cfg.drop_last(), c, a)
    }
}

/// The bindings of the last occurrence of an action whose strings parse to
/// at least one binding; occurrences that parse to none are skipped.
pub open spec fn config_ctx_lookup(
    actions: Seq<(Seq<char>, Seq<Seq<char>>)>,
    a: Seq<char>,
) -> Option<Seq<Binding>>
    decreases actions.len(),
{
    if actions.len() == 0 {
        None
    } else if actions.last().0 == a && binds_of(actions.last().1).len() > 0 {
        Some(binds_of(actions.last().1))
    } else {
        config_ctx_lookup(actions.drop_last(), a)
    }
}

/// The bindings parsed from a list of binding strings.
fn parse_bindings(strs: &Vec<String>) -> (r: Vec<Binding>)
    ensures
        r@ == binds_of(strs@.map_values(|b: String| b@)),
{
    let ghost view = strs@.map_values(|b: String| b@);
    let mut out: Vec<Binding> = Vec::new();
    let n = strs.len();
    let mut i: usize = 0;
    proof {
        assert(view.take(0) =~~= Seq::<Seq<char>>::empty());
    }
    while i < n
        invariant
            i <= n,
            n == strs@.len(),
            view == strs@.map_values(|b: String| b@),
            out@ == binds_of(view.take(i as int)),
        decreases n - i,
    {
        proof {
            assert(view[i as int] == strs@[i as int]@);
            assert(view.take(i as int + 1).drop_last() =~~= view.take(i as int));
            assert(view.take(i as int + 1).last() == view[i as int]);
        }
        match parse_binding(strs[i].as_str()) {
            Option::Some(b) => out.push(b),
            Option::None => {},
        }
        i += 1;
    }
    proof {
        assert(view.take(n as int) =~~= view);
    }
    out
}

/// Build a keybind map from decoded configuration entries: every context's
/// actions are registered with the bindings their strings parse to, an
/// action whose strings all fail to parse being skipped; later occurrences
/// of a context or action replace earlier ones.
pub fn keybinds_from_entries(entries: &Vec<(String, Vec<(String, Vec<String>)>)>) -> (r:
    KeybindMap)
    ensures
        map_wf(r),
        forall|c: Seq<char>, a: Seq<char>|
            #[trigger] lookup(r, c, a) == config_lookup(config_entries_view(entries@), c, a),
{
    let ghost cfg = config_entries_view(entries@);
    let mut out = KeybindMap::new();
    let n = entries.len();
    let mut i: usize = 0;
    proof {
        assert(cfg.take(0) =~~= Seq::<(Seq<char>, Seq<(Seq<char>, Seq<Seq<char>>)>)>::empty());
        assert forall|c: Seq<char>, a: Seq<char>| #[trigger] lookup(out, c, a) == config_lookup(
            cfg.take(0),
            c,
            a,
        ) by {
            lemma_map_get_idx(out.contexts@, c);
        }
    }
    while i < n
        invariant
            i <= n,
            n == entries@.len(),
            cfg == config_entries_view(entries@),
            map_wf(out),
            forall|c: Seq<char>, a: Seq<char>|
                #[trigger] lookup(out, c, a) == config_lookup(cfg.take(i as int), c, a),
        decreases n - i,
    {
        proof {
            assert(cfg[i as int] == (
                entries@[i as int].0@,
                entries@[i as int].1@.map_values(
                    |ab: (String, Vec<String>)| (ab.0@, ab.1@.map_values(|b: String| b@)),
                ),
            ));
        }
        let ghost actions_view = cfg[i as int].1;
        let mut ctx = ContextKeybinds::new();
        let acts = &entries[i].1;
        let an = acts.len();
        let mut ai: usize = 0;
        proof {
            assert(actions_view.take(0) =~~= Seq::<(Seq<char>, Seq<Seq<char>>)>::empty());
        }
        while ai < an
            invariant
                ai <= an,
                an == acts@.len(),
                acts == &entries@[i as int].1,
                i < n == entries@.len(),
                cfg == config_entries_view(entries@),
                actions_view == cfg[i as int].1,
                ctx_wf(ctx.entries@),
                forall|a: Seq<char>|
                    #[trigger] ctx_get(ctx.entries@, a) == config_ctx_lookup(
                        actions_view.take(ai as int),
                        a,
                    ),
            decreases an - ai,
        {
            proof {
                assert(actions_view[ai as int] == (
                    acts@[ai as int].0@,
                    acts@[ai as int].1@.map_values(|b: String| b@),
                ));
                assert(actions_view.take(ai as int + 1).drop_last() =~~= actions_view.take(
                    ai as int,
                ));
                assert(actions_view.take(ai as int + 1).last() == actions_view[ai as int]);
            }
            let bs = parse_bindings(&acts[ai].1);
            if bs.len() > 0 {
                let name = acts[ai].0.clone();
                ctx.insert(name, bs);
            }
            ai += 1;
        }
        proof {
            assert(actions_view.take(an as int) =~~= actions_view);
            assert(cfg.take(i as int + 1).drop_last() =~~= cfg.take(i as int));
            assert(cfg.take(i as int + 1).last() == cfg[i as int]);
        }
        let cname = entries[i].0.clone();
        out.insert(cname, ctx);
        i += 1;
    }
    proof {
        assert(cfg.take(n as int) =~~= cfg);
    }
    out
}

/// Build the user keybind map from the contents of the configuration file:
/// nothing when the text does not decode; otherwise the map of every entry
/// whose binding strings parse.
pub fn load_user_keybinds(contents: &str) -> (r: Option<KeybindMap>)
    ensures
        keybind_config_of(contents@) is None ==> r is None,
        keybind_config_of(contents@) matches Some(cfg) ==> (r matches Some(m) && map_wf(m)
            && forall|c: Seq<char>, a: Seq<char>|
            #[trigger] lookup(m, c, a) == config_lookup(cfg, c, a)),
{
    match decode_keybind_config(contents) {
        Option::Some(entries) => Option::Some(keybinds_from_entries(&entries)),
        Option::None => Option::None,
    }
}

/// Relates the fold over one more entry of a context to a push.
proof fn lemma_ctx_get_push_general(uentries: Seq<(String, Vec<Binding>)>, ai: int)
    requires
        0 <= ai < uentries.len(),
        ctx_wf(uentries),
    ensures
        forall|a: Seq<char>|
            #[trigger] ctx_get(uentries.take(ai + 1), a) == if a == uentries[ai].0@ {
                Some(uentries[ai].1@)
            } else {
                ctx_get(uentries.take(ai), a)
            },
{
    assert(uentries.take(ai + 1) =~~= uentries.take(ai).push(uentries[ai]));
    assert(forall|j: int| 0 <= j < ai ==> uentries.take(ai)[j] == #[trigger] uentries[j]);
    lemma_ctx_get_push(uentries.take(ai), uentries[ai]);
}

/// Relates the index search over one more context to a push.
proof fn lemma_map_get_idx_push_general(contexts: Seq<(String, ContextKeybinds)>, ui: int)
    requires
        0 <= ui < contexts.len(),
    ensures
        forall|c: Seq<char>|
            #[trigger] map_get_idx(contexts.take(ui + 1), c) == if map_get_idx(
                contexts.take(ui),
                c,
            ) >= 0 {
                map_get_idx(contexts.take(ui), c)
            } else if contexts[ui].0@ == c {
                ui
            } else {
                -1int
            },
{
    assert(contexts.take(ui + 1) =~~= contexts.take(ui).push(contexts[ui]));
    lemma_map_get_idx_push(contexts.take(ui), contexts[ui]);
}

impl KeybindMap {
    /// Register a whole context under the given name, replacing any context
    /// it already had.
    pub fn insert(&mut self, name: String, ctx: ContextKeybinds)
        requires
            map_wf(*old(self)),
            ctx_wf(ctx.entries@),
        ensures
            map_wf(*final(self)),
            forall|c: Seq<char>, a: Seq<char>|
                #[trigger] lookup(*final(self), c, a) == if c == name@ {
                    ctx_get(ctx.entries@, a)
                } else {
                    lookup(*old(self), c, a)
                },
    {
        let ghost centries = ctx.entries@;
        match self.find_context(name.as_str()) {
            Option::Some(i) => {
                proof {
                    lemma_map_get_idx(self.contexts@, name@);
                    lemma_map_get_idx_update(self.contexts@, i as int, (name, ctx));
                }
                let ghost pre = *self;
                self.contexts[i] = (name, ctx);
                proof {
                    assert forall|x: int, y: int|
                        0 <= x < y < self.contexts@.len() implies (#[trigger] self.contexts@[x]).0@
                        != (#[trigger] self.contexts@[y]).0@ by {
                        if x != i as int && y != i as int {
                            assert(self.contexts@[x] == pre.contexts@[x]);
                            assert(self.contexts@[y] == pre.contexts@[y]);
                        } else if x == i as int {
                            assert(self.contexts@[y] == pre.contexts@[y]);
                            assert(self.contexts@[x].0@ == pre.contexts@[i as int].0@);
                        } else {
                            assert(self.contexts@[x] == pre.contexts@[x]);
                            assert(self.contexts@[y].0@ == pre.contexts@[i as int].0@);
                        }
                    }
                    assert forall|x: int| 0 <= x < self.contexts@.len() implies ctx_wf(
                        (#[trigger] self.contexts@[x]).1.entries@,
                    ) by {
                        if x != i as int {
                            assert(self.contexts@[x] == pre.contexts@[x]);
                        }
                    }
                    assert forall|c: Seq<char>, a: Seq<char>| #[trigger] lookup(*self, c, a) == (
                    if c == name@ {
                        ctx_get(centries, a)
                    } else {
                        lookup(pre, c, a)
                    }) by {
                        lemma_map_get_idx(pre.contexts@, c);
                        if c == name@ {
                        } else {
                            let j = map_get_idx(pre.contexts@, c);
                            if j >= 0 {
                                assert(self.contexts@[j] == pre.contexts@[j]);
                            }
                        }
                    }
                }
            },
            Option::None => {
                let ghost pre = *self;
                self.contexts.push((name, ctx));
                proof {
                    lemma_map_get_idx_push(pre.contexts@, self.contexts@.last());
                    lemma_map_get_idx(pre.contexts@, name@);
                    assert forall|x: int, y: int|
                        0 <= x < y < self.contexts@.len() implies (#[trigger] self.contexts@[x]).0@
                        != (#[trigger] self.contexts@[y]).0@ by {
                        if y < self.contexts@.len() - 1 {
                            assert(self.contexts@[x] == pre.contexts@[x]);
                            assert(self.contexts@[y] == pre.contexts@[y]);
                        } else {
                            assert(self.contexts@[x] == pre.contexts@[x]);
                        }
                    }
                    assert forall|x: int| 0 <= x < self.contexts@.len() implies ctx_wf(
                        (#[trigger] self.contexts@[x]).1.entries@,
                    ) by {
                        if x < self.contexts@.len() - 1 {
                            assert(self.contexts@[x] == pre.contexts@[x]);
                        }
                    }
                    assert forall|c: Seq<char>, a: Seq<char>| #[trigger] lookup(*self, c, a) == (
                    if c == name@ {
                        ctx_get(centries, a)
                    } else {
                        lookup(pre, c, a)
                    }) by {
                        lemma_map_get_idx(pre.contexts@, c);
                        let j = map_get_idx(pre.contexts@, c);
                        if c == name@ {
                        } else if j >= 0 {
                            assert(self.contexts@[j] == pre.contexts@[j]);
                        }
                    }
                }
            },
        }
    }
}

/// The first binding in the list whose first key matches exactly.
pub open spec fn first_fk_match(bs: Seq<Binding>, k: KeyEvent) -> Option<Binding>
    decreases bs.len(),
{
    if bs.len() == 0 {
        None
    } else if first_key_match(bs[0], k) {
        Some(bs[0])
    } else {
        first_fk_match(bs.skip(1), k)
    }
}

/// Some binding in the list is completed by the key as a chord's second key.
pub open spec fn any_second_match(bs: Seq<Binding>, k: KeyEvent) -> bool {
    exists|i: int| 0 <= i < bs.len() && second_key_match(#[trigger] bs[i], k)
}

/// Scan a context's entries in order for the first action one of whose
/// bindings matches the key as a first key; report whether that binding is
/// a chord.
pub open spec fn scan_first_key(entries: Seq<(String, Vec<Binding>)>, k: KeyEvent) -> Option<
    (Seq<char>, bool),
>
    decreases entries.len(),
{
    if entries.len() == 0 {
        None
    } else {
        match first_fk_match(entries[0].1@, k) {
            Some(b) => Some((entries[0].0@, b is Chord)),
            None => scan_first_key(entries.skip(1), k),
        }
    }
}

/// First binding in the list whose first key matches the key exactly.
fn find_first_fk(bs: &Vec<Binding>, key: &KeyEvent) -> (r: Option<Binding>)
    ensures
        r == first_fk_match(bs@, *key),
{
    let n = bs.len();
    let mut i: usize = 0;
    proof {
        assert(bs@.skip(0) =~= bs@);
    }
    while i < n
        invariant
            i <= n,
            n == bs@.len(),
            first_fk_match(bs@, *key) == first_fk_match(bs@.skip(i as int), *key),
        decreases n - i,
    {
        proof {
            assert(bs@.skip(i as int)[0] == bs@[i as int]);
            assert(bs@.skip(i as int).skip(1) =~= bs@.skip(i as int + 1));
        }
        if bs[i].matches_first_key(key) {
            return Option::Some(bs[i]);
        }
        i += 1;
    }
    proof {
        assert(bs@.skip(n as int) =~= Seq::<Binding>::empty());
    }
    Option::None
}

/// Whether some binding in the list is completed by the key.
fn find_second(bs: &Vec<Binding>, key: &KeyEvent) -> (r: bool)
    ensures
        r == any_second_match(bs@, *key),
{
    let n = bs.len();
    let mut i: usize = 0;
    while i < n
        invariant
            i <= n,
            n == bs@.len(),
            forall|j: int| 0 <= j < i ==> !second_key_match(#[trigger] bs@[j], *key),
        decreases n - i,
    {
        if bs[i].matches_second_key(key) {
            return true;
        }
        i += 1;
    }
    false
}

/// Resolve a key in a context to an action name. If a chord is pending for
/// an action of this context and the key completes one of that action's
/// chords, that action is reported with `true`; otherwise the context's
/// entries are scanned in order for a single-key or chord-first-key match,
/// reporting whether the matched binding is a chord.
pub fn resolve_action(
    keybinds: &KeybindMap,
    context: &str,
    key: &KeyEvent,
    pending_chord: Option<(&str, &ParsedKey)>,
) -> (r: Option<(String, bool)>)
    ensures
        map_get_idx(keybinds.contexts@, context@) < 0 ==> r is None,
        map_get_idx(keybinds.contexts@, context@) >= 0 ==> ({
            let entries =
                keybinds.contexts@[map_get_idx(keybinds.contexts@, context@)].1.entries@;
            let pend_hit = match pending_chord {
                Some(pc) => match ctx_get(entries, pc.0@) {
                    Some(bs) => any_second_match(bs, *key),
                    None => false,
                },
                None => false,
            };
            if pend_hit {
                r matches Some(p) && p.0@ == pending_chord->Some_0.0@ && p.1 == true
            } else {
                match scan_first_key(entries, *key) {
                    Some(hit) => r matches Some(p) && p.0@ == hit.0 && p.1 == hit.1,
                    None => r is None,
                }
            }
        }),
{
    let ctx = match keybinds.get_context(context) {
        Option::Some(c) => c,
        Option::None => {
            return Option::None;
        },
    };
    if let Option::Some((action, _second)) = pending_chord {
        if let Option::Some(bs) = ctx.get(action) {
            if find_second(bs, key) {
                return Option::Some((String::from_str(action), true));
            }
        }
    }
    let n = ctx.entries.len();
    let mut i: usize = 0;
    proof {
        assert(ctx.entries@.skip(0) =~= ctx.entries@);
    }
    while i < n
        invariant
            i <= n,
            n == ctx.entries@.len(),
            map_get_idx(keybinds.contexts@, context@) >= 0,
            *ctx == keybinds.contexts@[map_get_idx(keybinds.contexts@, context@)].1,
            scan_first_key(ctx.entries@, *key) == scan_first_key(
                ctx.entries@.skip(i as int),
                *key,
            ),
            (match pending_chord {
                Option::Some(pc) => match ctx_get(ctx.entries@, pc.0@) {
                    Some(bs) => !any_second_match(bs, *key),
                    None => true,
                },
                Option::None => true,
            }),
        decreases n - i,
    {
        proof {
            assert(ctx.entries@.skip(i as int)[0] == ctx.entries@[i as int]);
            assert(ctx.entries@.skip(i as int).skip(1) =~= ctx.entries@.skip(i as int + 1));
        }
        if let Option::Some(b) = find_first_fk(&ctx.entries[i].1, key) {
            let name = String::from_str(ctx.entries[i].0.as_str());
            return Option::Some((name, b.is_chord()));
        }
        i += 1;
    }
    proof {
        assert(ctx.entries@.skip(n as int) =~= Seq::<(String, Vec<Binding>)>::empty());
    }
    Option::None
}

/// The first chord binding in the list whose first key matches exactly.
pub open spec fn first_chord_match(bs: Seq<Binding>, k: KeyEvent) -> Option<Binding>
    decreases bs.len(),
{
    if bs.len() == 0 {
        None
    } else if bs[0] is Chord && first_key_match(bs[0], k) {
        Some(bs[0])
    } else {
        first_chord_match(bs.skip(1), k)
    }
}

/// Scan the entries for the first action with a chord whose first key
/// matches; yields the action name and the chord's second key.
pub open spec fn scan_chord_first(entries: Seq<(String, Vec<Binding>)>, k: KeyEvent) -> Option<
    (Seq<char>, ParsedKey),
>
    decreases entries.len(),
{
    if entries.len() == 0 {
        None
    } else {
        match first_chord_match(entries[0].1@, k) {
            Some(b) => Some((entries[0].0@, b->Chord_1)),
            None => scan_chord_first(entries.skip(1), k),
        }
    }
}

/// When the key matches the first key of a chord in the given context,
/// return the action's name and the chord's second key, so the caller can
/// arm the pending state.
pub fn resolve_first_key_chord(keybinds: &KeybindMap, context: &str, key: &KeyEvent) -> (r: Option<
    (String, ParsedKey),
>)
    ensures
        map_get_idx(keybinds.contexts@, context@) < 0 ==> r is None,
        map_get_idx(keybinds.contexts@, context@) >= 0 ==> ({
            let entries =
                keybinds.contexts@[map_get_idx(keybinds.contexts@, context@)].1.entries@;
            match scan_chord_first(entries, *key) {
                Some(hit) => r matches Some(p) && p.0@ == hit.0 && p.1 == hit.1,
                None => r is None,
            }
        }),
{
    let ctx = match keybinds.get_context(context) {
        Option::Some(c) => c,
        Option::None => {
            return Option::None;
        },
    };
    let n = ctx.entries.len();
    let mut i: usize = 0;
    proof {
        assert(ctx.entries@.skip(0) =~= ctx.entries@);
    }
    while i < n
        invariant
            i <= n,
            n == ctx.entries@.len(),
            map_get_idx(keybinds.contexts@, context@) >= 0,
            *ctx == keybinds.contexts@[map_get_idx(keybinds.contexts@, context@)].1,
            scan_chord_first(ctx.entries@, *key) == scan_chord_first(
                ctx.entries@.skip(i as int),
                *key,
            ),
        decreases n - i,
    {
        proof {
            assert(ctx.entries@.skip(i as int)[0] == ctx.entries@[i as int]);
            assert(ctx.entries@.skip(i as int).skip(1) =~= ctx.entries@.skip(i as int + 1));
        }
        let bs = &ctx.entries[i].1;
        let bn = bs.len();
        let mut j: usize = 0;
        proof {
            assert(bs@.skip(0) =~= bs@);
        }
        while j < bn
            invariant
                j <= bn,
                bn == bs@.len(),
                i < n == ctx.entries@.len(),
                map_get_idx(keybinds.contexts@, context@) >= 0,
                *ctx == keybinds.contexts@[map_get_idx(keybinds.contexts@, context@)].1,
                bs == &ctx.entries@[i as int].1,
                scan_chord_first(ctx.entries@, *key) == scan_chord_first(
                    ctx.entries@.skip(i as int),
                    *key,
                ),
                first_chord_match(bs@, *key) == first_chord_match(bs@.skip(j as int), *key),
            decreases bn - j,
        {
            proof {
                assert(bs@.skip(j as int)[0] == bs@[j as int]);
                assert(bs@.skip(j as int).skip(1) =~= bs@.skip(j as int + 1));
            }
            if let Binding::Chord(first, second) = bs[j] {
                if first.matches(key) {
                    let name = String::from_str(ctx.entries[i].0.as_str());
                    return Option::Some((name, second));
                }
            }
            j += 1;
        }
        proof {
            assert(bs@.skip(bn as int) =~= Seq::<Binding>::empty());
        }
        i += 1;
    }
    proof {
        assert(ctx.entries@.skip(n as int) =~= Seq::<(String, Vec<Binding>)>::empty());
    }
    Option::None
}

/// The first chord binding with the given first key that the key completes.
pub open spec fn first_chord_completion(bs: Seq<Binding>, first: ParsedKey, k: KeyEvent) -> bool
    decreases bs.len(),
{
    exists|i: int|
        0 <= i < bs.len() && ((#[trigger] bs[i]) matches Binding::Chord(f, s) && f == first
            && key_match_allow_shift(s, k))
}

/// Scan the entries for the first action with a chord that starts with the
/// pending first key and is completed by this key.
pub open spec fn scan_chord_second(
    entries: Seq<(String, Vec<Binding>)>,
    first: ParsedKey,
    k: KeyEvent,
) -> Option<Seq<char>>
    decreases entries.len(),
{
    if entries.len() == 0 {
        None
    } else if first_chord_completion(entries[0].1@, first, k) {
        Some(entries[0].0@)
    } else {
        scan_chord_second(entries.skip(1), first, k)
    }
}

/// Find which action's chord, armed with the given first key, this key
/// completes.
pub fn resolve_chord_second(
    keybinds: &KeybindMap,
    context: &str,
    key: &KeyEvent,
    pending_first_key: &ParsedKey,
) -> (r: Option<String>)
    ensures
        map_get_idx(keybinds.contexts@, context@) < 0 ==> r is None,
        map_get_idx(keybinds.contexts@, context@) >= 0 ==> ({
            let entries =
                keybinds.contexts@[map_get_idx(keybinds.contexts@, context@)].1.entries@;
            match scan_chord_second(entries, *pending_first_key, *key) {
                Some(nm) => r matches Some(p) && p@ == nm,
                None => r is None,
            }
        }),
{
    let ctx = match keybinds.get_context(context) {
        Option::Some(c) => c,
        Option::None => {
            return Option::None;
        },
    };
    let n = ctx.entries.len();
    let mut i: usize = 0;
    proof {
        assert(ctx.entries@.skip(0) =~= ctx.entries@);
    }
    while i < n
        invariant
            i <= n,
            n == ctx.entries@.len(),
            map_get_idx(keybinds.contexts@, context@) >= 0,
            *ctx == keybinds.contexts@[map_get_idx(keybinds.contexts@, context@)].1,
            scan_chord_second(ctx.entries@, *pending_first_key, *key) == scan_chord_second(
                ctx.entries@.skip(i as int),
                *pending_first_key,
                *key,
            ),
        decreases n - i,
    {
        proof {
            assert(ctx.entries@.skip(i as int)[0] == ctx.entries@[i as int]);
            assert(ctx.entries@.skip(i as int).skip(1) =~= ctx.entries@.skip(i as int + 1));
        }
        let bs = &ctx.entries[i].1;
        let bn = bs.len();
        let mut j: usize = 0;
        while j < bn
            invariant
                j <= bn,
                bn == bs@.len(),
                i < n == ctx.entries@.len(),
                map_get_idx(keybinds.contexts@, context@) >= 0,
                *ctx == keybinds.contexts@[map_get_idx(keybinds.contexts@, context@)].1,
                bs == &ctx.entries@[i as int].1,
                scan_chord_second(ctx.entries@, *pending_first_key, *key) == scan_chord_second(
                    ctx.entries@.skip(i as int),
                    *pending_first_key,
                    *key,
                ),
                forall|x: int|
                    0 <= x < j ==> !((#[trigger] bs@[x]) matches Binding::Chord(f, s) && (f
                        == *pending_first_key && key_match_allow_shift(s, *key))),
            decreases bn - j,
        {
            if let Binding::Chord(first, second) = bs[j] {
                if first.matches_key(pending_first_key) && second.matches_allow_shift(key) {
                    let name = String::from_str(ctx.entries[i].0.as_str());
                    proof {
                        assert(first_chord_completion(bs@, *pending_first_key, *key));
                    }
                    return Option::Some(name);
                }
            }
            j += 1;
        }
        proof {
            assert(!first_chord_completion(ctx.entries@[i as int].1@, *pending_first_key, *key));
        }
        i += 1;
    }
    proof {
        assert(ctx.entries@.skip(n as int) =~= Seq::<(String, Vec<Binding>)>::empty());
    }
    Option::None
}

impl ParsedKey {
    /// Whether two parsed keys are the same key.
    fn matches_key(&self, other: &ParsedKey) -> (r: bool)
        ensures
            r == (*self == *other),
    {
        self.code == other.code && self.modifiers == other.modifiers
    }
}


/// A key with no modifiers.
pub open spec fn pkey(code: KeyCode) -> ParsedKey {
    ParsedKey { code, modifiers: KeyModifiers::empty_spec() }
}

/// The modifier set holding only control.
pub open spec fn ctrl_mods() -> KeyModifiers {
    KeyModifiers { ctrl: true, alt: false, shift: false, sup: false }
}

/// A single-key binding with no modifiers.
pub open spec fn skey(code: KeyCode) -> Binding {
    Binding::Single(pkey(code))
}

/// A two-key chord binding with no modifiers.
pub open spec fn ckey(a: KeyCode, b: KeyCode) -> Binding {
    Binding::Chord(pkey(a), pkey(b))
}

/// The name and bindings of entry `i` of context `c`.
pub open spec fn entry_at(m: KeybindMap, c: int, i: int) -> (Seq<char>, Seq<Binding>) {
    (m.contexts@[c].1.entries@[i].0@, m.contexts@[c].1.entries@[i].1@)
}

/// A single-key binding with no modifiers.
fn sk(code: KeyCode) -> (r: Binding)
    ensures
        r == skey(code),
{
    Binding::Single(ParsedKey { code, modifiers: KeyModifiers::empty() })
}

/// A key with no modifiers.
fn pk(code: KeyCode) -> (r: ParsedKey)
    ensures
        r == pkey(code),
{
    ParsedKey { code, modifiers: KeyModifiers::empty() }
}

/// A two-key chord binding with no modifiers.
fn ck(a: KeyCode, b: KeyCode) -> (r: Binding)
    ensures
        r == ckey(a, b),
{
    Binding::Chord(pk(a), pk(b))
}

/// The modifier set holding only control.
fn ctrl_m() -> (r: KeyModifiers)
    ensures
        r == ctrl_mods(),
{
    KeyModifiers { ctrl: true, alt: false, shift: false, sup: false }
}

/// The built-in keybind table: the global application chords, the explorer
/// keys, and the Normal, Insert, Command and Search mode keys.
#[verifier::rlimit(100)]
pub fn default_keybinds() -> (r: KeybindMap)
    ensures
        r.contexts@.len() == 6,
        r.contexts@[0].0@ == "global"@,
        r.contexts@[0].1.entries@.len() == 3,
        entry_at(r, 0, 0) == ("toggle_sidebar"@, seq![ckey(KeyCode::Char(' '), KeyCode::Char('e')), ckey(KeyCode::Char(' '), KeyCode::Char('E'))]),
        entry_at(r, 0, 1) == ("focus_explorer_toggle"@, seq![Binding::Chord(ParsedKey { code: KeyCode::Char('w'), modifiers: ctrl_mods() }, pkey(KeyCode::Char('w')))]),
        entry_at(r, 0, 2) == ("enter_command_mode"@, seq![skey(KeyCode::Char(':'))]),
        r.contexts@[1].0@ == "explorer"@,
        r.contexts@[1].1.entries@.len() == 2,
        entry_at(r, 1, 0) == ("refresh"@, seq![skey(KeyCode::Char('r')), skey(KeyCode::Char('R')), skey(KeyCode::F(5))]),
        entry_at(r, 1, 1) == ("open_enter"@, seq![skey(KeyCode::Enter), skey(KeyCode::Char('l')), skey(KeyCode::Right)]),
        r.contexts@[2].0@ == "normal"@,
        r.contexts@[2].1.entries@.len() == 33,
        entry_at(r, 2, 0) == ("move_left"@, seq![skey(KeyCode::Char('h')), skey(KeyCode::Left)]),
        entry_at(r, 2, 1) == ("move_down"@, seq![skey(KeyCode::Char('j')), skey(KeyCode::Down)]),
        entry_at(r, 2, 2) == ("move_up"@, seq![skey(KeyCode::Char('k')), skey(KeyCode::Up)]),
        entry_at(r, 2, 3) == ("move_right"@, seq![skey(KeyCode::Char('l')), skey(KeyCode::Right)]),
        entry_at(r, 2, 4) == ("move_word_forward"@, seq![skey(KeyCode::Char('w'))]),
        entry_at(r, 2, 5) == ("move_word_backward"@, seq![skey(KeyCode::Char('b'))]),
        entry_at(r, 2, 6) == ("move_to_end_of_word"@, seq![skey(KeyCode::Char('e'))]),
        entry_at(r, 2, 7) == ("move_word_forward_W"@, seq![skey(KeyCode::Char('W'))]),
        entry_at(r, 2, 8) == ("move_word_backward_B"@, seq![skey(KeyCode::Char('B'))]),
        entry_at(r, 2, 9) == ("move_to_end_of_word_E"@, seq![skey(KeyCode::Char('E'))]),
        entry_at(r, 2, 10) == ("move_to_line_start"@, seq![skey(KeyCode::Char('0'))]),
        entry_at(r, 2, 11) == ("move_to_line_end"@, seq![skey(KeyCode::Char('$'))]),
        entry_at(r, 2, 12) == ("move_to_first_non_blank"@, seq![skey(KeyCode::Char('^'))]),
        entry_at(r, 2, 13) == ("move_to_last_line"@, seq![skey(KeyCode::Char('G'))]),
        entry_at(r, 2, 14) == ("move_paragraph_prev"@, seq![skey(KeyCode::Char('{'))]),
        entry_at(r, 2, 15) == ("move_paragraph_next"@, seq![skey(KeyCode::Char('}'))]),
        entry_at(r, 2, 16) == ("move_to_first_line"@, seq![ckey(KeyCode::Char('g'), KeyCode::Char('g'))]),
        entry_at(r, 2, 17) == ("enter_insert_mode"@, seq![skey(KeyCode::Char('i'))]),
        entry_at(r, 2, 18) == ("enter_insert_mode_append"@, seq![skey(KeyCode::Char('a'))]),
        entry_at(r, 2, 19) == ("enter_insert_mode_end"@, seq![skey(KeyCode::Char('A'))]),
        entry_at(r, 2, 20) == ("enter_insert_mode_start"@, seq![skey(KeyCode::Char('I'))]),
        entry_at(r, 2, 21) == ("open_line_below"@, seq![skey(KeyCode::Char('o'))]),
        entry_at(r, 2, 22) == ("open_line_above"@, seq![skey(KeyCode::Char('O'))]),
        entry_at(r, 2, 23) == ("delete_char_at_cursor"@, seq![skey(KeyCode::Char('x'))]),
        entry_at(r, 2, 24) == ("delete_to_end_of_line"@, seq![skey(KeyCode::Char('D'))]),
        entry_at(r, 2, 25) == ("join_lines"@, seq![skey(KeyCode::Char('J'))]),
        entry_at(r, 2, 26) == ("delete_current_line"@, seq![ckey(KeyCode::Char('d'), KeyCode::Char('d'))]),
        entry_at(r, 2, 27) == ("replace_char"@, seq![skey(KeyCode::Char('r'))]),
        entry_at(r, 2, 28) == ("enter_command_mode"@, seq![skey(KeyCode::Char(':'))]),
        entry_at(r, 2, 29) == ("enter_search_mode"@, seq![skey(KeyCode::Char('/'))]),
        entry_at(r, 2, 30) == ("repeat_search_forward"@, seq![skey(KeyCode::Char('n'))]),
        entry_at(r, 2, 31) == ("repeat_search_backward"@, seq![skey(KeyCode::Char('N'))]),
        entry_at(r, 2, 32) == ("return_to_normal"@, seq![Binding::Single(ParsedKey { code: KeyCode::Char('c'), modifiers: ctrl_mods() })]),
        r.contexts@[3].0@ == "insert"@,
        r.contexts@[3].1.entries@.len() == 9,
        entry_at(r, 3, 0) == ("enter_normal_mode"@, seq![skey(KeyCode::Esc)]),
        entry_at(r, 3, 1) == ("backspace"@, seq![skey(KeyCode::Backspace)]),
        entry_at(r, 3, 2) == ("insert_newline"@, seq![skey(KeyCode::Enter)]),
        entry_at(r, 3, 3) == ("return_to_normal"@, seq![Binding::Single(ParsedKey { code: KeyCode::Char('c'), modifiers: ctrl_mods() })]),
        entry_at(r, 3, 4) == ("move_left"@, seq![skey(KeyCode::Left)]),
        entry_at(r, 3, 5) == ("move_right"@, seq![skey(KeyCode::Right)]),
        entry_at(r, 3, 6) == ("move_up"@, seq![skey(KeyCode::Up)]),
        entry_at(r, 3, 7) == ("move_down"@, seq![skey(KeyCode::Down)]),
        entry_at(r, 3, 8) == ("insert_tab"@, seq![skey(KeyCode::Tab)]),
        r.contexts@[4].0@ == "command"@,
        r.contexts@[4].1.entries@.len() == 3,
        entry_at(r, 4, 0) == ("cancel"@, seq![skey(KeyCode::Esc)]),
        entry_at(r, 4, 1) == ("execute"@, seq![skey(KeyCode::Enter)]),
        entry_at(r, 4, 2) == ("backspace"@, seq![skey(KeyCode::Backspace)]),
        r.contexts@[5].0@ == "search"@,
        r.contexts@[5].1.entries@.len() == 3,
        entry_at(r, 5, 0) == ("cancel"@, seq![skey(KeyCode::Esc)]),
        entry_at(r, 5, 1) == ("search_forward"@, seq![skey(KeyCode::Enter)]),
        entry_at(r, 5, 2) == ("backspace"@, seq![skey(KeyCode::Backspace)]),
        map_wf(r),
{
    let mut contexts: Vec<(String, ContextKeybinds)> = Vec::new();
    let mut es0: Vec<(String, Vec<Binding>)> = Vec::new();
    let mut v0_0: Vec<Binding> = Vec::new();
    v0_0.push(ck(KeyCode::Char(' '), KeyCode::Char('e')));
    v0_0.push(ck(KeyCode::Char(' '), KeyCode::Char('E')));
    es0.push((String::from_str("toggle_sidebar"), v0_0));
    let mut v0_1: Vec<Binding> = Vec::new();
    v0_1.push(Binding::Chord(ParsedKey { code: KeyCode::Char('w'), modifiers: ctrl_m() }, pk(KeyCode::Char('w'))));
    es0.push((String::from_str("focus_explorer_toggle"), v0_1));
    let mut v0_2: Vec<Binding> = Vec::new();
    v0_2.push(sk(KeyCode::Char(':')));
    es0.push((String::from_str("enter_command_mode"), v0_2));
    contexts.push((String::from_str("global"), ContextKeybinds { entries: es0 }));
    let mut es1: Vec<(String, Vec<Binding>)> = Vec::new();
    let mut v1_0: Vec<Binding> = Vec::new();
    v1_0.push(sk(KeyCode::Char('r')));
    v1_0.push(sk(KeyCode::Char('R')));
    v1_0.push(sk(KeyCode::F(5)));
    es1.push((String::from_str("refresh"), v1_0));
    let mut v1_1: Vec<Binding> = Vec::new();
    v1_1.push(sk(KeyCode::Enter));
    v1_1.push(sk(KeyCode::Char('l')));
    v1_1.push(sk(KeyCode::Right));
    es1.push((String::from_str("open_enter"), v1_1));
    contexts.push((String::from_str("explorer"), ContextKeybinds { entries: es1 }));
    let mut es2: Vec<(String, Vec<Binding>)> = Vec::new();
    let mut v2_0: Vec<Binding> = Vec::new();
    v2_0.push(sk(KeyCode::Char('h')));
    v2_0.push(sk(KeyCode::Left));
    es2.push((String::from_str("move_left"), v2_0));
    let mut v2_1: Vec<Binding> = Vec::new();
    v2_1.push(sk(KeyCode::Char('j')));
    v2_1.push(sk(KeyCode::Down));
    es2.push((String::from_str("move_down"), v2_1));
    let mut v2_2: Vec<Binding> = Vec::new();
    v2_2.push(sk(KeyCode::Char('k')));
    v2_2.push(sk(KeyCode::Up));
    es2.push((String::from_str("move_up"), v2_2));
    let mut v2_3: Vec<Binding> = Vec::new();
    v2_3.push(sk(KeyCode::Char('l')));
    v2_3.push(sk(KeyCode::Right));
    es2.push((String::from_str("move_right"), v2_3));
    let mut v2_4: Vec<Binding> = Vec::new();
    v2_4.push(sk(KeyCode::Char('w')));
    es2.push((String::from_str("move_word_forward"), v2_4));
    let mut v2_5: Vec<Binding> = Vec::new();
    v2_5.push(sk(KeyCode::Char('b')));
    es2.push((String::from_str("move_word_backward"), v2_5));
    let mut v2_6: Vec<Binding> = Vec::new();
    v2_6.push(sk(KeyCode::Char('e')));
    es2.push((String::from_str("move_to_end_of_word"), v2_6));
    let mut v2_7: Vec<Binding> = Vec::new();
    v2_7.push(sk(KeyCode::Char('W')));
    es2.push((String::from_str("move_word_forward_W"), v2_7));
    let mut v2_8: Vec<Binding> = Vec::new();
    v2_8.push(sk(KeyCode::Char('B')));
    es2.push((String::from_str("move_word_backward_B"), v2_8));
    let mut v2_9: Vec<Binding> = Vec::new();
    v2_9.push(sk(KeyCode::Char('E')));
    es2.push((String::from_str("move_to_end_of_word_E"), v2_9));
    let mut v2_10: Vec<Binding> = Vec::new();
    v2_10.push(sk(KeyCode::Char('0')));
    es2.push((String::from_str("move_to_line_start"), v2_10));
    let mut v2_11: Vec<Binding> = Vec::new();
    v2_11.push(sk(KeyCode::Char('$')));
    es2.push((String::from_str("move_to_line_end"), v2_11));
    let mut v2_12: Vec<Binding> = Vec::new();
    v2_12.push(sk(KeyCode::Char('^')));
    es2.push((String::from_str("move_to_first_non_blank"), v2_12));
    let mut v2_13: Vec<Binding> = Vec::new();
    v2_13.push(sk(KeyCode::Char('G')));
    es2.push((String::from_str("move_to_last_line"), v2_13));
    let mut v2_14: Vec<Binding> = Vec::new();
    v2_14.push(sk(KeyCode::Char('{')));
    es2.push((String::from_str("move_paragraph_prev"), v2_14));
    let mut v2_15: Vec<Binding> = Vec::new();
    v2_15.push(sk(KeyCode::Char('}')));
    es2.push((String::from_str("move_paragraph_next"), v2_15));
    let mut v2_16: Vec<Binding> = Vec::new();
    v2_16.push(ck(KeyCode::Char('g'), KeyCode::Char('g')));
    es2.push((String::from_str("move_to_first_line"), v2_16));
    let mut v2_17: Vec<Binding> = Vec::new();
    v2_17.push(sk(KeyCode::Char('i')));
    es2.push((String::from_str("enter_insert_mode"), v2_17));
    let mut v2_18: Vec<Binding> = Vec::new();
    v2_18.push(sk(KeyCode::Char('a')));
    es2.push((String::from_str("enter_insert_mode_append"), v2_18));
    let mut v2_19: Vec<Binding> = Vec::new();
    v2_19.push(sk(KeyCode::Char('A')));
    es2.push((String::from_str("enter_insert_mode_end"), v2_19));
    let mut v2_20: Vec<Binding> = Vec::new();
    v2_20.push(sk(KeyCode::Char('I')));
    es2.push((String::from_str("enter_insert_mode_start"), v2_20));
    let mut v2_21: Vec<Binding> = Vec::new();
    v2_21.push(sk(KeyCode::Char('o')));
    es2.push((String::from_str("open_line_below"), v2_21));
    let mut v2_22: Vec<Binding> = Vec::new();
    v2_22.push(sk(KeyCode::Char('O')));
    es2.push((String::from_str("open_line_above"), v2_22));
    let mut v2_23: Vec<Binding> = Vec::new();
    v2_23.push(sk(KeyCode::Char('x')));
    es2.push((String::from_str("delete_char_at_cursor"), v2_23));
    let mut v2_24: Vec<Binding> = Vec::new();
    v2_24.push(sk(KeyCode::Char('D')));
    es2.push((String::from_str("delete_to_end_of_line"), v2_24));
    let mut v2_25: Vec<Binding> = Vec::new();
    v2_25.push(sk(KeyCode::Char('J')));
    es2.push((String::from_str("join_lines"), v2_25));
    let mut v2_26: Vec<Binding> = Vec::new();
    v2_26.push(ck(KeyCode::Char('d'), KeyCode::Char('d')));
    es2.push((String::from_str("delete_current_line"), v2_26));
    let mut v2_27: Vec<Binding> = Vec::new();
    v2_27.push(sk(KeyCode::Char('r')));
    es2.push((String::from_str("replace_char"), v2_27));
    let mut v2_28: Vec<Binding> = Vec::new();
    v2_28.push(sk(KeyCode::Char(':')));
    es2.push((String::from_str("enter_command_mode"), v2_28));
    let mut v2_29: Vec<Binding> = Vec::new();
    v2_29.push(sk(KeyCode::Char('/')));
    es2.push((String::from_str("enter_search_mode"), v2_29));
    let mut v2_30: Vec<Binding> = Vec::new();
    v2_30.push(sk(KeyCode::Char('n')));
    es2.push((String::from_str("repeat_search_forward"), v2_30));
    let mut v2_31: Vec<Binding> = Vec::new();
    v2_31.push(sk(KeyCode::Char('N')));
    es2.push((String::from_str("repeat_search_backward"), v2_31));
    let mut v2_32: Vec<Binding> = Vec::new();
    v2_32.push(Binding::Single(ParsedKey { code: KeyCode::Char('c'), modifiers: ctrl_m() }));
    es2.push((String::from_str("return_to_normal"), v2_32));
    contexts.push((String::from_str("normal"), ContextKeybinds { entries: es2 }));
    let mut es3: Vec<(String, Vec<Binding>)> = Vec::new();
    let mut v3_0: Vec<Binding> = Vec::new();
    v3_0.push(sk(KeyCode::Esc));
    es3.push((String::from_str("enter_normal_mode"), v3_0));
    let mut v3_1: Vec<Binding> = Vec::new();
    v3_1.push(sk(KeyCode::Backspace));
    es3.push((String::from_str("backspace"), v3_1));
    let mut v3_2: Vec<Binding> = Vec::new();
    v3_2.push(sk(KeyCode::Enter));
    es3.push((String::from_str("insert_newline"), v3_2));
    let mut v3_3: Vec<Binding> = Vec::new();
    v3_3.push(Binding::Single(ParsedKey { code: KeyCode::Char('c'), modifiers: ctrl_m() }));
    es3.push((String::from_str("return_to_normal"), v3_3));
    let mut v3_4: Vec<Binding> = Vec::new();
    v3_4.push(sk(KeyCode::Left));
    es3.push((String::from_str("move_left"), v3_4));
    let mut v3_5: Vec<Binding> = Vec::new();
    v3_5.push(sk(KeyCode::Right));
    es3.push((String::from_str("move_right"), v3_5));
    let mut v3_6: Vec<Binding> = Vec::new();
    v3_6.push(sk(KeyCode::Up));
    es3.push((String::from_str("move_up"), v3_6));
    let mut v3_7: Vec<Binding> = Vec::new();
    v3_7.push(sk(KeyCode::Down));
    es3.push((String::from_str("move_down"), v3_7));
    let mut v3_8: Vec<Binding> = Vec::new();
    v3_8.push(sk(KeyCode::Tab));
    es3.push((String::from_str("insert_tab"), v3_8));
    contexts.push((String::from_str("insert"), ContextKeybinds { entries: es3 }));
    let mut es4: Vec<(String, Vec<Binding>)> = Vec::new();
    let mut v4_0: Vec<Binding> = Vec::new();
    v4_0.push(sk(KeyCode::Esc));
    es4.push((String::from_str("cancel"), v4_0));
    let mut v4_1: Vec<Binding> = Vec::new();
    v4_1.push(sk(KeyCode::Enter));
    es4.push((String::from_str("execute"), v4_1));
    let mut v4_2: Vec<Binding> = Vec::new();
    v4_2.push(sk(KeyCode::Backspace));
    es4.push((String::from_str("backspace"), v4_2));
    contexts.push((String::from_str("command"), ContextKeybinds { entries: es4 }));
    let mut es5: Vec<(String, Vec<Binding>)> = Vec::new();
    let mut v5_0: Vec<Binding> = Vec::new();
    v5_0.push(sk(KeyCode::Esc));
    es5.push((String::from_str("cancel"), v5_0));
    let mut v5_1: Vec<Binding> = Vec::new();
    v5_1.push(sk(KeyCode::Enter));
    es5.push((String::from_str("search_forward"), v5_1));
    let mut v5_2: Vec<Binding> = Vec::new();
    v5_2.push(sk(KeyCode::Backspace));
    es5.push((String::from_str("backspace"), v5_2));
    contexts.push((String::from_str("search"), ContextKeybinds { entries: es5 }));
    let r = KeybindMap { contexts };
    proof {
        reveal_strlit("backspace");
        reveal_strlit("cancel");
        reveal_strlit("command");
        reveal_strlit("delete_char_at_cursor");
        reveal_strlit("delete_current_line");
        reveal_strlit("delete_to_end_of_line");
        reveal_strlit("enter_command_mode");
        reveal_strlit("enter_insert_mode");
        reveal_strlit("enter_insert_mode_append");
        reveal_strlit("enter_insert_mode_end");
        reveal_strlit("enter_insert_mode_start");
        reveal_strlit("enter_normal_mode");
        reveal_strlit("enter_search_mode");
        reveal_strlit("execute");
        reveal_strlit("explorer");
        reveal_strlit("focus_explorer_toggle");
        reveal_strlit("global");
        reveal_strlit("insert");
        reveal_strlit("insert_newline");
        reveal_strlit("insert_tab");
        reveal_strlit("join_lines");
        reveal_strlit("move_down");
        reveal_strlit("move_left");
        reveal_strlit("move_paragraph_next");
        reveal_strlit("move_paragraph_prev");
        reveal_strlit("move_right");
        reveal_strlit("move_to_end_of_word");
        reveal_strlit("move_to_end_of_word_E");
        reveal_strlit("move_to_first_line");
        reveal_strlit("move_to_first_non_blank");
        reveal_strlit("move_to_last_line");
        reveal_strlit("move_to_line_end");
        reveal_strlit("move_to_line_start");
        reveal_strlit("move_up");
        reveal_strlit("move_word_backward");
        reveal_strlit("move_word_backward_B");
        reveal_strlit("move_word_forward");
        reveal_strlit("move_word_forward_W");
        reveal_strlit("normal");
        reveal_strlit("open_enter");
        reveal_strlit("open_line_above");
        reveal_strlit("open_line_below");
        reveal_strlit("refresh");
        reveal_strlit("repeat_search_backward");
        reveal_strlit("repeat_search_forward");
        reveal_strlit("replace_char");
        reveal_strlit("return_to_normal");
        reveal_strlit("search");
        reveal_strlit("search_forward");
        reveal_strlit("toggle_sidebar");
        assert("backspace"@ =~= seq!['b', 'a', 'c', 'k', 's', 'p', 'a', 'c', 'e']);
        assert("cancel"@ =~= seq!['c', 'a', 'n', 'c', 'e', 'l']);
        assert("command"@ =~= seq!['c', 'o', 'm', 'm', 'a', 'n', 'd']);
        assert("delete_char_at_cursor"@ =~= seq!['d', 'e', 'l', 'e', 't', 'e', '_', 'c', 'h', 'a', 'r', '_', 'a', 't', '_', 'c', 'u', 'r', 's', 'o', 'r']);
        assert("delete_current_line"@ =~= seq!['d', 'e', 'l', 'e', 't', 'e', '_', 'c', 'u', 'r', 'r', 'e', 'n', 't', '_', 'l', 'i', 'n', 'e']);
        assert("delete_to_end_of_line"@ =~= seq!['d', 'e', 'l', 'e', 't', 'e', '_', 't', 'o', '_', 'e', 'n', 'd', '_', 'o', 'f', '_', 'l', 'i', 'n', 'e']);
        assert("enter_command_mode"@ =~= seq!['e', 'n', 't', 'e', 'r', '_', 'c', 'o', 'm', 'm', 'a', 'n', 'd', '_', 'm', 'o', 'd', 'e']);
        assert("enter_insert_mode"@ =~= seq!['e', 'n', 't', 'e', 'r', '_', 'i', 'n', 's', 'e', 'r', 't', '_', 'm', 'o', 'd', 'e']);
        assert("enter_insert_mode_append"@ =~= seq!['e', 'n', 't', 'e', 'r', '_', 'i', 'n', 's', 'e', 'r', 't', '_', 'm', 'o', 'd', 'e', '_', 'a', 'p', 'p', 'e', 'n', 'd']);
        assert("enter_insert_mode_end"@ =~= seq!['e', 'n', 't', 'e', 'r', '_', 'i', 'n', 's', 'e', 'r', 't', '_', 'm', 'o', 'd', 'e', '_', 'e', 'n', 'd']);
        assert("enter_insert_mode_start"@ =~= seq!['e', 'n', 't', 'e', 'r', '_', 'i', 'n', 's', 'e', 'r', 't', '_', 'm', 'o', 'd', 'e', '_', 's', 't', 'a', 'r', 't']);
        assert("enter_normal_mode"@ =~= seq!['e', 'n', 't', 'e', 'r', '_', 'n', 'o', 'r', 'm', 'a', 'l', '_', 'm', 'o', 'd', 'e']);
        assert("enter_search_mode"@ =~= seq!['e', 'n', 't', 'e', 'r', '_', 's', 'e', 'a', 'r', 'c', 'h', '_', 'm', 'o', 'd', 'e']);
        assert("execute"@ =~= seq!['e', 'x', 'e', 'c', 'u', 't', 'e']);
        assert("explorer"@ =~= seq!['e', 'x', 'p', 'l', 'o', 'r', 'e', 'r']);
        assert("focus_explorer_toggle"@ =~= seq!['f', 'o', 'c', 'u', 's', '_', 'e', 'x', 'p', 'l', 'o', 'r', 'e', 'r', '_', 't', 'o', 'g', 'g', 'l', 'e']);
        assert("global"@ =~= seq!['g', 'l', 'o', 'b', 'a', 'l']);
        assert("insert"@ =~= seq!['i', 'n', 's', 'e', 'r', 't']);
        assert("insert_newline"@ =~= seq!['i', 'n', 's', 'e', 'r', 't', '_', 'n', 'e', 'w', 'l', 'i', 'n', 'e']);
        assert("insert_tab"@ =~= seq!['i', 'n', 's', 'e', 'r', 't', '_', 't', 'a', 'b']);
        assert("join_lines"@ =~= seq!['j', 'o', 'i', 'n', '_', 'l', 'i', 'n', 'e', 's']);
        assert("move_down"@ =~= seq!['m', 'o', 'v', 'e', '_', 'd', 'o', 'w', 'n']);
        assert("move_left"@ =~= seq!['m', 'o', 'v', 'e', '_', 'l', 'e', 'f', 't']);
        assert("move_paragraph_next"@ =~= seq!['m', 'o', 'v', 'e', '_', 'p', 'a', 'r', 'a', 'g', 'r', 'a', 'p', 'h', '_', 'n', 'e', 'x', 't']);
        assert("move_paragraph_prev"@ =~= seq!['m', 'o', 'v', 'e', '_', 'p', 'a', 'r', 'a', 'g', 'r', 'a', 'p', 'h', '_', 'p', 'r', 'e', 'v']);
        assert("move_right"@ =~= seq!['m', 'o', 'v', 'e', '_', 'r', 'i', 'g', 'h', 't']);
        assert("move_to_end_of_word"@ =~= seq!['m', 'o', 'v', 'e', '_', 't', 'o', '_', 'e', 'n', 'd', '_', 'o', 'f', '_', 'w', 'o', 'r', 'd']);
        assert("move_to_end_of_word_E"@ =~= seq!['m', 'o', 'v', 'e', '_', 't', 'o', '_', 'e', 'n', 'd', '_', 'o', 'f', '_', 'w', 'o', 'r', 'd', '_', 'E']);
        assert("move_to_first_line"@ =~= seq!['m', 'o', 'v', 'e', '_', 't', 'o', '_', 'f', 'i', 'r', 's', 't', '_', 'l', 'i', 'n', 'e']);
        assert("move_to_first_non_blank"@ =~= seq!['m', 'o', 'v', 'e', '_', 't', 'o', '_', 'f', 'i', 'r', 's', 't', '_', 'n', 'o', 'n', '_', 'b', 'l', 'a', 'n', 'k']);
        assert("move_to_last_line"@ =~= seq!['m', 'o', 'v', 'e', '_', 't', 'o', '_', 'l', 'a', 's', 't', '_', 'l', 'i', 'n', 'e']);
        assert("move_to_line_end"@ =~= seq!['m', 'o', 'v', 'e', '_', 't', 'o', '_', 'l', 'i', 'n', 'e', '_', 'e', 'n', 'd']);
        assert("move_to_line_start"@ =~= seq!['m', 'o', 'v', 'e', '_', 't', 'o', '_', 'l', 'i', 'n', 'e', '_', 's', 't', 'a', 'r', 't']);
        assert("move_up"@ =~= seq!['m', 'o', 'v', 'e', '_', 'u', 'p']);
        assert("move_word_backward"@ =~= seq!['m', 'o', 'v', 'e', '_', 'w', 'o', 'r', 'd', '_', 'b', 'a', 'c', 'k', 'w', 'a', 'r', 'd']);
        assert("move_word_backward_B"@ =~= seq!['m', 'o', 'v', 'e', '_', 'w', 'o', 'r', 'd', '_', 'b', 'a', 'c', 'k', 'w', 'a', 'r', 'd', '_', 'B']);
        assert("move_word_forward"@ =~= seq!['m', 'o', 'v', 'e', '_', 'w', 'o', 'r', 'd', '_', 'f', 'o', 'r', 'w', 'a', 'r', 'd']);
        assert("move_word_forward_W"@ =~= seq!['m', 'o', 'v', 'e', '_', 'w', 'o', 'r', 'd', '_', 'f', 'o', 'r', 'w', 'a', 'r', 'd', '_', 'W']);
        assert("normal"@ =~= seq!['n', 'o', 'r', 'm', 'a', 'l']);
        assert("open_enter"@ =~= seq!['o', 'p', 'e', 'n', '_', 'e', 'n', 't', 'e', 'r']);
        assert("open_line_above"@ =~= seq!['o', 'p', 'e', 'n', '_', 'l', 'i', 'n', 'e', '_', 'a', 'b', 'o', 'v', 'e']);
        assert("open_line_below"@ =~= seq!['o', 'p', 'e', 'n', '_', 'l', 'i', 'n', 'e', '_', 'b', 'e', 'l', 'o', 'w']);
        assert("refresh"@ =~= seq!['r', 'e', 'f', 'r', 'e', 's', 'h']);
        assert("repeat_search_backward"@ =~= seq!['r', 'e', 'p', 'e', 'a', 't', '_', 's', 'e', 'a', 'r', 'c', 'h', '_', 'b', 'a', 'c', 'k', 'w', 'a', 'r', 'd']);
        assert("repeat_search_forward"@ =~= seq!['r', 'e', 'p', 'e', 'a', 't', '_', 's', 'e', 'a', 'r', 'c', 'h', '_', 'f', 'o', 'r', 'w', 'a', 'r', 'd']);
        assert("replace_char"@ =~= seq!['r', 'e', 'p', 'l', 'a', 'c', 'e', '_', 'c', 'h', 'a', 'r']);
        assert("return_to_normal"@ =~= seq!['r', 'e', 't', 'u', 'r', 'n', '_', 't', 'o', '_', 'n', 'o', 'r', 'm', 'a', 'l']);
        assert("search"@ =~= seq!['s', 'e', 'a', 'r', 'c', 'h']);
        assert("search_forward"@ =~= seq!['s', 'e', 'a', 'r', 'c', 'h', '_', 'f', 'o', 'r', 'w', 'a', 'r', 'd']);
        assert("toggle_sidebar"@ =~= seq!['t', 'o', 'g', 'g', 'l', 'e', '_', 's', 'i', 'd', 'e', 'b', 'a', 'r']);
        assert forall|x: int, y: int|
            0 <= x < y < r.contexts@.len() implies (#[trigger] r.contexts@[x]).0@ != (
        #[trigger] r.contexts@[y]).0@ by {}
        assert forall|ci: int| 0 <= ci < r.contexts@.len() implies ctx_wf(
            (#[trigger] r.contexts@[ci]).1.entries@,
        ) by {
            assert forall|x: int, y: int|
                0 <= x < y < r.contexts@[ci].1.entries@.len() implies (#[trigger] r.contexts@[ci].1.entries@[x]).0@ != (#[trigger] r.contexts@[ci].1.entries@[y]).0@ by {}
        }
    }
    r
}

} // verus!
