//! Key capture in the GUI: which physical key a typed character or a
//! named key stands for (through the active keyboard layout first, the
//! QWERTY table otherwise), and how a key is labelled on the grid.

use vstd::prelude::*;

use crate::dto::{key_name, ButtonMappingDto};
use crate::key::{self, code_label, is_known_code, KeyCode};
use crate::locale::ascii_lower;
use crate::modifier::{modifier_code, Modifier};
use crate::text::is_space;

verus! {

/// The QWERTY key producing a character, for the characters the grid
/// accepts (digits, letters in lower case, punctuation and space).
pub open spec fn qwerty_code(c: char) -> Option<u16> {
    if c == '1' {
        Some(key::KEY_1)
    } else if c == '2' {
        Some(key::KEY_2)
    } else if c == '3' {
        Some(key::KEY_3)
    } else if c == '4' {
        Some(key::KEY_4)
    } else if c == '5' {
        Some(key::KEY_5)
    } else if c == '6' {
        Some(key::KEY_6)
    } else if c == '7' {
        Some(key::KEY_7)
    } else if c == '8' {
        Some(key::KEY_8)
    } else if c == '9' {
        Some(key::KEY_9)
    } else if c == '0' {
        Some(key::KEY_0)
    } else if c == 'q' {
        Some(key::KEY_Q)
    } else if c == 'w' {
        Some(key::KEY_W)
    } else if c == 'e' {
        Some(key::KEY_E)
    } else if c == 'r' {
        Some(key::KEY_R)
    } else if c == 't' {
        Some(key::KEY_T)
    } else if c == 'y' {
        Some(key::KEY_Y)
    } else if c == 'u' {
        Some(key::KEY_U)
    } else if c == 'i' {
        Some(key::KEY_I)
    } else if c == 'o' {
        Some(key::KEY_O)
    } else if c == 'p' {
        Some(key::KEY_P)
    } else if c == 'a' {
        Some(key::KEY_A)
    } else if c == 's' {
        Some(key::KEY_S)
    } else if c == 'd' {
        Some(key::KEY_D)
    } else if c == 'f' {
        Some(key::KEY_F)
    } else if c == 'g' {
        Some(key::KEY_G)
    } else if c == 'h' {
        Some(key::KEY_H)
    } else if c == 'j' {
        Some(key::KEY_J)
    } else if c == 'k' {
        Some(key::KEY_K)
    } else if c == 'l' {
        Some(key::KEY_L)
    } else if c == 'z' {
        Some(key::KEY_Z)
    } else if c == 'x' {
        Some(key::KEY_X)
    } else if c == 'c' {
        Some(key::KEY_C)
    } else if c == 'v' {
        Some(key::KEY_V)
    } else if c == 'b' {
        Some(key::KEY_B)
    } else if c == 'n' {
        Some(key::KEY_N)
    } else if c == 'm' {
        Some(key::KEY_M)
    } else if c == '-' {
        Some(key::KEY_MINUS)
    } else if c == '=' {
        Some(key::KEY_EQUAL)
    } else if c == '[' {
        Some(key::KEY_LEFTBRACE)
    } else if c == ']' {
        Some(key::KEY_RIGHTBRACE)
    } else if c == ';' {
        Some(key::KEY_SEMICOLON)
    } else if c == '\'' {
        Some(key::KEY_APOSTROPHE)
    } else if c == '`' {
        Some(key::KEY_GRAVE)
    } else if c == '\\' {
        Some(key::KEY_BACKSLASH)
    } else if c == ',' {
        Some(key::KEY_COMMA)
    } else if c == '.' {
        Some(key::KEY_DOT)
    } else if c == '/' {
        Some(key::KEY_SLASH)
    } else if c == ' ' {
        Some(key::KEY_SPACE)
    } else {
        None
    }
}

/// The QWERTY key producing a character.
pub fn char_to_keycode(c: char) -> (r: Option<KeyCode>)
    ensures
        r matches Some(k) ==> qwerty_code(c) == Some(k@),
        r is None ==> qwerty_code(c) is None,
{
    let code: Option<u16> = {
    if c == '1' {
        Some(key::KEY_1)
    } else if c == '2' {
        Some(key::KEY_2)
    } else if c == '3' {
        Some(key::KEY_3)
    } else if c == '4' {
        Some(key::KEY_4)
    } else if c == '5' {
        Some(key::KEY_5)
    } else if c == '6' {
        Some(key::KEY_6)
    } else if c == '7' {
        Some(key::KEY_7)
    } else if c == '8' {
        Some(key::KEY_8)
    } else if c == '9' {
        Some(key::KEY_9)
    } else if c == '0' {
        Some(key::KEY_0)
    } else if c == 'q' {
        Some(key::KEY_Q)
    } else if c == 'w' {
        Some(key::KEY_W)
    } else if c == 'e' {
        Some(key::KEY_E)
    } else if c == 'r' {
        Some(key::KEY_R)
    } else if c == 't' {
        Some(key::KEY_T)
    } else if c == 'y' {
        Some(key::KEY_Y)
    } else if c == 'u' {
        Some(key::KEY_U)
    } else if c == 'i' {
        Some(key::KEY_I)
    } else if c == 'o' {
        Some(key::KEY_O)
    } else if c == 'p' {
        Some(key::KEY_P)
    } else if c == 'a' {
        Some(key::KEY_A)
    } else if c == 's' {
        Some(key::KEY_S)
    } else if c == 'd' {
        Some(key::KEY_D)
    } else if c == 'f' {
        Some(key::KEY_F)
    } else if c == 'g' {
        Some(key::KEY_G)
    } else if c == 'h' {
        Some(key::KEY_H)
    } else if c == 'j' {
        Some(key::KEY_J)
    } else if c == 'k' {
        Some(key::KEY_K)
    } else if c == 'l' {
        Some(key::KEY_L)
    } else if c == 'z' {
        Some(key::KEY_Z)
    } else if c == 'x' {
        Some(key::KEY_X)
    } else if c == 'c' {
        Some(key::KEY_C)
    } else if c == 'v' {
        Some(key::KEY_V)
    } else if c == 'b' {
        Some(key::KEY_B)
    } else if c == 'n' {
        Some(key::KEY_N)
    } else if c == 'm' {
        Some(key::KEY_M)
    } else if c == '-' {
        Some(key::KEY_MINUS)
    } else if c == '=' {
        Some(key::KEY_EQUAL)
    } else if c == '[' {
        Some(key::KEY_LEFTBRACE)
    } else if c == ']' {
        Some(key::KEY_RIGHTBRACE)
    } else if c == ';' {
        Some(key::KEY_SEMICOLON)
    } else if c == '\'' {
        Some(key::KEY_APOSTROPHE)
    } else if c == '`' {
        Some(key::KEY_GRAVE)
    } else if c == '\\' {
        Some(key::KEY_BACKSLASH)
    } else if c == ',' {
        Some(key::KEY_COMMA)
    } else if c == '.' {
        Some(key::KEY_DOT)
    } else if c == '/' {
        Some(key::KEY_SLASH)
    } else if c == ' ' {
        Some(key::KEY_SPACE)
    } else {
        None
    }
    };
    match code {
        Some(c) => Some(KeyCode::from_code(c)),
        None => None,
    }
}

fn lower_char(c: char) -> (r: char)
    ensures
        r == ascii_lower(c),
{
    if 'A' <= c && c <= 'Z' {
        let lower = (c as u8) + 32;
        lower as char
    } else {
        c
    }
}

/// The QWERTY key of a typed text: a single character, in any case.
pub fn characters_to_keycode(characters: &str) -> (r: Option<KeyCode>)
    ensures
        characters@.len() != 1 ==> r is None,
        characters@.len() == 1 ==> (match qwerty_code(ascii_lower(characters@[0])) {
            Some(c) => r matches Some(k) && k@ == c,
            None => r is None,
        }),
{
    if characters.unicode_len() != 1 {
        return None;
    }
    char_to_keycode(lower_char(characters.get_char(0)))
}

/// Named keys the grid accepts.
#[derive(Debug, Clone, Copy, PartialEq, Eq, Structural)]
pub enum NamedKey {
    Escape,
    Enter,
    Tab,
    Backspace,
    Delete,
    Insert,
    Home,
    End,
    PageUp,
    PageDown,
    ArrowUp,
    ArrowDown,
    ArrowLeft,
    ArrowRight,
    Space,
    F1,
    F2,
    F3,
    F4,
    F5,
    F6,
    F7,
    F8,
    F9,
    F10,
    F11,
    F12,
}

/// The key a named key stands for.
pub open spec fn named_code(k: NamedKey) -> u16 {
    match k {
        NamedKey::Escape => key::KEY_ESC,
        NamedKey::Enter => key::KEY_ENTER,
        NamedKey::Tab => key::KEY_TAB,
        NamedKey::Backspace => key::KEY_BACKSPACE,
        NamedKey::Delete => key::KEY_DELETE,
        NamedKey::Insert => key::KEY_INSERT,
        NamedKey::Home => key::KEY_HOME,
        NamedKey::End => key::KEY_END,
        NamedKey::PageUp => key::KEY_PAGEUP,
        NamedKey::PageDown => key::KEY_PAGEDOWN,
        NamedKey::ArrowUp => key::KEY_UP,
        NamedKey::ArrowDown => key::KEY_DOWN,
        NamedKey::ArrowLeft => key::KEY_LEFT,
        NamedKey::ArrowRight => key::KEY_RIGHT,
        NamedKey::Space => key::KEY_SPACE,
        NamedKey::F1 => key::KEY_F1,
        NamedKey::F2 => key::KEY_F2,
        NamedKey::F3 => key::KEY_F3,
        NamedKey::F4 => key::KEY_F4,
        NamedKey::F5 => key::KEY_F5,
        NamedKey::F6 => key::KEY_F6,
        NamedKey::F7 => key::KEY_F7,
        NamedKey::F8 => key::KEY_F8,
        NamedKey::F9 => key::KEY_F9,
        NamedKey::F10 => key::KEY_F10,
        NamedKey::F11 => key::KEY_F11,
        NamedKey::F12 => key::KEY_F12,
    }
}

/// The key a named key stands for.
pub fn named_to_keycode(named: NamedKey) -> (k: KeyCode)
    ensures
        k@ == named_code(named),
{
    KeyCode::from_code(
        match named {
        NamedKey::Escape => key::KEY_ESC,
        NamedKey::Enter => key::KEY_ENTER,
        NamedKey::Tab => key::KEY_TAB,
        NamedKey::Backspace => key::KEY_BACKSPACE,
        NamedKey::Delete => key::KEY_DELETE,
        NamedKey::Insert => key::KEY_INSERT,
        NamedKey::Home => key::KEY_HOME,
        NamedKey::End => key::KEY_END,
        NamedKey::PageUp => key::KEY_PAGEUP,
        NamedKey::PageDown => key::KEY_PAGEDOWN,
        NamedKey::ArrowUp => key::KEY_UP,
        NamedKey::ArrowDown => key::KEY_DOWN,
        NamedKey::ArrowLeft => key::KEY_LEFT,
        NamedKey::ArrowRight => key::KEY_RIGHT,
        NamedKey::Space => key::KEY_SPACE,
        NamedKey::F1 => key::KEY_F1,
        NamedKey::F2 => key::KEY_F2,
        NamedKey::F3 => key::KEY_F3,
        NamedKey::F4 => key::KEY_F4,
        NamedKey::F5 => key::KEY_F5,
        NamedKey::F6 => key::KEY_F6,
        NamedKey::F7 => key::KEY_F7,
        NamedKey::F8 => key::KEY_F8,
        NamedKey::F9 => key::KEY_F9,
        NamedKey::F10 => key::KEY_F10,
        NamedKey::F11 => key::KEY_F11,
        NamedKey::F12 => key::KEY_F12,
        },
    )
}

/// A key as the GUI receives it.
#[derive(Debug, Clone, PartialEq, Eq)]
pub enum KeyInput {
    /// A key producing text.
    Character(String),
    /// A named key the grid accepts.
    Named(NamedKey),
    /// Any other key.
    Other,
}

/// The QWERTY key of a key as received.
pub fn input_key_to_keycode(input: &KeyInput) -> (r: Option<KeyCode>)
    ensures
        input matches KeyInput::Named(n) ==> r == Some(KeyCode(named_code(*n))),
        *input == KeyInput::Other ==> r is None,
        input matches KeyInput::Character(s) ==> (s@.len() == 1 && qwerty_code(ascii_lower(s@[0])) is Some
            ==> (r matches Some(k) && qwerty_code(ascii_lower(s@[0])) == Some(k@))),
        input matches KeyInput::Character(s) ==> (!(s@.len() == 1 && qwerty_code(ascii_lower(s@[0])) is Some)
            ==> r is None),
{
    match input {
        KeyInput::Character(s) => characters_to_keycode(s.as_str()),
        KeyInput::Named(n) => Some(named_to_keycode(*n)),
        KeyInput::Other => None,
    }
}

/// The message naming a key on the grid, for keys that have one.
pub open spec fn label_message(code: u16) -> Option<Seq<char>> {
    if code == key::KEY_ESC {
        Some("keys.esc"@)
    } else if code == key::KEY_ENTER {
        Some("keys.enter"@)
    } else if code == key::KEY_TAB {
        Some("keys.tab"@)
    } else if code == key::KEY_BACKSPACE {
        Some("keys.backspace"@)
    } else if code == key::KEY_DELETE {
        Some("keys.delete"@)
    } else if code == key::KEY_INSERT {
        Some("keys.insert"@)
    } else if code == key::KEY_SPACE {
        Some("keys.space"@)
    } else if code == key::KEY_PAGEUP {
        Some("keys.page_up"@)
    } else if code == key::KEY_PAGEDOWN {
        Some("keys.page_down"@)
    } else if code == key::KEY_HOME {
        Some("keys.home"@)
    } else if code == key::KEY_END {
        Some("keys.end"@)
    } else if code == key::KEY_LEFTCTRL {
        Some("keys.ctrl"@)
    } else if code == key::KEY_LEFTSHIFT {
        Some("keys.shift"@)
    } else if code == key::KEY_LEFTALT {
        Some("keys.alt"@)
    } else {
        None
    }
}

/// The symbol drawing a key on the grid, for keys that have one.
pub open spec fn label_symbol(code: u16) -> Option<Seq<char>> {
    if code == key::KEY_UP {
        Some("\u{2191}"@)
    } else if code == key::KEY_DOWN {
        Some("\u{2193}"@)
    } else if code == key::KEY_LEFT {
        Some("\u{2190}"@)
    } else if code == key::KEY_RIGHT {
        Some("\u{2192}"@)
    } else if code == key::KEY_GRAVE {
        Some("`"@)
    } else {
        None
    }
}

fn message_of(code: u16) -> (r: Option<&'static str>)
    ensures
        r matches Some(m) ==> label_message(code) == Some(m@),
        r is None ==> label_message(code) is None,
{
    if code == key::KEY_ESC {
        Some("keys.esc")
    } else if code == key::KEY_ENTER {
        Some("keys.enter")
    } else if code == key::KEY_TAB {
        Some("keys.tab")
    } else if code == key::KEY_BACKSPACE {
        Some("keys.backspace")
    } else if code == key::KEY_DELETE {
        Some("keys.delete")
    } else if code == key::KEY_INSERT {
        Some("keys.insert")
    } else if code == key::KEY_SPACE {
        Some("keys.space")
    } else if code == key::KEY_PAGEUP {
        Some("keys.page_up")
    } else if code == key::KEY_PAGEDOWN {
        Some("keys.page_down")
    } else if code == key::KEY_HOME {
        Some("keys.home")
    } else if code == key::KEY_END {
        Some("keys.end")
    } else if code == key::KEY_LEFTCTRL {
        Some("keys.ctrl")
    } else if code == key::KEY_LEFTSHIFT {
        Some("keys.shift")
    } else if code == key::KEY_LEFTALT {
        Some("keys.alt")
    } else {
        None
    }
}

fn symbol_of(code: u16) -> (r: Option<&'static str>)
    ensures
        r matches Some(m) ==> label_symbol(code) == Some(m@),
        r is None ==> label_symbol(code) is None,
{
    if code == key::KEY_UP {
        Some("\u{2191}")
    } else if code == key::KEY_DOWN {
        Some("\u{2193}")
    } else if code == key::KEY_LEFT {
        Some("\u{2190}")
    } else if code == key::KEY_RIGHT {
        Some("\u{2192}")
    } else if code == key::KEY_GRAVE {
        Some("`")
    } else {
        None
    }
}

/// How a key is labelled on the grid.
#[derive(Debug, Clone, PartialEq, Eq)]
pub enum KeyLabel {
    /// A translated message, by its key.
    Message(&'static str),
    /// A fixed text.
    Text(String),
    /// The character the layout produces.
    Char(char),
}

/// The label text of a key without message or symbol: its canonical label
/// without the `KEY_` prefix.
pub open spec fn compact_label(label: Seq<char>) -> Seq<char> {
    if label.len() >= 4 && label.take(4) == "KEY_"@ {
        label.skip(4)
    } else {
        label
    }
}

/// Whether a label is the grid's short label of a code: its message when
/// it has one, else its symbol, else its compact name.
pub open spec fn is_grid_label(r: KeyLabel, code: u16) -> bool {
    match label_message(code) {
        Some(m) => r matches KeyLabel::Message(x) && x@ == m,
        None => match label_symbol(code) {
            Some(t) => r matches KeyLabel::Text(x) && x@ == t,
            None => r matches KeyLabel::Text(x) && x@ == compact_label(code_label(code)),
        },
    }
}

/// Short label of a key for the grid: a message for the keys that have
/// one, an arrow or a backquote for the keys drawn as symbols, the
/// compact name otherwise.
pub fn keycode_label(key: KeyCode) -> (r: KeyLabel)
    ensures
        is_grid_label(r, key@),
{
    match message_of(key.code()) {
        Some(m) => {
            return KeyLabel::Message(m);
        },
        None => {},
    }
    match symbol_of(key.code()) {
        Some(t) => {
            return KeyLabel::Text(String::from_str(t));
        },
        None => {},
    }
    let label = key.label();
    let n = label.as_str().unicode_len();
    proof {
        reveal_strlit("KEY_");
    }
    if n >= 4 && crate::text::starts_with(label.as_str(), "KEY_") {
        assert(label@.take(4) =~= "KEY_"@);
        assert(label@.subrange(4, n as int) =~= label@.skip(4));
        KeyLabel::Text(String::from_str(label.as_str().substring_char(4, n)))
    } else {
        KeyLabel::Text(label)
    }
}

/// A control character (general category Cc).
pub open spec fn is_control(c: char) -> bool {
    c <= '\u{1f}' || ('\u{7f}' <= c && c <= '\u{9f}')
}

fn char_is_control(c: char) -> (r: bool)
    ensures
        r == is_control(c),
{
    c <= '\u{1f}' || ('\u{7f}' <= c && c <= '\u{9f}')
}

/// The first printable character among the symbols of a level.
pub open spec fn first_printable(syms: Seq<Option<char>>) -> Option<char>
    decreases syms.len(),
{
    if syms.len() == 0 {
        None
    } else {
        match syms[0] {
            Some(c) => if !is_control(c) && !is_space(c) {
                Some(c)
            } else {
                first_printable(syms.drop_first())
            },
            None => first_printable(syms.drop_first()),
        }
    }
}

/// Character to code and code to character, each keeping its first entry.
pub type LayoutView = (Map<char, u16>, Map<u16, char>);

/// Records that a code produces a character, unless the character or the
/// code already has an entry (earlier entries keep priority).
pub open spec fn add_first(m: LayoutView, c: char, code: u16) -> LayoutView {
    (
        if m.0.contains_key(c) { m.0 } else { m.0.insert(c, code) },
        if m.1.contains_key(code) { m.1 } else { m.1.insert(code, c) },
    )
}

/// Records the first printable character of each level, in level order.
pub open spec fn add_levels(m: LayoutView, code: u16, levels: Seq<Seq<Option<char>>>) -> LayoutView
    decreases levels.len(),
{
    if levels.len() == 0 {
        m
    } else {
        let m1 = add_levels(m, code, levels.drop_last());
        match first_printable(levels.last()) {
            Some(c) => add_first(m1, c, code),
            None => m1,
        }
    }
}

/// Levels explored per key: unshifted, then shifted.
pub open spec fn explored(levels: Seq<Seq<Option<char>>>) -> Seq<Seq<Option<char>>> {
    if levels.len() > 2 {
        levels.take(2)
    } else {
        levels
    }
}

/// Records the keys of a keymap, in keycode order. An xkb keycode is the
/// evdev code plus 8; keycodes that map to no 16-bit evdev code are skipped.
pub open spec fn add_keys(m: LayoutView, keys: Seq<(u32, Seq<Seq<Option<char>>>)>) -> LayoutView
    decreases keys.len(),
{
    if keys.len() == 0 {
        m
    } else {
        let m1 = add_keys(m, keys.drop_last());
        let (raw, levels) = keys.last();
        if raw < 8 || raw - 8 > 0xffff {
            m1
        } else {
            add_levels(m1, (raw - 8) as u16, explored(levels))
        }
    }
}

/// Active keyboard layout: which physical code produces a character, and
/// which character a code produces (unshifted level first).
#[derive(Debug)]
pub struct KeyboardLayout {
    chars: Vec<(char, u16)>,
    labels: Vec<(u16, char)>,
}

impl View for KeyboardLayout {
    type V = LayoutView;

    closed spec fn view(&self) -> LayoutView {
        (crate::assoc::assoc_map(self.chars@), crate::assoc::assoc_map(self.labels@))
    }
}

impl KeyboardLayout {
    #[verifier::type_invariant]
    spec fn distinct(self) -> bool {
        crate::assoc::keys_distinct(self.chars@) && crate::assoc::keys_distinct(self.labels@)
    }

    /// The empty layout (the QWERTY table then applies).
    pub fn new() -> (l: KeyboardLayout)
        ensures
            l@ == (Map::<char, u16>::empty(), Map::<u16, char>::empty()),
    {
        proof {
            crate::assoc::lemma_assoc_empty::<char, u16>();
            crate::assoc::lemma_assoc_empty::<u16, char>();
        }
        KeyboardLayout { chars: Vec::new(), labels: Vec::new() }
    }

    fn find_char(&self, c: char) -> (r: Option<usize>)
        ensures
            r matches Some(i) ==> i < self.chars@.len() && self.chars@[i as int].0 == c,
            r is None ==> !self@.0.contains_key(c),
    {
        let mut i: usize = 0;
        while i < self.chars.len()
            invariant
                i <= self.chars@.len(),
                forall|j: int| 0 <= j < i ==> self.chars@[j].0 != c,
            decreases self.chars@.len() - i,
        {
            if self.chars[i].0 == c {
                return Some(i);
            }
            i = i + 1;
        }
        proof {
            crate::assoc::lemma_assoc_absent(self.chars@, c);
        }
        None
    }

    fn find_code(&self, code: u16) -> (r: Option<usize>)
        ensures
            r matches Some(i) ==> i < self.labels@.len() && self.labels@[i as int].0 == code,
            r is None ==> !self@.1.contains_key(code),
    {
        let mut i: usize = 0;
        while i < self.labels.len()
            invariant
                i <= self.labels@.len(),
                forall|j: int| 0 <= j < i ==> self.labels@[j].0 != code,
            decreases self.labels@.len() - i,
        {
            if self.labels[i].0 == code {
                return Some(i);
            }
            i = i + 1;
        }
        proof {
            crate::assoc::lemma_assoc_absent(self.labels@, code);
        }
        None
    }

    /// Physical code producing this character (unshifted level first).
    pub fn code_for_char(&self, character: char) -> (r: Option<KeyCode>)
        ensures
            self@.0.contains_key(character) ==> r == Some(KeyCode(self@.0[character])),
            !self@.0.contains_key(character) ==> r is None,
    {
        proof {
            use_type_invariant(self);
        }
        match self.find_char(character) {
            Some(i) => {
                proof {
                    crate::assoc::lemma_assoc_at(self.chars@, i as int);
                }
                Some(KeyCode::from_code(self.chars[i].1))
            },
            None => None,
        }
    }

    /// Character produced by this code on the layout (unshifted level).
    pub fn label_for(&self, code: KeyCode) -> (r: Option<char>)
        ensures
            self@.1.contains_key(code@) ==> r == Some(self@.1[code@]),
            !self@.1.contains_key(code@) ==> r is None,
    {
        proof {
            use_type_invariant(self);
        }
        match self.find_code(code.code()) {
            Some(i) => {
                proof {
                    crate::assoc::lemma_assoc_at(self.labels@, i as int);
                }
                Some(self.labels[i].1)
            },
            None => None,
        }
    }

    /// Records that a code produces a character, unless either already has
    /// an entry.
    fn add_first(&mut self, c: char, code: u16)
        ensures
            final(self)@ == add_first(old(self)@, c, code),
    {
        proof {
            use_type_invariant(&*self);
        }
        let has_char = self.find_char(c).is_some();
        let has_code = self.find_code(code).is_some();
        let mut chars: Vec<(char, u16)> = Vec::new();
        let mut labels: Vec<(u16, char)> = Vec::new();
        std::mem::swap(&mut chars, &mut self.chars);
        std::mem::swap(&mut labels, &mut self.labels);
        let ghost (c0, l0) = (chars@, labels@);
        if has_char {
            proof {
                let i = choose|i: int| 0 <= i < c0.len() && c0[i].0 == c;
                crate::assoc::lemma_assoc_at(c0, i);
            }
        } else {
            proof {
                crate::assoc::lemma_assoc_push(c0, c, code);
            }
            chars.push((c, code));
        }
        if has_code {
            proof {
                let i = choose|i: int| 0 <= i < l0.len() && l0[i].0 == code;
                crate::assoc::lemma_assoc_at(l0, i);
            }
        } else {
            proof {
                crate::assoc::lemma_assoc_push(l0, code, c);
            }
            labels.push((code, c));
        }
        self.chars = chars;
        self.labels = labels;
    }

    /// Builds the layout of a keymap from its keys in keycode order, each
    /// with the characters of its levels (`None` for a symbol that is no
    /// character). Only the first two levels count; on each, the first
    /// printable character is taken.
    pub fn from_keys(keys: &Vec<(u32, Vec<Vec<Option<char>>>)>) -> (l: KeyboardLayout)
        ensures
            l@ == add_keys(
                (Map::<char, u16>::empty(), Map::<u16, char>::empty()),
                keys@.map_values(|k: (u32, Vec<Vec<Option<char>>>)| (k.0, k.1@.map_values(|v: Vec<Option<char>>| v@))),
            ),
    {
        let ghost ks = keys@.map_values(|k: (u32, Vec<Vec<Option<char>>>)| (k.0, k.1@.map_values(|v: Vec<Option<char>>| v@)));
        let ghost start = (Map::<char, u16>::empty(), Map::<u16, char>::empty());
        let mut layout = KeyboardLayout::new();
        let mut i: usize = 0;
        while i < keys.len()
            invariant
                ks == keys@.map_values(|k: (u32, Vec<Vec<Option<char>>>)| (k.0, k.1@.map_values(|v: Vec<Option<char>>| v@))),
                start == (Map::<char, u16>::empty(), Map::<u16, char>::empty()),
                i <= keys@.len(),
                layout@ == add_keys(start, ks.take(i as int)),
            decreases keys@.len() - i,
        {
            proof {
                assert(ks.take(i + 1).drop_last() =~= ks.take(i as int));
            }
            let raw = keys[i].0;
            let levels = &keys[i].1;
            if raw >= 8 && raw - 8 <= 0xffff {
                let code = (raw - 8) as u16;
                let count: usize = if levels.len() > 2 { 2 } else { levels.len() };
                let ghost ls = levels@.map_values(|v: Vec<Option<char>>| v@);
                let ghost m0 = layout@;
                assert(explored(ls) =~= ls.take(count as int));
                let mut level: usize = 0;
                while level < count
                    invariant
                        ls == levels@.map_values(|v: Vec<Option<char>>| v@),
                        count <= levels@.len(),
                        level <= count,
                        layout@ == add_levels(m0, code, ls.take(level as int)),
                    decreases count - level,
                {
                    proof {
                        assert(ls.take(level + 1).drop_last() =~= ls.take(level as int));
                    }
                    let syms = &levels[level];
                    let mut k: usize = 0;
                    let mut found: Option<char> = None;
                    assert(syms@.skip(0) =~= syms@);
                    while k < syms.len()
                        invariant_except_break
                            found is None,
                        invariant
                            k <= syms@.len(),
                            first_printable(syms@) == first_printable(syms@.skip(k as int)),
                        ensures
                            found is None ==> k == syms@.len(),
                            found matches Some(c) ==> first_printable(syms@) == Some(c),
                        decreases syms@.len() - k,
                    {
                        proof {
                            assert(syms@.skip(k as int).drop_first() =~= syms@.skip(k + 1));
                            assert(syms@.skip(k as int)[0] == syms@[k as int]);
                        }
                        match syms[k] {
                            Some(c) => {
                                if !char_is_control(c) && !crate::text::char_is_space(c) {
                                    found = Some(c);
                                    break;
                                }
                            },
                            None => {},
                        }
                        k = k + 1;
                    }
                    assert(found is None ==> syms@.skip(k as int) =~= Seq::<Option<char>>::empty());
                    match found {
                        Some(c) => {
                            layout.add_first(c, code);
                        },
                        None => {},
                    }
                    assert(syms@ == ls[level as int]);
                    level = level + 1;
                }
                assert(ls.take(count as int) == explored(ls));
            }
            i = i + 1;
        }
        assert(ks.take(i as int) =~= ks);
        layout
    }
}

impl Default for KeyboardLayout {
    fn default() -> (l: KeyboardLayout)
        ensures
            l@ == (Map::<char, u16>::empty(), Map::<u16, char>::empty()),
    {
        KeyboardLayout::new()
    }
}

/// The code a key resolves to: a single character through the layout (as
/// typed, then in lower case), then the QWERTY table; a named key by its
/// name; nothing for any other key.
pub open spec fn resolved_code(layout: LayoutView, input: KeyInput) -> Option<u16> {
    match input {
        KeyInput::Character(s) => if s@.len() == 1 {
            if layout.0.contains_key(s@[0]) {
                Some(layout.0[s@[0]])
            } else if layout.0.contains_key(ascii_lower(s@[0])) {
                Some(layout.0[ascii_lower(s@[0])])
            } else {
                qwerty_code(ascii_lower(s@[0]))
            }
        } else {
            None
        },
        KeyInput::Named(n) => Some(named_code(n)),
        KeyInput::Other => None,
    }
}

/// Resolves a key to a physical code: a single character through the
/// layout (as typed, then in lower case), the QWERTY table otherwise.
pub fn resolve_keycode(layout: &KeyboardLayout, input: &KeyInput) -> (r: Option<KeyCode>)
    ensures
        match r {
            Some(k) => resolved_code(layout@, *input) == Some(k@),
            None => resolved_code(layout@, *input) is None,
        },
{
    match input {
        KeyInput::Character(s) => {
            if s.as_str().unicode_len() == 1 {
                let single = s.as_str().get_char(0);
                match layout.code_for_char(single) {
                    Some(code) => {
                        return Some(code);
                    },
                    None => {},
                }
                match layout.code_for_char(lower_char(single)) {
                    Some(code) => {
                        return Some(code);
                    },
                    None => {},
                }
            }
        },
        _ => {},
    }
    input_key_to_keycode(input)
}

/// Display label of a key: the layout's character when there is one, the
/// short label otherwise.
pub fn key_label(layout: &KeyboardLayout, key: KeyCode) -> (r: KeyLabel)
    ensures
        layout@.1.contains_key(key@) ==> r == KeyLabel::Char(layout@.1[key@]),
        !layout@.1.contains_key(key@) ==> is_grid_label(r, key@),
{
    match layout.label_for(key) {
        Some(c) => KeyLabel::Char(c),
        None => keycode_label(key),
    }
}

/// The modifiers held while a key is captured, in press order (left keys).
pub open spec fn held_modifiers(control: bool, shift: bool, alt: bool, logo: bool) -> Seq<Modifier> {
    (if control { seq![Modifier::LeftCtrl] } else { Seq::empty() }) + (if shift {
        seq![Modifier::LeftShift]
    } else {
        Seq::empty()
    }) + (if alt { seq![Modifier::LeftAlt] } else { Seq::empty() }) + (if logo {
        seq![Modifier::LeftMeta]
    } else {
        Seq::empty()
    })
}

/// The modifier names of a capture hold the left Ctrl, Shift, Alt and
/// logo keys exactly when those are held, each once, in that order, and
/// nothing else.
pub proof fn lemma_captured_modifier_names(control: bool, shift: bool, alt: bool, logo: bool)
    ensures
        ({
            let names = held_modifiers(control, shift, alt, logo).map_values(|x: Modifier| key_name(modifier_code(x)));
            &&& names.contains("KEY_LEFTCTRL"@) <==> control
            &&& names.contains("KEY_LEFTSHIFT"@) <==> shift
            &&& names.contains("KEY_LEFTALT"@) <==> alt
            &&& names.contains("KEY_LEFTMETA"@) <==> logo
            &&& names.len() == (if control { 1int } else { 0int }) + (if shift { 1int } else { 0int }) + (if alt {
                1int
            } else {
                0int
            }) + (if logo { 1int } else { 0int })
            &&& names == (if control { seq!["KEY_LEFTCTRL"@] } else { Seq::empty() }) + (if shift {
                seq!["KEY_LEFTSHIFT"@]
            } else {
                Seq::empty()
            }) + (if alt { seq!["KEY_LEFTALT"@] } else { Seq::empty() }) + (if logo {
                seq!["KEY_LEFTMETA"@]
            } else {
                Seq::empty()
            })
            &&& forall|j: int| 0 <= j < names.len() ==> (#[trigger] names[j] == "KEY_LEFTCTRL"@ || names[j]
                == "KEY_LEFTSHIFT"@ || names[j] == "KEY_LEFTALT"@ || names[j] == "KEY_LEFTMETA"@)
        }),
{
    crate::dto::lemma_left_modifier_names();
    reveal_strlit("KEY_LEFTCTRL");
    reveal_strlit("KEY_LEFTSHIFT");
    reveal_strlit("KEY_LEFTALT");
    reveal_strlit("KEY_LEFTMETA");
    let held = held_modifiers(control, shift, alt, logo);
    let names = held.map_values(|x: Modifier| key_name(modifier_code(x)));
    let c: Seq<Seq<char>> = if control { seq!["KEY_LEFTCTRL"@] } else { Seq::empty() };
    let sh: Seq<Seq<char>> = if shift { seq!["KEY_LEFTSHIFT"@] } else { Seq::empty() };
    let a: Seq<Seq<char>> = if alt { seq!["KEY_LEFTALT"@] } else { Seq::empty() };
    let l: Seq<Seq<char>> = if logo { seq!["KEY_LEFTMETA"@] } else { Seq::empty() };
    assert(names =~= c + sh + a + l);
    assert("KEY_LEFTCTRL"@.len() == 12 && "KEY_LEFTSHIFT"@.len() == 13 && "KEY_LEFTALT"@.len() == 11
        && "KEY_LEFTMETA"@.len() == 12);
    assert("KEY_LEFTCTRL"@[8] != "KEY_LEFTMETA"@[8]);
    assert("KEY_LEFTCTRL"@ != "KEY_LEFTSHIFT"@ && "KEY_LEFTCTRL"@ != "KEY_LEFTALT"@ && "KEY_LEFTCTRL"@ != "KEY_LEFTMETA"@);
    assert("KEY_LEFTSHIFT"@ != "KEY_LEFTALT"@ && "KEY_LEFTSHIFT"@ != "KEY_LEFTMETA"@ && "KEY_LEFTALT"@ != "KEY_LEFTMETA"@);
    let all = c + sh + a + l;
    assert forall|n: Seq<char>| all.contains(n) <==> (c.contains(n) || sh.contains(n) || a.contains(n) || l.contains(n)) by {
        if all.contains(n) {
            let j = choose|j: int| 0 <= j < all.len() && all[j] == n;
            if j < c.len() {
                assert(c[j] == n);
            } else if j < c.len() + sh.len() {
                assert(sh[j - c.len()] == n);
            } else if j < c.len() + sh.len() + a.len() {
                assert(a[j - c.len() - sh.len()] == n);
            } else {
                assert(l[j - c.len() - sh.len() - a.len()] == n);
            }
        }
        if c.contains(n) {
            assert(all[0] == n);
        }
        if sh.contains(n) {
            assert(all[c.len() as int] == n);
        }
        if a.contains(n) {
            assert(all[(c.len() + sh.len()) as int] == n);
        }
        if l.contains(n) {
            assert(all[(c.len() + sh.len() + a.len()) as int] == n);
        }
    }
    if control {
        assert(c[0] == "KEY_LEFTCTRL"@);
        assert(c.contains("KEY_LEFTCTRL"@));
    }
    if shift {
        assert(sh[0] == "KEY_LEFTSHIFT"@);
        assert(sh.contains("KEY_LEFTSHIFT"@));
    }
    if alt {
        assert(a[0] == "KEY_LEFTALT"@);
        assert(a.contains("KEY_LEFTALT"@));
    }
    if logo {
        assert(l[0] == "KEY_LEFTMETA"@);
        assert(l.contains("KEY_LEFTMETA"@));
    }
    assert forall|j: int| 0 <= j < names.len() implies (#[trigger] names[j] == "KEY_LEFTCTRL"@ || names[j]
        == "KEY_LEFTSHIFT"@ || names[j] == "KEY_LEFTALT"@ || names[j] == "KEY_LEFTMETA"@) by {
        assert(all.contains(all[j]));
    }
}

/// The name written for a key: its canonical name, `KEY_UNKNOWN` for a key
/// without one.
pub open spec fn written_name(code: u16) -> Seq<char> {
    if is_known_code(code) {
        key_name(code)
    } else {
        "KEY_UNKNOWN"@
    }
}

/// The mapping a captured key gives a button: the key with the modifiers
/// held, written by name.
pub fn captured_mapping(button: u8, control: bool, shift: bool, alt: bool, logo: bool, key: KeyCode) -> (m: ButtonMappingDto)
    ensures
        m@ == (
            button,
            written_name(key@),
            held_modifiers(control, shift, alt, logo).map_values(|x: Modifier| key_name(modifier_code(x))),
        ),
        m@.2 == (if control { seq!["KEY_LEFTCTRL"@] } else { Seq::empty() }) + (if shift {
            seq!["KEY_LEFTSHIFT"@]
        } else {
            Seq::empty()
        }) + (if alt { seq!["KEY_LEFTALT"@] } else { Seq::empty() }) + (if logo {
            seq!["KEY_LEFTMETA"@]
        } else {
            Seq::empty()
        }),
        m@.2.contains("KEY_LEFTCTRL"@) <==> control,
        m@.2.contains("KEY_LEFTSHIFT"@) <==> shift,
        m@.2.contains("KEY_LEFTALT"@) <==> alt,
        m@.2.contains("KEY_LEFTMETA"@) <==> logo,
        m@.2.len() == (if control { 1int } else { 0int }) + (if shift { 1int } else { 0int }) + (if alt { 1int } else {
            0int
        }) + (if logo { 1int } else { 0int }),
{
    proof {
        lemma_captured_modifier_names(control, shift, alt, logo);
    }
    let mut modifiers: Vec<String> = Vec::new();
    let ghost mut held: Seq<Modifier> = Seq::empty();
    if control {
        proof { crate::dto::lemma_modifier_codes_known(Modifier::LeftCtrl); }
        modifiers.push(String::from_str(name_or_unknown(Modifier::LeftCtrl.key_code())));
        proof { held = held.push(Modifier::LeftCtrl); }
    }
    if shift {
        proof { crate::dto::lemma_modifier_codes_known(Modifier::LeftShift); }
        modifiers.push(String::from_str(name_or_unknown(Modifier::LeftShift.key_code())));
        proof { held = held.push(Modifier::LeftShift); }
    }
    if alt {
        proof { crate::dto::lemma_modifier_codes_known(Modifier::LeftAlt); }
        modifiers.push(String::from_str(name_or_unknown(Modifier::LeftAlt.key_code())));
        proof { held = held.push(Modifier::LeftAlt); }
    }
    if logo {
        proof { crate::dto::lemma_modifier_codes_known(Modifier::LeftMeta); }
        modifiers.push(String::from_str(name_or_unknown(Modifier::LeftMeta.key_code())));
        proof { held = held.push(Modifier::LeftMeta); }
    }
    assert(held =~= held_modifiers(control, shift, alt, logo));
    assert(crate::order::texts(modifiers@) =~= held.map_values(|x: Modifier| key_name(modifier_code(x))));
    ButtonMappingDto { button, key: String::from_str(name_or_unknown(key)), modifiers }
}

/// The canonical name of a key, `KEY_UNKNOWN` without one.
fn name_or_unknown(key: KeyCode) -> (n: &'static str)
    ensures
        n@ == written_name(key@),
{
    match crate::dto::combination_key_name(key) {
        Ok(n) => n,
        Err(_) => "KEY_UNKNOWN",
    }
}

} // verus!
