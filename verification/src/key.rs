//! Linux evdev key codes (`input-event-codes.h`) and their canonical names.

use vstd::prelude::*;
use vstd::string::*;

use crate::error::DomainError;
use crate::text::{hex4, hex4_chars, str_eq};

verus! {

pub const KEY_ESC: u16 = 1;
pub const KEY_1: u16 = 2;
pub const KEY_2: u16 = 3;
pub const KEY_3: u16 = 4;
pub const KEY_4: u16 = 5;
pub const KEY_5: u16 = 6;
pub const KEY_6: u16 = 7;
pub const KEY_7: u16 = 8;
pub const KEY_8: u16 = 9;
pub const KEY_9: u16 = 10;
pub const KEY_0: u16 = 11;
pub const KEY_MINUS: u16 = 12;
pub const KEY_EQUAL: u16 = 13;
pub const KEY_BACKSPACE: u16 = 14;
pub const KEY_TAB: u16 = 15;
pub const KEY_Q: u16 = 16;
pub const KEY_W: u16 = 17;
pub const KEY_E: u16 = 18;
pub const KEY_R: u16 = 19;
pub const KEY_T: u16 = 20;
pub const KEY_Y: u16 = 21;
pub const KEY_U: u16 = 22;
pub const KEY_I: u16 = 23;
pub const KEY_O: u16 = 24;
pub const KEY_P: u16 = 25;
pub const KEY_LEFTBRACE: u16 = 26;
pub const KEY_RIGHTBRACE: u16 = 27;
pub const KEY_ENTER: u16 = 28;
pub const KEY_LEFTCTRL: u16 = 29;
pub const KEY_A: u16 = 30;
pub const KEY_S: u16 = 31;
pub const KEY_D: u16 = 32;
pub const KEY_F: u16 = 33;
pub const KEY_G: u16 = 34;
pub const KEY_H: u16 = 35;
pub const KEY_J: u16 = 36;
pub const KEY_K: u16 = 37;
pub const KEY_L: u16 = 38;
pub const KEY_SEMICOLON: u16 = 39;
pub const KEY_APOSTROPHE: u16 = 40;
pub const KEY_GRAVE: u16 = 41;
pub const KEY_LEFTSHIFT: u16 = 42;
pub const KEY_BACKSLASH: u16 = 43;
pub const KEY_Z: u16 = 44;
pub const KEY_X: u16 = 45;
pub const KEY_C: u16 = 46;
pub const KEY_V: u16 = 47;
pub const KEY_B: u16 = 48;
pub const KEY_N: u16 = 49;
pub const KEY_M: u16 = 50;
pub const KEY_COMMA: u16 = 51;
pub const KEY_DOT: u16 = 52;
pub const KEY_SLASH: u16 = 53;
pub const KEY_RIGHTSHIFT: u16 = 54;
pub const KEY_KPASTERISK: u16 = 55;
pub const KEY_LEFTALT: u16 = 56;
pub const KEY_SPACE: u16 = 57;
pub const KEY_CAPSLOCK: u16 = 58;
pub const KEY_F1: u16 = 59;
pub const KEY_F2: u16 = 60;
pub const KEY_F3: u16 = 61;
pub const KEY_F4: u16 = 62;
pub const KEY_F5: u16 = 63;
pub const KEY_F6: u16 = 64;
pub const KEY_F7: u16 = 65;
pub const KEY_F8: u16 = 66;
pub const KEY_F9: u16 = 67;
pub const KEY_F10: u16 = 68;
pub const KEY_NUMLOCK: u16 = 69;
pub const KEY_SCROLLLOCK: u16 = 70;
pub const KEY_KP7: u16 = 71;
pub const KEY_KP8: u16 = 72;
pub const KEY_KP9: u16 = 73;
pub const KEY_KPMINUS: u16 = 74;
pub const KEY_KP4: u16 = 75;
pub const KEY_KP5: u16 = 76;
pub const KEY_KP6: u16 = 77;
pub const KEY_KPPLUS: u16 = 78;
pub const KEY_KP1: u16 = 79;
pub const KEY_KP2: u16 = 80;
pub const KEY_KP3: u16 = 81;
pub const KEY_KP0: u16 = 82;
pub const KEY_KPDOT: u16 = 83;
pub const KEY_102ND: u16 = 86;
pub const KEY_F11: u16 = 87;
pub const KEY_F12: u16 = 88;
pub const KEY_KPENTER: u16 = 96;
pub const KEY_RIGHTCTRL: u16 = 97;
pub const KEY_KPSLASH: u16 = 98;
pub const KEY_SYSRQ: u16 = 99;
pub const KEY_RIGHTALT: u16 = 100;
pub const KEY_LINEFEED: u16 = 101;
pub const KEY_HOME: u16 = 102;
pub const KEY_UP: u16 = 103;
pub const KEY_PAGEUP: u16 = 104;
pub const KEY_LEFT: u16 = 105;
pub const KEY_RIGHT: u16 = 106;
pub const KEY_END: u16 = 107;
pub const KEY_DOWN: u16 = 108;
pub const KEY_PAGEDOWN: u16 = 109;
pub const KEY_INSERT: u16 = 110;
pub const KEY_DELETE: u16 = 111;
pub const KEY_KPCOMMA: u16 = 121;
pub const KEY_LEFTMETA: u16 = 125;
pub const KEY_RIGHTMETA: u16 = 126;
pub const KEY_COMPOSE: u16 = 127;
pub const KEY_F13: u16 = 183;
pub const KEY_F14: u16 = 184;
pub const KEY_F15: u16 = 185;
pub const KEY_F16: u16 = 186;
pub const KEY_F17: u16 = 187;
pub const KEY_F18: u16 = 188;
pub const KEY_F19: u16 = 189;
pub const KEY_F20: u16 = 190;
pub const KEY_F21: u16 = 191;
pub const KEY_F22: u16 = 192;
pub const KEY_F23: u16 = 193;
pub const KEY_F24: u16 = 194;

/// Linux evdev key code.
#[derive(Debug, Clone, Copy, PartialEq, Eq, Structural, Hash, PartialOrd, Ord)]
pub struct KeyCode(pub u16);

impl View for KeyCode {
    type V = u16;

    open spec fn view(&self) -> u16 {
        self.0
    }
}

/// Names of the known keys, in code order.
pub open spec fn known_names() -> Seq<&'static str> {
    seq![
        "KEY_ESC",
        "KEY_1",
        "KEY_2",
        "KEY_3",
        "KEY_4",
        "KEY_5",
        "KEY_6",
        "KEY_7",
        "KEY_8",
        "KEY_9",
        "KEY_0",
        "KEY_MINUS",
        "KEY_EQUAL",
        "KEY_BACKSPACE",
        "KEY_TAB",
        "KEY_Q",
        "KEY_W",
        "KEY_E",
        "KEY_R",
        "KEY_T",
        "KEY_Y",
        "KEY_U",
        "KEY_I",
        "KEY_O",
        "KEY_P",
        "KEY_LEFTBRACE",
        "KEY_RIGHTBRACE",
        "KEY_ENTER",
        "KEY_LEFTCTRL",
        "KEY_A",
        "KEY_S",
        "KEY_D",
        "KEY_F",
        "KEY_G",
        "KEY_H",
        "KEY_J",
        "KEY_K",
        "KEY_L",
        "KEY_SEMICOLON",
        "KEY_APOSTROPHE",
        "KEY_GRAVE",
        "KEY_LEFTSHIFT",
        "KEY_BACKSLASH",
        "KEY_Z",
        "KEY_X",
        "KEY_C",
        "KEY_V",
        "KEY_B",
        "KEY_N",
        "KEY_M",
        "KEY_COMMA",
        "KEY_DOT",
        "KEY_SLASH",
        "KEY_RIGHTSHIFT",
        "KEY_KPASTERISK",
        "KEY_LEFTALT",
        "KEY_SPACE",
        "KEY_CAPSLOCK",
        "KEY_F1",
        "KEY_F2",
        "KEY_F3",
        "KEY_F4",
        "KEY_F5",
        "KEY_F6",
        "KEY_F7",
        "KEY_F8",
        "KEY_F9",
        "KEY_F10",
        "KEY_NUMLOCK",
        "KEY_SCROLLLOCK",
        "KEY_KP7",
        "KEY_KP8",
        "KEY_KP9",
        "KEY_KPMINUS",
        "KEY_KP4",
        "KEY_KP5",
        "KEY_KP6",
        "KEY_KPPLUS",
        "KEY_KP1",
        "KEY_KP2",
        "KEY_KP3",
        "KEY_KP0",
        "KEY_KPDOT",
        "KEY_102ND",
        "KEY_F11",
        "KEY_F12",
        "KEY_KPENTER",
        "KEY_RIGHTCTRL",
        "KEY_KPSLASH",
        "KEY_SYSRQ",
        "KEY_RIGHTALT",
        "KEY_LINEFEED",
        "KEY_HOME",
        "KEY_UP",
        "KEY_PAGEUP",
        "KEY_LEFT",
        "KEY_RIGHT",
        "KEY_END",
        "KEY_DOWN",
        "KEY_PAGEDOWN",
        "KEY_INSERT",
        "KEY_DELETE",
        "KEY_KPCOMMA",
        "KEY_LEFTMETA",
        "KEY_RIGHTMETA",
        "KEY_COMPOSE",
        "KEY_F13",
        "KEY_F14",
        "KEY_F15",
        "KEY_F16",
        "KEY_F17",
        "KEY_F18",
        "KEY_F19",
        "KEY_F20",
        "KEY_F21",
        "KEY_F22",
        "KEY_F23",
        "KEY_F24"
    ]
}

/// Code of the known entry at index `i`: the table runs over 1..=83, then
/// 86..=88, 96..=111, 121, 125..=127 and 183..=194.
pub open spec fn known_code(i: int) -> u16 {
    if i < 83 {
        (i + 1) as u16
    } else if i < 86 {
        (i + 3) as u16
    } else if i < 102 {
        (i + 10) as u16
    } else if i < 103 {
        (i + 19) as u16
    } else if i < 106 {
        (i + 22) as u16
    } else {
        (i + 77) as u16
    }
}

/// Number of known keys.
pub const KNOWN_KEY_COUNT: usize = 118;

/// The table of known key names, in code order.
pub open spec fn known_keys() -> Seq<(&'static str, u16)> {
    Seq::new(118, |i: int| (known_names()[i], known_code(i)))
}

/// Known codes are distinct: the table is strictly increasing.
pub proof fn lemma_known_codes_distinct(i: int, j: int)
    requires
        0 <= i < known_keys().len(),
        0 <= j < known_keys().len(),
        known_keys()[i].1 == known_keys()[j].1,
    ensures
        i == j,
{
}

fn known_code_exec(i: usize) -> (c: u16)
    requires
        i < 118,
    ensures
        c == known_code(i as int),
{
    if i < 83 {
        (i + 1) as u16
    } else if i < 86 {
        (i + 3) as u16
    } else if i < 102 {
        (i + 10) as u16
    } else if i < 103 {
        (i + 19) as u16
    } else if i < 106 {
        (i + 22) as u16
    } else {
        (i + 77) as u16
    }
}

/// Index of a known entry of the given code.
pub open spec fn is_code_at(code: u16, i: int) -> bool {
    0 <= i < known_keys().len() && known_keys()[i].1 == code
}

/// The first known entry whose name is `name`.
pub open spec fn is_first_name_at(name: Seq<char>, i: int) -> bool {
    &&& 0 <= i < known_keys().len()
    &&& known_keys()[i].0@ == name
    &&& forall|j: int| 0 <= j < i ==> known_keys()[j].0@ != name
}

/// Whether some known entry carries this name.
pub open spec fn is_known_name(name: Seq<char>) -> bool {
    exists|i: int| 0 <= i < known_keys().len() && known_keys()[i].0@ == name
}

/// Whether some known entry carries this code.
pub open spec fn is_known_code(code: u16) -> bool {
    exists|i: int| is_code_at(code, i)
}

/// `KEY_0x` followed by the four hexadecimal digits of the code.
pub open spec fn fallback_label(code: u16) -> Seq<char> {
    "KEY_0x"@ + hex4_chars(code)
}

/// The canonical label of a code: its name when it is known, the
/// hexadecimal fallback otherwise.
pub open spec fn code_label(code: u16) -> Seq<char> {
    if is_known_code(code) {
        known_keys()[choose|i: int| is_code_at(code, i)].0@
    } else {
        fallback_label(code)
    }
}

/// The code a name stands for: that of the first entry carrying it.
pub open spec fn code_of_name(name: Seq<char>) -> Option<u16> {
    if is_known_name(name) {
        Some(known_keys()[choose|i: int| is_first_name_at(name, i)].1)
    } else {
        None
    }
}

/// The name of a code, when it is known.
pub open spec fn name_of_code(code: u16) -> Option<Seq<char>> {
    if is_known_code(code) {
        Some(known_keys()[choose|i: int| is_code_at(code, i)].0@)
    } else {
        None
    }
}

impl KeyCode {
    pub fn from_code(code: u16) -> (k: KeyCode)
        ensures
            k@ == code,
    {
        KeyCode(code)
    }

    pub fn code(self) -> (c: u16)
        ensures
            c == self@,
    {
        self.0
    }

    /// Looks a key up by its canonical name (`KEY_A`, `KEY_LEFTCTRL`, ...).
    pub fn from_name(name: &str) -> (r: Result<KeyCode, DomainError>)
        ensures
            r matches Ok(k) ==> exists|i: int| is_first_name_at(name@, i) && k@ == known_keys()[i].1,
            r is Ok <==> is_known_name(name@),
            r matches Err(e) ==> e matches DomainError::UnknownKeyName(n) && n@ == name@,
            r matches Ok(k) ==> code_of_name(name@) == Some(k@),
            r is Err ==> code_of_name(name@) is None,
    {
        let table = Self::known();
        let mut i: usize = 0;
        while i < table.len()
            invariant
                table@ == known_keys(),
                i <= table@.len(),
                forall|j: int| 0 <= j < i ==> known_keys()[j].0@ != name@,
            decreases table@.len() - i,
        {
            let (known, code) = table[i];
            if str_eq(known, name) {
                assert(is_first_name_at(name@, i as int));
                return Ok(KeyCode(code));
            }
            i = i + 1;
        }
        Err(DomainError::UnknownKeyName(name.to_owned()))
    }

    /// Canonical name of the code, if it is a known one.
    pub fn name(self) -> (r: Option<&'static str>)
        ensures
            r matches Some(n) ==> exists|i: int| is_code_at(self@, i) && n == known_keys()[i].0,
            r is Some <==> is_known_code(self@),
            r matches Some(n) ==> name_of_code(self@) == Some(n@),
            r is None ==> name_of_code(self@) is None,
    {
        let table = Self::known();
        let mut i: usize = 0;
        while i < table.len()
            invariant
                table@ == known_keys(),
                i <= table@.len(),
                forall|j: int| 0 <= j < i ==> known_keys()[j].1 != self@,
            decreases table@.len() - i,
        {
            let (name, code) = table[i];
            if code == self.0 {
                assert(is_code_at(self@, i as int));
                return Some(name);
            }
            i = i + 1;
        }
        None
    }

    /// Canonical label; falls back to `KEY_0x....` for unknown codes.
    pub fn label(self) -> (s: String)
        ensures
            is_known_code(self@) ==> exists|i: int| is_code_at(self@, i) && s@ == known_keys()[i].0@,
            !is_known_code(self@) ==> s@ == fallback_label(self@),
            s@ == code_label(self@),
    {
        match self.name() {
            Some(name) => {
                proof {
                    let i = choose|i: int| is_code_at(self@, i) && name == known_keys()[i].0;
                    let j = choose|j: int| is_code_at(self@, j);
                    lemma_known_codes_distinct(i, j);
                }
                name.to_owned()
            },
            None => {
                let mut s = String::from_str("KEY_0x");
                s.append(hex4(self.0).as_str());
                s
            },
        }
    }

    /// The known (name, code) table.
    pub fn known() -> (table: Vec<(&'static str, u16)>)
        ensures
            table@ == known_keys(),
    {
        let names = vec![
            "KEY_ESC",
        "KEY_1",
        "KEY_2",
        "KEY_3",
        "KEY_4",
        "KEY_5",
        "KEY_6",
        "KEY_7",
        "KEY_8",
        "KEY_9",
        "KEY_0",
        "KEY_MINUS",
        "KEY_EQUAL",
        "KEY_BACKSPACE",
        "KEY_TAB",
        "KEY_Q",
        "KEY_W",
        "KEY_E",
        "KEY_R",
        "KEY_T",
        "KEY_Y",
        "KEY_U",
        "KEY_I",
        "KEY_O",
        "KEY_P",
        "KEY_LEFTBRACE",
        "KEY_RIGHTBRACE",
        "KEY_ENTER",
        "KEY_LEFTCTRL",
        "KEY_A",
        "KEY_S",
        "KEY_D",
        "KEY_F",
        "KEY_G",
        "KEY_H",
        "KEY_J",
        "KEY_K",
        "KEY_L",
        "KEY_SEMICOLON",
        "KEY_APOSTROPHE",
        "KEY_GRAVE",
        "KEY_LEFTSHIFT",
        "KEY_BACKSLASH",
        "KEY_Z",
        "KEY_X",
        "KEY_C",
        "KEY_V",
        "KEY_B",
        "KEY_N",
        "KEY_M",
        "KEY_COMMA",
        "KEY_DOT",
        "KEY_SLASH",
        "KEY_RIGHTSHIFT",
        "KEY_KPASTERISK",
        "KEY_LEFTALT",
        "KEY_SPACE",
        "KEY_CAPSLOCK",
        "KEY_F1",
        "KEY_F2",
        "KEY_F3",
        "KEY_F4",
        "KEY_F5",
        "KEY_F6",
        "KEY_F7",
        "KEY_F8",
        "KEY_F9",
        "KEY_F10",
        "KEY_NUMLOCK",
        "KEY_SCROLLLOCK",
        "KEY_KP7",
        "KEY_KP8",
        "KEY_KP9",
        "KEY_KPMINUS",
        "KEY_KP4",
        "KEY_KP5",
        "KEY_KP6",
        "KEY_KPPLUS",
        "KEY_KP1",
        "KEY_KP2",
        "KEY_KP3",
        "KEY_KP0",
        "KEY_KPDOT",
        "KEY_102ND",
        "KEY_F11",
        "KEY_F12",
        "KEY_KPENTER",
        "KEY_RIGHTCTRL",
        "KEY_KPSLASH",
        "KEY_SYSRQ",
        "KEY_RIGHTALT",
        "KEY_LINEFEED",
        "KEY_HOME",
        "KEY_UP",
        "KEY_PAGEUP",
        "KEY_LEFT",
        "KEY_RIGHT",
        "KEY_END",
        "KEY_DOWN",
        "KEY_PAGEDOWN",
        "KEY_INSERT",
        "KEY_DELETE",
        "KEY_KPCOMMA",
        "KEY_LEFTMETA",
        "KEY_RIGHTMETA",
        "KEY_COMPOSE",
        "KEY_F13",
        "KEY_F14",
        "KEY_F15",
        "KEY_F16",
        "KEY_F17",
        "KEY_F18",
        "KEY_F19",
        "KEY_F20",
        "KEY_F21",
        "KEY_F22",
        "KEY_F23",
        "KEY_F24"
        ];
        assert(names@ =~= known_names());
        let mut table: Vec<(&'static str, u16)> = Vec::new();
        let mut i: usize = 0;
        while i < KNOWN_KEY_COUNT
            invariant
                names@ == known_names(),
                names@.len() == 118,
                i <= 118,
                table@ =~= known_keys().take(i as int),
            decreases 118 - i,
        {
            table.push((names[i], known_code_exec(i)));
            i = i + 1;
        }
        assert(table@ =~= known_keys());
        table
    }
}


/// A summary of a key name that tells the known names apart: its length,
/// and its fifth, sixth and last characters.
spec fn name_signature(s: Seq<char>) -> int {
    s.len() * 0x110000 * 0x110000 * 0x110000 + (s[4] as int) * 0x110000 * 0x110000 + (s.last() as int) * 0x110000 + (if s.len() > 5 {
        s[5] as int
    } else {
        0
    })
}

/// Indices of the known entries, in increasing order of name signature.
spec fn signature_order(k: int) -> int {
    if k == 0 {
        10
    } else if k == 1 {
        1
    } else if k == 2 {
        2
    } else if k == 3 {
        3
    } else if k == 4 {
        4
    } else if k == 5 {
        5
    } else if k == 6 {
        6
    } else if k == 7 {
        7
    } else if k == 8 {
        8
    } else if k == 9 {
        9
    } else if k == 10 {
        29
    } else if k == 11 {
        47
    } else if k == 12 {
        45
    } else if k == 13 {
        31
    } else if k == 14 {
        17
    } else if k == 15 {
        32
    } else if k == 16 {
        33
    } else if k == 17 {
        34
    } else if k == 18 {
        22
    } else if k == 19 {
        35
    } else if k == 20 {
        36
    } else if k == 21 {
        37
    } else if k == 22 {
        49
    } else if k == 23 {
        48
    } else if k == 24 {
        23
    } else if k == 25 {
        24
    } else if k == 26 {
        15
    } else if k == 27 {
        18
    } else if k == 28 {
        30
    } else if k == 29 {
        19
    } else if k == 30 {
        21
    } else if k == 31 {
        46
    } else if k == 32 {
        16
    } else if k == 33 {
        44
    } else if k == 34 {
        20
    } else if k == 35 {
        43
    } else if k == 36 {
        58
    } else if k == 37 {
        59
    } else if k == 38 {
        60
    } else if k == 39 {
        61
    } else if k == 40 {
        62
    } else if k == 41 {
        63
    } else if k == 42 {
        64
    } else if k == 43 {
        65
    } else if k == 44 {
        66
    } else if k == 45 {
        93
    } else if k == 46 {
        51
    } else if k == 47 {
        0
    } else if k == 48 {
        97
    } else if k == 49 {
        67
    } else if k == 50 {
        113
    } else if k == 51 {
        84
    } else if k == 52 {
        114
    } else if k == 53 {
        85
    } else if k == 54 {
        115
    } else if k == 55 {
        106
    } else if k == 56 {
        116
    } else if k == 57 {
        107
    } else if k == 58 {
        117
    } else if k == 59 {
        108
    } else if k == 60 {
        109
    } else if k == 61 {
        110
    } else if k == 62 {
        111
    } else if k == 63 {
        112
    } else if k == 64 {
        81
    } else if k == 65 {
        78
    } else if k == 66 {
        79
    } else if k == 67 {
        80
    } else if k == 68 {
        74
    } else if k == 69 {
        75
    } else if k == 70 {
        76
    } else if k == 71 {
        70
    } else if k == 72 {
        71
    } else if k == 73 {
        72
    } else if k == 74 {
        14
    } else if k == 75 {
        98
    } else if k == 76 {
        92
    } else if k == 77 {
        95
    } else if k == 78 {
        83
    } else if k == 79 {
        50
    } else if k == 80 {
        12
    } else if k == 81 {
        27
    } else if k == 82 {
        40
    } else if k == 83 {
        82
    } else if k == 84 {
        11
    } else if k == 85 {
        96
    } else if k == 86 {
        56
    } else if k == 87 {
        52
    } else if k == 88 {
        89
    } else if k == 89 {
        101
    } else if k == 90 {
        100
    } else if k == 91 {
        77
    } else if k == 92 {
        94
    } else if k == 93 {
        105
    } else if k == 94 {
        102
    } else if k == 95 {
        88
    } else if k == 96 {
        86
    } else if k == 97 {
        73
    } else if k == 98 {
        55
    } else if k == 99 {
        68
    } else if k == 100 {
        57
    } else if k == 101 {
        103
    } else if k == 102 {
        91
    } else if k == 103 {
        28
    } else if k == 104 {
        99
    } else if k == 105 {
        90
    } else if k == 106 {
        13
    } else if k == 107 {
        42
    } else if k == 108 {
        25
    } else if k == 109 {
        41
    } else if k == 110 {
        104
    } else if k == 111 {
        87
    } else if k == 112 {
        38
    } else if k == 113 {
        39
    } else if k == 114 {
        54
    } else if k == 115 {
        26
    } else if k == 116 {
        53
    } else {
        69
    }
}

/// Position of a known entry in `signature_order`.
spec fn signature_rank(i: int) -> int {
    if i == 0 {
        47
    } else if i == 1 {
        1
    } else if i == 2 {
        2
    } else if i == 3 {
        3
    } else if i == 4 {
        4
    } else if i == 5 {
        5
    } else if i == 6 {
        6
    } else if i == 7 {
        7
    } else if i == 8 {
        8
    } else if i == 9 {
        9
    } else if i == 10 {
        0
    } else if i == 11 {
        84
    } else if i == 12 {
        80
    } else if i == 13 {
        106
    } else if i == 14 {
        74
    } else if i == 15 {
        26
    } else if i == 16 {
        32
    } else if i == 17 {
        14
    } else if i == 18 {
        27
    } else if i == 19 {
        29
    } else if i == 20 {
        34
    } else if i == 21 {
        30
    } else if i == 22 {
        18
    } else if i == 23 {
        24
    } else if i == 24 {
        25
    } else if i == 25 {
        108
    } else if i == 26 {
        115
    } else if i == 27 {
        81
    } else if i == 28 {
        103
    } else if i == 29 {
        10
    } else if i == 30 {
        28
    } else if i == 31 {
        13
    } else if i == 32 {
        15
    } else if i == 33 {
        16
    } else if i == 34 {
        17
    } else if i == 35 {
        19
    } else if i == 36 {
        20
    } else if i == 37 {
        21
    } else if i == 38 {
        112
    } else if i == 39 {
        113
    } else if i == 40 {
        82
    } else if i == 41 {
        109
    } else if i == 42 {
        107
    } else if i == 43 {
        35
    } else if i == 44 {
        33
    } else if i == 45 {
        12
    } else if i == 46 {
        31
    } else if i == 47 {
        11
    } else if i == 48 {
        23
    } else if i == 49 {
        22
    } else if i == 50 {
        79
    } else if i == 51 {
        46
    } else if i == 52 {
        87
    } else if i == 53 {
        116
    } else if i == 54 {
        114
    } else if i == 55 {
        98
    } else if i == 56 {
        86
    } else if i == 57 {
        100
    } else if i == 58 {
        36
    } else if i == 59 {
        37
    } else if i == 60 {
        38
    } else if i == 61 {
        39
    } else if i == 62 {
        40
    } else if i == 63 {
        41
    } else if i == 64 {
        42
    } else if i == 65 {
        43
    } else if i == 66 {
        44
    } else if i == 67 {
        49
    } else if i == 68 {
        99
    } else if i == 69 {
        117
    } else if i == 70 {
        71
    } else if i == 71 {
        72
    } else if i == 72 {
        73
    } else if i == 73 {
        97
    } else if i == 74 {
        68
    } else if i == 75 {
        69
    } else if i == 76 {
        70
    } else if i == 77 {
        91
    } else if i == 78 {
        65
    } else if i == 79 {
        66
    } else if i == 80 {
        67
    } else if i == 81 {
        64
    } else if i == 82 {
        83
    } else if i == 83 {
        78
    } else if i == 84 {
        51
    } else if i == 85 {
        53
    } else if i == 86 {
        96
    } else if i == 87 {
        111
    } else if i == 88 {
        95
    } else if i == 89 {
        88
    } else if i == 90 {
        105
    } else if i == 91 {
        102
    } else if i == 92 {
        76
    } else if i == 93 {
        45
    } else if i == 94 {
        92
    } else if i == 95 {
        77
    } else if i == 96 {
        85
    } else if i == 97 {
        48
    } else if i == 98 {
        75
    } else if i == 99 {
        104
    } else if i == 100 {
        90
    } else if i == 101 {
        89
    } else if i == 102 {
        94
    } else if i == 103 {
        101
    } else if i == 104 {
        110
    } else if i == 105 {
        93
    } else if i == 106 {
        55
    } else if i == 107 {
        57
    } else if i == 108 {
        59
    } else if i == 109 {
        60
    } else if i == 110 {
        61
    } else if i == 111 {
        62
    } else if i == 112 {
        63
    } else if i == 113 {
        50
    } else if i == 114 {
        52
    } else if i == 115 {
        54
    } else if i == 116 {
        56
    } else {
        58
    }
}

/// Consecutive entries of `signature_order` have increasing signatures.
proof fn lemma_signature_step(k: int)
    requires
        0 <= k < 117,
    ensures
        name_signature(known_names()[signature_order(k)]@) < name_signature(known_names()[signature_order(k + 1)]@),
{
    if k == 0 {
        reveal_strlit("KEY_0");
        reveal_strlit("KEY_1");
    } else if k == 1 {
        reveal_strlit("KEY_1");
        reveal_strlit("KEY_2");
    } else if k == 2 {
        reveal_strlit("KEY_2");
        reveal_strlit("KEY_3");
    } else if k == 3 {
        reveal_strlit("KEY_3");
        reveal_strlit("KEY_4");
    } else if k == 4 {
        reveal_strlit("KEY_4");
        reveal_strlit("KEY_5");
    } else if k == 5 {
        reveal_strlit("KEY_5");
        reveal_strlit("KEY_6");
    } else if k == 6 {
        reveal_strlit("KEY_6");
        reveal_strlit("KEY_7");
    } else if k == 7 {
        reveal_strlit("KEY_7");
        reveal_strlit("KEY_8");
    } else if k == 8 {
        reveal_strlit("KEY_8");
        reveal_strlit("KEY_9");
    } else if k == 9 {
        reveal_strlit("KEY_9");
        reveal_strlit("KEY_A");
    } else if k == 10 {
        reveal_strlit("KEY_A");
        reveal_strlit("KEY_B");
    } else if k == 11 {
        reveal_strlit("KEY_B");
        reveal_strlit("KEY_C");
    } else if k == 12 {
        reveal_strlit("KEY_C");
        reveal_strlit("KEY_D");
    } else if k == 13 {
        reveal_strlit("KEY_D");
        reveal_strlit("KEY_E");
    } else if k == 14 {
        reveal_strlit("KEY_E");
        reveal_strlit("KEY_F");
    } else if k == 15 {
        reveal_strlit("KEY_F");
        reveal_strlit("KEY_G");
    } else if k == 16 {
        reveal_strlit("KEY_G");
        reveal_strlit("KEY_H");
    } else if k == 17 {
        reveal_strlit("KEY_H");
        reveal_strlit("KEY_I");
    } else if k == 18 {
        reveal_strlit("KEY_I");
        reveal_strlit("KEY_J");
    } else if k == 19 {
        reveal_strlit("KEY_J");
        reveal_strlit("KEY_K");
    } else if k == 20 {
        reveal_strlit("KEY_K");
        reveal_strlit("KEY_L");
    } else if k == 21 {
        reveal_strlit("KEY_L");
        reveal_strlit("KEY_M");
    } else if k == 22 {
        reveal_strlit("KEY_M");
        reveal_strlit("KEY_N");
    } else if k == 23 {
        reveal_strlit("KEY_N");
        reveal_strlit("KEY_O");
    } else if k == 24 {
        reveal_strlit("KEY_O");
        reveal_strlit("KEY_P");
    } else if k == 25 {
        reveal_strlit("KEY_P");
        reveal_strlit("KEY_Q");
    } else if k == 26 {
        reveal_strlit("KEY_Q");
        reveal_strlit("KEY_R");
    } else if k == 27 {
        reveal_strlit("KEY_R");
        reveal_strlit("KEY_S");
    } else if k == 28 {
        reveal_strlit("KEY_S");
        reveal_strlit("KEY_T");
    } else if k == 29 {
        reveal_strlit("KEY_T");
        reveal_strlit("KEY_U");
    } else if k == 30 {
        reveal_strlit("KEY_U");
        reveal_strlit("KEY_V");
    } else if k == 31 {
        reveal_strlit("KEY_V");
        reveal_strlit("KEY_W");
    } else if k == 32 {
        reveal_strlit("KEY_W");
        reveal_strlit("KEY_X");
    } else if k == 33 {
        reveal_strlit("KEY_X");
        reveal_strlit("KEY_Y");
    } else if k == 34 {
        reveal_strlit("KEY_Y");
        reveal_strlit("KEY_Z");
    } else if k == 35 {
        reveal_strlit("KEY_Z");
        reveal_strlit("KEY_F1");
    } else if k == 36 {
        reveal_strlit("KEY_F1");
        reveal_strlit("KEY_F2");
    } else if k == 37 {
        reveal_strlit("KEY_F2");
        reveal_strlit("KEY_F3");
    } else if k == 38 {
        reveal_strlit("KEY_F3");
        reveal_strlit("KEY_F4");
    } else if k == 39 {
        reveal_strlit("KEY_F4");
        reveal_strlit("KEY_F5");
    } else if k == 40 {
        reveal_strlit("KEY_F5");
        reveal_strlit("KEY_F6");
    } else if k == 41 {
        reveal_strlit("KEY_F6");
        reveal_strlit("KEY_F7");
    } else if k == 42 {
        reveal_strlit("KEY_F7");
        reveal_strlit("KEY_F8");
    } else if k == 43 {
        reveal_strlit("KEY_F8");
        reveal_strlit("KEY_F9");
    } else if k == 44 {
        reveal_strlit("KEY_F9");
        reveal_strlit("KEY_UP");
    } else if k == 45 {
        reveal_strlit("KEY_UP");
        reveal_strlit("KEY_DOT");
    } else if k == 46 {
        reveal_strlit("KEY_DOT");
        reveal_strlit("KEY_ESC");
    } else if k == 47 {
        reveal_strlit("KEY_ESC");
        reveal_strlit("KEY_END");
    } else if k == 48 {
        reveal_strlit("KEY_END");
        reveal_strlit("KEY_F10");
    } else if k == 49 {
        reveal_strlit("KEY_F10");
        reveal_strlit("KEY_F20");
    } else if k == 50 {
        reveal_strlit("KEY_F20");
        reveal_strlit("KEY_F11");
    } else if k == 51 {
        reveal_strlit("KEY_F11");
        reveal_strlit("KEY_F21");
    } else if k == 52 {
        reveal_strlit("KEY_F21");
        reveal_strlit("KEY_F12");
    } else if k == 53 {
        reveal_strlit("KEY_F12");
        reveal_strlit("KEY_F22");
    } else if k == 54 {
        reveal_strlit("KEY_F22");
        reveal_strlit("KEY_F13");
    } else if k == 55 {
        reveal_strlit("KEY_F13");
        reveal_strlit("KEY_F23");
    } else if k == 56 {
        reveal_strlit("KEY_F23");
        reveal_strlit("KEY_F14");
    } else if k == 57 {
        reveal_strlit("KEY_F14");
        reveal_strlit("KEY_F24");
    } else if k == 58 {
        reveal_strlit("KEY_F24");
        reveal_strlit("KEY_F15");
    } else if k == 59 {
        reveal_strlit("KEY_F15");
        reveal_strlit("KEY_F16");
    } else if k == 60 {
        reveal_strlit("KEY_F16");
        reveal_strlit("KEY_F17");
    } else if k == 61 {
        reveal_strlit("KEY_F17");
        reveal_strlit("KEY_F18");
    } else if k == 62 {
        reveal_strlit("KEY_F18");
        reveal_strlit("KEY_F19");
    } else if k == 63 {
        reveal_strlit("KEY_F19");
        reveal_strlit("KEY_KP0");
    } else if k == 64 {
        reveal_strlit("KEY_KP0");
        reveal_strlit("KEY_KP1");
    } else if k == 65 {
        reveal_strlit("KEY_KP1");
        reveal_strlit("KEY_KP2");
    } else if k == 66 {
        reveal_strlit("KEY_KP2");
        reveal_strlit("KEY_KP3");
    } else if k == 67 {
        reveal_strlit("KEY_KP3");
        reveal_strlit("KEY_KP4");
    } else if k == 68 {
        reveal_strlit("KEY_KP4");
        reveal_strlit("KEY_KP5");
    } else if k == 69 {
        reveal_strlit("KEY_KP5");
        reveal_strlit("KEY_KP6");
    } else if k == 70 {
        reveal_strlit("KEY_KP6");
        reveal_strlit("KEY_KP7");
    } else if k == 71 {
        reveal_strlit("KEY_KP7");
        reveal_strlit("KEY_KP8");
    } else if k == 72 {
        reveal_strlit("KEY_KP8");
        reveal_strlit("KEY_KP9");
    } else if k == 73 {
        reveal_strlit("KEY_KP9");
        reveal_strlit("KEY_TAB");
    } else if k == 74 {
        reveal_strlit("KEY_TAB");
        reveal_strlit("KEY_DOWN");
    } else if k == 75 {
        reveal_strlit("KEY_DOWN");
        reveal_strlit("KEY_HOME");
    } else if k == 76 {
        reveal_strlit("KEY_HOME");
        reveal_strlit("KEY_LEFT");
    } else if k == 77 {
        reveal_strlit("KEY_LEFT");
        reveal_strlit("KEY_102ND");
    } else if k == 78 {
        reveal_strlit("KEY_102ND");
        reveal_strlit("KEY_COMMA");
    } else if k == 79 {
        reveal_strlit("KEY_COMMA");
        reveal_strlit("KEY_EQUAL");
    } else if k == 80 {
        reveal_strlit("KEY_EQUAL");
        reveal_strlit("KEY_ENTER");
    } else if k == 81 {
        reveal_strlit("KEY_ENTER");
        reveal_strlit("KEY_GRAVE");
    } else if k == 82 {
        reveal_strlit("KEY_GRAVE");
        reveal_strlit("KEY_KPDOT");
    } else if k == 83 {
        reveal_strlit("KEY_KPDOT");
        reveal_strlit("KEY_MINUS");
    } else if k == 84 {
        reveal_strlit("KEY_MINUS");
        reveal_strlit("KEY_RIGHT");
    } else if k == 85 {
        reveal_strlit("KEY_RIGHT");
        reveal_strlit("KEY_SPACE");
    } else if k == 86 {
        reveal_strlit("KEY_SPACE");
        reveal_strlit("KEY_SLASH");
    } else if k == 87 {
        reveal_strlit("KEY_SLASH");
        reveal_strlit("KEY_SYSRQ");
    } else if k == 88 {
        reveal_strlit("KEY_SYSRQ");
        reveal_strlit("KEY_DELETE");
    } else if k == 89 {
        reveal_strlit("KEY_DELETE");
        reveal_strlit("KEY_INSERT");
    } else if k == 90 {
        reveal_strlit("KEY_INSERT");
        reveal_strlit("KEY_KPPLUS");
    } else if k == 91 {
        reveal_strlit("KEY_KPPLUS");
        reveal_strlit("KEY_PAGEUP");
    } else if k == 92 {
        reveal_strlit("KEY_PAGEUP");
        reveal_strlit("KEY_COMPOSE");
    } else if k == 93 {
        reveal_strlit("KEY_COMPOSE");
        reveal_strlit("KEY_KPCOMMA");
    } else if k == 94 {
        reveal_strlit("KEY_KPCOMMA");
        reveal_strlit("KEY_KPSLASH");
    } else if k == 95 {
        reveal_strlit("KEY_KPSLASH");
        reveal_strlit("KEY_KPENTER");
    } else if k == 96 {
        reveal_strlit("KEY_KPENTER");
        reveal_strlit("KEY_KPMINUS");
    } else if k == 97 {
        reveal_strlit("KEY_KPMINUS");
        reveal_strlit("KEY_LEFTALT");
    } else if k == 98 {
        reveal_strlit("KEY_LEFTALT");
        reveal_strlit("KEY_NUMLOCK");
    } else if k == 99 {
        reveal_strlit("KEY_NUMLOCK");
        reveal_strlit("KEY_CAPSLOCK");
    } else if k == 100 {
        reveal_strlit("KEY_CAPSLOCK");
        reveal_strlit("KEY_LEFTMETA");
    } else if k == 101 {
        reveal_strlit("KEY_LEFTMETA");
        reveal_strlit("KEY_LINEFEED");
    } else if k == 102 {
        reveal_strlit("KEY_LINEFEED");
        reveal_strlit("KEY_LEFTCTRL");
    } else if k == 103 {
        reveal_strlit("KEY_LEFTCTRL");
        reveal_strlit("KEY_PAGEDOWN");
    } else if k == 104 {
        reveal_strlit("KEY_PAGEDOWN");
        reveal_strlit("KEY_RIGHTALT");
    } else if k == 105 {
        reveal_strlit("KEY_RIGHTALT");
        reveal_strlit("KEY_BACKSPACE");
    } else if k == 106 {
        reveal_strlit("KEY_BACKSPACE");
        reveal_strlit("KEY_BACKSLASH");
    } else if k == 107 {
        reveal_strlit("KEY_BACKSLASH");
        reveal_strlit("KEY_LEFTBRACE");
    } else if k == 108 {
        reveal_strlit("KEY_LEFTBRACE");
        reveal_strlit("KEY_LEFTSHIFT");
    } else if k == 109 {
        reveal_strlit("KEY_LEFTSHIFT");
        reveal_strlit("KEY_RIGHTMETA");
    } else if k == 110 {
        reveal_strlit("KEY_RIGHTMETA");
        reveal_strlit("KEY_RIGHTCTRL");
    } else if k == 111 {
        reveal_strlit("KEY_RIGHTCTRL");
        reveal_strlit("KEY_SEMICOLON");
    } else if k == 112 {
        reveal_strlit("KEY_SEMICOLON");
        reveal_strlit("KEY_APOSTROPHE");
    } else if k == 113 {
        reveal_strlit("KEY_APOSTROPHE");
        reveal_strlit("KEY_KPASTERISK");
    } else if k == 114 {
        reveal_strlit("KEY_KPASTERISK");
        reveal_strlit("KEY_RIGHTBRACE");
    } else if k == 115 {
        reveal_strlit("KEY_RIGHTBRACE");
        reveal_strlit("KEY_RIGHTSHIFT");
    } else if k == 116 {
        reveal_strlit("KEY_RIGHTSHIFT");
        reveal_strlit("KEY_SCROLLLOCK");
    }
}

/// `signature_rank` inverts `signature_order`.
proof fn lemma_signature_rank(i: int)
    requires
        0 <= i < 118,
    ensures
        0 <= signature_rank(i) < 118,
        signature_order(signature_rank(i)) == i,
{
    if i == 0 {
    } else if i == 1 {
    } else if i == 2 {
    } else if i == 3 {
    } else if i == 4 {
    } else if i == 5 {
    } else if i == 6 {
    } else if i == 7 {
    } else if i == 8 {
    } else if i == 9 {
    } else if i == 10 {
    } else if i == 11 {
    } else if i == 12 {
    } else if i == 13 {
    } else if i == 14 {
    } else if i == 15 {
    } else if i == 16 {
    } else if i == 17 {
    } else if i == 18 {
    } else if i == 19 {
    } else if i == 20 {
    } else if i == 21 {
    } else if i == 22 {
    } else if i == 23 {
    } else if i == 24 {
    } else if i == 25 {
    } else if i == 26 {
    } else if i == 27 {
    } else if i == 28 {
    } else if i == 29 {
    } else if i == 30 {
    } else if i == 31 {
    } else if i == 32 {
    } else if i == 33 {
    } else if i == 34 {
    } else if i == 35 {
    } else if i == 36 {
    } else if i == 37 {
    } else if i == 38 {
    } else if i == 39 {
    } else if i == 40 {
    } else if i == 41 {
    } else if i == 42 {
    } else if i == 43 {
    } else if i == 44 {
    } else if i == 45 {
    } else if i == 46 {
    } else if i == 47 {
    } else if i == 48 {
    } else if i == 49 {
    } else if i == 50 {
    } else if i == 51 {
    } else if i == 52 {
    } else if i == 53 {
    } else if i == 54 {
    } else if i == 55 {
    } else if i == 56 {
    } else if i == 57 {
    } else if i == 58 {
    } else if i == 59 {
    } else if i == 60 {
    } else if i == 61 {
    } else if i == 62 {
    } else if i == 63 {
    } else if i == 64 {
    } else if i == 65 {
    } else if i == 66 {
    } else if i == 67 {
    } else if i == 68 {
    } else if i == 69 {
    } else if i == 70 {
    } else if i == 71 {
    } else if i == 72 {
    } else if i == 73 {
    } else if i == 74 {
    } else if i == 75 {
    } else if i == 76 {
    } else if i == 77 {
    } else if i == 78 {
    } else if i == 79 {
    } else if i == 80 {
    } else if i == 81 {
    } else if i == 82 {
    } else if i == 83 {
    } else if i == 84 {
    } else if i == 85 {
    } else if i == 86 {
    } else if i == 87 {
    } else if i == 88 {
    } else if i == 89 {
    } else if i == 90 {
    } else if i == 91 {
    } else if i == 92 {
    } else if i == 93 {
    } else if i == 94 {
    } else if i == 95 {
    } else if i == 96 {
    } else if i == 97 {
    } else if i == 98 {
    } else if i == 99 {
    } else if i == 100 {
    } else if i == 101 {
    } else if i == 102 {
    } else if i == 103 {
    } else if i == 104 {
    } else if i == 105 {
    } else if i == 106 {
    } else if i == 107 {
    } else if i == 108 {
    } else if i == 109 {
    } else if i == 110 {
    } else if i == 111 {
    } else if i == 112 {
    } else if i == 113 {
    } else if i == 114 {
    } else if i == 115 {
    } else if i == 116 {
    } else if i == 117 {
    }
}

/// Signatures grow along `signature_order`.
proof fn lemma_signature_increasing(a: int, b: int)
    requires
        0 <= a < b < 118,
    ensures
        name_signature(known_names()[signature_order(a)]@) < name_signature(known_names()[signature_order(b)]@),
    decreases b - a,
{
    lemma_signature_step(b - 1);
    if a < b - 1 {
        lemma_signature_increasing(a, b - 1);
    }
}

/// Known names are distinct.
pub proof fn lemma_known_names_distinct(i: int, j: int)
    requires
        0 <= i < known_keys().len(),
        0 <= j < known_keys().len(),
        known_keys()[i].0@ == known_keys()[j].0@,
    ensures
        i == j,
{
    lemma_signature_rank(i);
    lemma_signature_rank(j);
    let a = signature_rank(i);
    let b = signature_rank(j);
    if a < b {
        lemma_signature_increasing(a, b);
    } else if b < a {
        lemma_signature_increasing(b, a);
    }
}

/// The known-key table reads both ways: every name in it stands for its
/// code, and that code is named by that name; a text that names no entry
/// stands for no code.
pub proof fn lemma_name_code_roundtrip(i: int, other: Seq<char>)
    requires
        0 <= i < known_keys().len(),
        !is_known_name(other),
    ensures
        code_of_name(known_keys()[i].0@) == Some(known_keys()[i].1),
        name_of_code(known_keys()[i].1) == Some(known_keys()[i].0@),
        code_of_name(other) is None,
{
    let name = known_keys()[i].0@;
    let code = known_keys()[i].1;
    assert forall|j: int| 0 <= j < i implies known_keys()[j].0@ != name by {
        if known_keys()[j].0@ == name {
            lemma_known_names_distinct(j, i);
        }
    }
    assert(is_first_name_at(name, i));
    let f = choose|f: int| is_first_name_at(name, f);
    lemma_known_names_distinct(f, i);
    assert(is_code_at(code, i));
    let c = choose|c: int| is_code_at(code, c);
    lemma_known_codes_distinct(c, i);
}

} // verus!
