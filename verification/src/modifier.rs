//! Modifier keys and their canonical press order.

use vstd::prelude::*;

use crate::key::{
    KeyCode, KEY_LEFTALT, KEY_LEFTCTRL, KEY_LEFTMETA, KEY_LEFTSHIFT, KEY_RIGHTALT, KEY_RIGHTCTRL,
    KEY_RIGHTMETA, KEY_RIGHTSHIFT,
};

verus! {

/// Modifier key family.
#[derive(Debug, Clone, Copy, PartialEq, Eq, Structural, Hash, PartialOrd, Ord)]
pub enum ModifierKind {
    Ctrl,
    Shift,
    Alt,
    Logo,
}

/// Physical modifier key.
///
/// Variant order defines the canonical press order
/// (Ctrl, then Shift, then Alt, then Logo; left before right).
#[derive(Debug, Clone, Copy, PartialEq, Eq, Structural, Hash, PartialOrd, Ord)]
pub enum Modifier {
    LeftCtrl,
    RightCtrl,
    LeftShift,
    RightShift,
    LeftAlt,
    RightAlt,
    LeftMeta,
    RightMeta,
}

/// Position of a modifier in the canonical press order.
pub open spec fn rank(m: Modifier) -> int {
    match m {
        Modifier::LeftCtrl => 0,
        Modifier::RightCtrl => 1,
        Modifier::LeftShift => 2,
        Modifier::RightShift => 3,
        Modifier::LeftAlt => 4,
        Modifier::RightAlt => 5,
        Modifier::LeftMeta => 6,
        Modifier::RightMeta => 7,
    }
}

/// The modifier at a canonical position.
pub open spec fn modifier_at(i: int) -> Modifier {
    if i == 0 {
        Modifier::LeftCtrl
    } else if i == 1 {
        Modifier::RightCtrl
    } else if i == 2 {
        Modifier::LeftShift
    } else if i == 3 {
        Modifier::RightShift
    } else if i == 4 {
        Modifier::LeftAlt
    } else if i == 5 {
        Modifier::RightAlt
    } else if i == 6 {
        Modifier::LeftMeta
    } else {
        Modifier::RightMeta
    }
}

/// Key code injected for a modifier.
pub open spec fn modifier_code(m: Modifier) -> u16 {
    match m {
        Modifier::LeftCtrl => KEY_LEFTCTRL,
        Modifier::RightCtrl => KEY_RIGHTCTRL,
        Modifier::LeftShift => KEY_LEFTSHIFT,
        Modifier::RightShift => KEY_RIGHTSHIFT,
        Modifier::LeftAlt => KEY_LEFTALT,
        Modifier::RightAlt => KEY_RIGHTALT,
        Modifier::LeftMeta => KEY_LEFTMETA,
        Modifier::RightMeta => KEY_RIGHTMETA,
    }
}

/// Family of a modifier.
pub open spec fn modifier_kind(m: Modifier) -> ModifierKind {
    match m {
        Modifier::LeftCtrl | Modifier::RightCtrl => ModifierKind::Ctrl,
        Modifier::LeftShift | Modifier::RightShift => ModifierKind::Shift,
        Modifier::LeftAlt | Modifier::RightAlt => ModifierKind::Alt,
        Modifier::LeftMeta | Modifier::RightMeta => ModifierKind::Logo,
    }
}

/// The modifier injected by a key code, if any.
pub open spec fn modifier_of_code(code: u16) -> Option<Modifier> {
    if code == KEY_LEFTCTRL {
        Some(Modifier::LeftCtrl)
    } else if code == KEY_RIGHTCTRL {
        Some(Modifier::RightCtrl)
    } else if code == KEY_LEFTSHIFT {
        Some(Modifier::LeftShift)
    } else if code == KEY_RIGHTSHIFT {
        Some(Modifier::RightShift)
    } else if code == KEY_LEFTALT {
        Some(Modifier::LeftAlt)
    } else if code == KEY_RIGHTALT {
        Some(Modifier::RightAlt)
    } else if code == KEY_LEFTMETA {
        Some(Modifier::LeftMeta)
    } else if code == KEY_RIGHTMETA {
        Some(Modifier::RightMeta)
    } else {
        None
    }
}

impl Modifier {
    /// The 8 modifiers, in canonical press order.
    pub fn all() -> (all: Vec<Modifier>)
        ensures
            all@.len() == 8,
            forall|i: int| 0 <= i < 8 ==> #[trigger] all@[i] == modifier_at(i),
            forall|i: int| 0 <= i < 8 ==> rank(#[trigger] all@[i]) == i,
    {
        let all = vec![
            Modifier::LeftCtrl,
            Modifier::RightCtrl,
            Modifier::LeftShift,
            Modifier::RightShift,
            Modifier::LeftAlt,
            Modifier::RightAlt,
            Modifier::LeftMeta,
            Modifier::RightMeta,
        ];
        assert(all@ =~= seq![
            modifier_at(0),
            modifier_at(1),
            modifier_at(2),
            modifier_at(3),
            modifier_at(4),
            modifier_at(5),
            modifier_at(6),
            modifier_at(7),
        ]);
        all
    }

    /// Position in the canonical press order.
    pub fn rank(self) -> (r: u8)
        ensures
            r == rank(self),
    {
        match self {
            Modifier::LeftCtrl => 0,
            Modifier::RightCtrl => 1,
            Modifier::LeftShift => 2,
            Modifier::RightShift => 3,
            Modifier::LeftAlt => 4,
            Modifier::RightAlt => 5,
            Modifier::LeftMeta => 6,
            Modifier::RightMeta => 7,
        }
    }

    pub fn kind(self) -> (k: ModifierKind)
        ensures
            k == modifier_kind(self),
    {
        match self {
            Modifier::LeftCtrl | Modifier::RightCtrl => ModifierKind::Ctrl,
            Modifier::LeftShift | Modifier::RightShift => ModifierKind::Shift,
            Modifier::LeftAlt | Modifier::RightAlt => ModifierKind::Alt,
            Modifier::LeftMeta | Modifier::RightMeta => ModifierKind::Logo,
        }
    }

    pub fn key_code(self) -> (k: KeyCode)
        ensures
            k@ == modifier_code(self),
    {
        let code = match self {
            Modifier::LeftCtrl => KEY_LEFTCTRL,
            Modifier::RightCtrl => KEY_RIGHTCTRL,
            Modifier::LeftShift => KEY_LEFTSHIFT,
            Modifier::RightShift => KEY_RIGHTSHIFT,
            Modifier::LeftAlt => KEY_LEFTALT,
            Modifier::RightAlt => KEY_RIGHTALT,
            Modifier::LeftMeta => KEY_LEFTMETA,
            Modifier::RightMeta => KEY_RIGHTMETA,
        };
        KeyCode::from_code(code)
    }

    /// The modifier whose key code is `code`, if any.
    pub fn from_key_code(code: KeyCode) -> (r: Option<Modifier>)
        ensures
            r == modifier_of_code(code@),
            r matches Some(m) ==> modifier_code(m) == code@,
    {
        let all = Modifier::all();
        let mut i: usize = 0;
        while i < all.len()
            invariant
                all@.len() == 8,
                forall|j: int| 0 <= j < 8 ==> #[trigger] all@[j] == modifier_at(j),
                i <= 8,
                forall|j: int| 0 <= j < i ==> modifier_code(modifier_at(j)) != code@,
            decreases 8 - i,
        {
            let modifier = all[i];
            if modifier.key_code().code() == code.code() {
                return Some(modifier);
            }
            i = i + 1;
        }
        assert(forall|j: int| 0 <= j < 8 ==> modifier_code(modifier_at(j)) != code@);
        assert(modifier_code(modifier_at(0)) != code@);
        assert(modifier_code(modifier_at(1)) != code@);
        assert(modifier_code(modifier_at(2)) != code@);
        assert(modifier_code(modifier_at(3)) != code@);
        assert(modifier_code(modifier_at(4)) != code@);
        assert(modifier_code(modifier_at(5)) != code@);
        assert(modifier_code(modifier_at(6)) != code@);
        assert(modifier_code(modifier_at(7)) != code@);
        None
    }

    /// Display text (`left-ctrl`, `right-shift`, ...).
    pub fn to_string(self) -> (s: String)
        ensures
            s@ == modifier_text(self)@,
    {
        String::from_str(modifier_text_exec(self))
    }
}

/// Display text of a modifier.
pub open spec fn modifier_text(m: Modifier) -> &'static str {
    match m {
        Modifier::LeftCtrl => "left-ctrl",
        Modifier::RightCtrl => "right-ctrl",
        Modifier::LeftShift => "left-shift",
        Modifier::RightShift => "right-shift",
        Modifier::LeftAlt => "left-alt",
        Modifier::RightAlt => "right-alt",
        Modifier::LeftMeta => "left-meta",
        Modifier::RightMeta => "right-meta",
    }
}

fn modifier_text_exec(m: Modifier) -> (s: &'static str)
    ensures
        s == modifier_text(m),
{
    match m {
        Modifier::LeftCtrl => "left-ctrl",
        Modifier::RightCtrl => "right-ctrl",
        Modifier::LeftShift => "left-shift",
        Modifier::RightShift => "right-shift",
        Modifier::LeftAlt => "left-alt",
        Modifier::RightAlt => "right-alt",
        Modifier::LeftMeta => "left-meta",
        Modifier::RightMeta => "right-meta",
    }
}

/// Every modifier is found again from its own key code.
pub proof fn lemma_from_key_code_roundtrip(m: Modifier)
    ensures
        modifier_of_code(modifier_code(m)) == Some(m),
{
}

} // verus!
