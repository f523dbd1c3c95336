//! Interface languages: the embedded locales, their native names, the
//! locale a system setting stands for and the one in effect.

use vstd::prelude::*;

use crate::config::{config_root, join_path, joined};
use crate::text::str_eq;

verus! {

/// Embedded locales, in display order.
pub open spec fn locales() -> Seq<Seq<char>> {
    seq!["fr"@, "en"@, "de"@, "es"@, "it"@, "pt-BR"@]
}

/// The embedded locales, in display order.
pub fn locale_list() -> (v: Vec<&'static str>)
    ensures
        v@.map_values(|s: &'static str| s@) == locales(),
{
    let v = vec!["fr", "en", "de", "es", "it", "pt-BR"];
    assert(v@.map_values(|s: &'static str| s@) =~= locales());
    v
}

/// Whether a text is one of the embedded locales.
pub fn is_locale(s: &str) -> (r: bool)
    ensures
        r == locales().contains(s@),
{
    let list = locale_list();
    let mut i: usize = 0;
    while i < list.len()
        invariant
            list@.map_values(|s: &'static str| s@) == locales(),
            i <= list@.len(),
            forall|j: int| 0 <= j < i ==> locales()[j] != s@,
        decreases list@.len() - i,
    {
        if str_eq(list[i], s) {
            assert(locales()[i as int] == s@);
            return true;
        }
        i = i + 1;
    }
    false
}

/// The native display name of a locale (never translated); any other text
/// is its own name.
pub open spec fn native_name_of(locale: Seq<char>) -> Seq<char> {
    if locale == "fr"@ {
        "Fran\u{e7}ais"@
    } else if locale == "en"@ {
        "English"@
    } else if locale == "de"@ {
        "Deutsch"@
    } else if locale == "es"@ {
        "Espa\u{f1}ol"@
    } else if locale == "it"@ {
        "Italiano"@
    } else if locale == "pt-BR"@ {
        "Portugu\u{ea}s (Brasil)"@
    } else {
        locale
    }
}

/// Native display name of a locale.
pub fn native_name(locale: &str) -> (name: &str)
    ensures
        name@ == native_name_of(locale@),
{
    if str_eq(locale, "fr") {
        "Fran\u{e7}ais"
    } else if str_eq(locale, "en") {
        "English"
    } else if str_eq(locale, "de") {
        "Deutsch"
    } else if str_eq(locale, "es") {
        "Espa\u{f1}ol"
    } else if str_eq(locale, "it") {
        "Italiano"
    } else if str_eq(locale, "pt-BR") {
        "Portugu\u{ea}s (Brasil)"
    } else {
        locale
    }
}

/// ASCII lower case of a character.
pub open spec fn ascii_lower(c: char) -> char {
    if 'A' <= c && c <= 'Z' {
        ((c as u32) + 32) as char
    } else {
        c
    }
}

fn to_ascii_lower(c: char) -> (r: char)
    ensures
        r == ascii_lower(c),
{
    if 'A' <= c && c <= 'Z' {
        let lower = (c as u8) + 32;
        proof {
            assert(lower as u32 == (c as u32) + 32);
        }
        lower as char
    } else {
        c
    }
}

/// The text before the first occurrence of `sep` (all of it without one).
pub open spec fn before_first(s: Seq<char>, sep: char) -> Seq<char>
    decreases s.len(),
{
    if s.len() == 0 {
        s
    } else if s[0] == sep {
        Seq::empty()
    } else {
        seq![s[0]] + before_first(s.drop_first(), sep)
    }
}

/// The part of a locale setting (`fr_FR.UTF-8`) that names a language:
/// the text before the first `.`, with `_` written `-`.
pub open spec fn language_tag(raw: Seq<char>) -> Seq<char> {
    before_first(raw, '.').map_values(|c: char| if c == '_' { '-' } else { c })
}

/// The locale a system setting stands for: `pt-BR` for a Brazilian
/// Portuguese tag (in any case), else the embedded locale named by the
/// tag's primary subtag (in any case), else `en`.
pub open spec fn system_locale_of(raw: Seq<char>) -> Seq<char> {
    let tag = language_tag(raw);
    if tag.map_values(|c: char| ascii_lower(c)) == "pt-br"@ {
        "pt-BR"@
    } else {
        let primary = before_first(tag, '-').map_values(|c: char| ascii_lower(c));
        if locales().contains(primary) {
            primary
        } else {
            "en"@
        }
    }
}

/// The locale of a system setting (`LC_ALL`, else `LANG`): `fr_FR.UTF-8`
/// gives `fr`, `pt_BR.utf8` gives `pt-BR`, anything unknown `en`.
pub fn system_locale(raw: &str) -> (locale: String)
    ensures
        locale@ == system_locale_of(raw@),
{
    proof {
        reveal_strlit("pt-br");
    }
    let n = raw.unicode_len();
    let mut tag: Vec<char> = Vec::new();
    let mut i: usize = 0;
    while i < n && raw.get_char(i) != '.'
        invariant
            n == raw@.len(),
            i <= n,
            forall|j: int| 0 <= j < i ==> raw@[j] != '.',
            tag@ == raw@.take(i as int).map_values(|c: char| if c == '_' { '-' } else { c }),
        decreases n - i,
    {
        let c = raw.get_char(i);
        tag.push(if c == '_' { '-' } else { c });
        assert(raw@.take(i + 1) =~= raw@.take(i as int).push(c));
        assert(tag@ =~= raw@.take(i + 1).map_values(|c: char| if c == '_' { '-' } else { c }));
        i = i + 1;
    }
    proof {
        lemma_before_first(raw@, '.', i as int);
    }
    let mut lower: Vec<char> = Vec::new();
    let mut k: usize = 0;
    while k < tag.len()
        invariant
            k <= tag@.len(),
            lower@ == tag@.take(k as int).map_values(|c: char| ascii_lower(c)),
        decreases tag@.len() - k,
    {
        lower.push(to_ascii_lower(tag[k]));
        assert(tag@.take(k + 1) =~= tag@.take(k as int).push(tag@[k as int]));
        assert(lower@ =~= tag@.take(k + 1).map_values(|c: char| ascii_lower(c)));
        k = k + 1;
    }
    assert(tag@.take(k as int) =~= tag@);
    if chars_are(&lower, "pt-br") {
        return String::from_str("pt-BR");
    }
    let mut p: usize = 0;
    while p < tag.len() && tag[p] != '-'
        invariant
            p <= tag@.len(),
            forall|j: int| 0 <= j < p ==> tag@[j] != '-',
        decreases tag@.len() - p,
    {
        p = p + 1;
    }
    proof {
        lemma_before_first(tag@, '-', p as int);
    }
    let mut primary: Vec<char> = Vec::new();
    let mut q: usize = 0;
    while q < p
        invariant
            p <= tag@.len(),
            lower@ == tag@.map_values(|c: char| ascii_lower(c)),
            q <= p,
            primary@ == tag@.take(q as int).map_values(|c: char| ascii_lower(c)),
        decreases p - q,
    {
        primary.push(lower[q]);
        proof {
            assert(tag@.take(q + 1) =~= tag@.take(q as int).push(tag@[q as int]));
        }
        assert(primary@ =~= tag@.take(q + 1).map_values(|c: char| ascii_lower(c)));
        q = q + 1;
    }
    assert(tag@.take(p as int).map_values(|c: char| ascii_lower(c)) =~= primary@);
    assert(system_locale_of(raw@) == if locales().contains(primary@) { primary@ } else { "en"@ });
    let list = locale_list();
    let mut i: usize = 0;
    while i < list.len()
        invariant
            list@.map_values(|s: &'static str| s@) == locales(),
            i <= list@.len(),
            forall|j: int| 0 <= j < i ==> locales()[j] != primary@,
            system_locale_of(raw@) == if locales().contains(primary@) { primary@ } else { "en"@ },
        decreases list@.len() - i,
    {
        if chars_are(&primary, list[i]) {
            assert(locales()[i as int] == primary@);
            assert(list@[i as int]@ == primary@);
            return String::from_str(list[i]);
        }
        i = i + 1;
    }
    String::from_str("en")
}

/// Whether a list of characters spells a text.
fn chars_are(chars: &Vec<char>, s: &str) -> (r: bool)
    ensures
        r == (chars@ == s@),
{
    let n = s.unicode_len();
    if chars.len() != n {
        return false;
    }
    let mut i: usize = 0;
    while i < n
        invariant
            n == s@.len(),
            chars@.len() == n,
            i <= n,
            forall|j: int| 0 <= j < i ==> chars@[j] == s@[j],
        decreases n - i,
    {
        if chars[i] != s.get_char(i) {
            return false;
        }
        i = i + 1;
    }
    assert(chars@ =~= s@);
    true
}

/// The text before the first separator is the prefix up to the first
/// position holding it.
proof fn lemma_before_first(s: Seq<char>, sep: char, i: int)
    requires
        0 <= i <= s.len(),
        forall|j: int| 0 <= j < i ==> s[j] != sep,
        i < s.len() ==> s[i] == sep,
    ensures
        before_first(s, sep) == s.take(i),
    decreases s.len(),
{
    if s.len() == 0 {
        assert(s.take(i) =~= s);
    } else if s[0] == sep {
        assert(i == 0);
        assert(s.take(0) =~= Seq::<char>::empty());
    } else {
        lemma_before_first(s.drop_first(), sep, i - 1);
        assert(s.take(i) =~= seq![s[0]] + s.drop_first().take(i - 1));
    }
}

/// The project's home page.
pub const PROJECT_URL: &'static str = "https://github.com/4lador/razer-trinity-mapper";

/// Persisted GUI settings: the chosen interface language, if any.
#[derive(Debug, Clone, Default, PartialEq, Eq)]
pub struct GuiSettings {
    pub locale: Option<String>,
}

impl GuiSettings {
    /// Where the settings are stored: `gui.toml` in the mapper's directory
    /// below the user's configuration directory (the working directory
    /// when there is none).
    pub fn path(config_dir: Option<&str>) -> (p: String)
        ensures
            p@ == joined(
                joined(
                    match config_dir {
                        Some(d) => d@,
                        None => "."@,
                    },
                    "razer-trinity-mapper"@,
                ),
                "gui.toml"@,
            ),
    {
        let root = config_root(config_dir);
        join_path(root.as_str(), "gui.toml")
    }

    /// The locale in effect: the user's choice when it is an embedded
    /// locale, else the system's.
    pub fn effective_locale(&self, system: &str) -> (locale: String)
        ensures
            locale@ == match self.locale {
                Some(l) => if locales().contains(l@) { l@ } else { system@ },
                None => system@,
            },
    {
        match &self.locale {
            Some(l) => {
                if is_locale(l.as_str()) {
                    return l.clone();
                }
            },
            None => {},
        }
        String::from_str(system)
    }
}

} // verus!
