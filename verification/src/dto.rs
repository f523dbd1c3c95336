//! The IPC protocol's messages and the conversion of profiles to and from
//! their exchanged form (buttons with key and modifier names).

use vstd::prelude::*;

use crate::button::Button;
use crate::combo::{canonical_of, is_canonical, lemma_canonical_fixed, KeyCombination};
use crate::error::{AppError, AppErrorView, DomainErrorView};
use crate::key::{code_of_name, fallback_label, is_code_at, is_first_name_at, is_known_code, is_known_name, known_keys, lemma_known_codes_distinct, lemma_known_names_distinct, KeyCode};
use crate::modifier::{lemma_from_key_code_roundtrip, modifier_code, modifier_of_code, Modifier};
use crate::order::texts;
use crate::profile::{ComboView, Profile, ProfileView};
use crate::slots::{empty_slots, present};
use crate::text::is_blank;

verus! {

/// Request sent to the daemon.
#[derive(Debug, Clone, PartialEq, Eq)]
pub enum Request {
    GetStatus,
    SetEnabled { enabled: bool },
    ListProfiles,
    GetProfile { name: String },
    SaveProfile { profile: ProfileDto },
    SetProfile { name: String },
    DeleteProfile { name: String },
    RenameProfile { from: String, to: String },
    BeginCalibration,
    CancelCalibration,
    FinishCalibration,
    Shutdown,
}

/// Response from the daemon.
#[derive(Debug, Clone, PartialEq, Eq)]
pub enum Response {
    /// The request was carried out (`ok` on the wire).
    Success,
    Error { message: String },
    Status(Status),
    Profiles { names: Vec<String> },
    Profile { profile: ProfileDto },
}

/// Snapshot of the daemon state.
#[derive(Debug, Clone, PartialEq, Eq)]
pub struct Status {
    pub device_present: bool,
    pub enabled: bool,
    pub calibrated: bool,
    pub profile: Option<String>,
    pub calibrating: bool,
    pub current_button: Option<u8>,
    pub captured_count: usize,
    pub total_buttons: usize,
    pub error: Option<String>,
}

/// A profile as exchanged over IPC: its name and its mapped buttons.
#[derive(Debug, Clone, PartialEq, Eq)]
pub struct ProfileDto {
    pub name: String,
    pub buttons: Vec<ButtonMappingDto>,
}

/// One mapped button: its number, the key name and the modifier names.
#[derive(Debug, Clone, PartialEq, Eq)]
pub struct ButtonMappingDto {
    pub button: u8,
    pub key: String,
    pub modifiers: Vec<String>,
}

/// Button number, key name, modifier names.
pub type MappingView = (u8, Seq<char>, Seq<Seq<char>>);

/// Profile name and mapped buttons.
pub type DtoView = (Seq<char>, Seq<MappingView>);

impl View for ButtonMappingDto {
    type V = MappingView;

    open spec fn view(&self) -> MappingView {
        (self.button, self.key@, texts(self.modifiers@))
    }
}

impl View for ProfileDto {
    type V = DtoView;

    open spec fn view(&self) -> DtoView {
        (self.name@, self.buttons@.map_values(|m: ButtonMappingDto| m@))
    }
}

/// The canonical name of a known key code.
pub open spec fn key_name(code: u16) -> Seq<char> {
    known_keys()[choose|i: int| is_code_at(code, i)].0@
}

/// The message of a key that has no name.
pub open spec fn unnamed_key(code: u16) -> Seq<char> {
    "key without a known name: "@ + fallback_label(code)
}

/// The exchanged form of one mapped button.
pub open spec fn mapping_of(button: int, c: ComboView) -> MappingView {
    (button as u8, key_name(c.1), c.0.map_values(|m: Modifier| key_name(modifier_code(m))))
}

/// The exchanged forms of mapped buttons, in order; fails on the first
/// key that has no name.
pub open spec fn dto_entries(entries: Seq<(int, ComboView)>) -> Result<Seq<MappingView>, AppErrorView>
    decreases entries.len(),
{
    if entries.len() == 0 {
        Ok(Seq::empty())
    } else {
        match dto_entries(entries.drop_last()) {
            Err(e) => Err(e),
            Ok(ms) => {
                let (b, c) = entries.last();
                if is_known_code(c.1) {
                    Ok(ms.push(mapping_of(b, c)))
                } else {
                    Err(AppErrorView::Port(unnamed_key(c.1)))
                }
            },
        }
    }
}

/// The exchanged form of a profile.
pub open spec fn dto_of(p: ProfileView) -> Result<DtoView, AppErrorView> {
    match dto_entries(present(p.1)) {
        Ok(ms) => Ok((p.0, ms)),
        Err(e) => Err(e),
    }
}

/// The first known entry carrying a name.
pub open spec fn first_name_index(name: Seq<char>) -> int {
    choose|i: int| is_first_name_at(name, i)
}

/// The code a key name stands for.
pub open spec fn parse_key_spec(name: Seq<char>) -> Result<u16, AppErrorView> {
    if is_known_name(name) {
        Ok(known_keys()[first_name_index(name)].1)
    } else {
        Err(AppErrorView::Domain(DomainErrorView::UnknownKeyName(name)))
    }
}

/// The message of a key name that names no modifier.
pub open spec fn not_a_modifier(name: Seq<char>) -> Seq<char> {
    "'"@ + name + "' is not a modifier"@
}

/// The modifier a key name stands for.
pub open spec fn parse_modifier_spec(name: Seq<char>) -> Result<Modifier, AppErrorView> {
    match parse_key_spec(name) {
        Err(e) => Err(e),
        Ok(c) => match modifier_of_code(c) {
            Some(m) => Ok(m),
            None => Err(AppErrorView::Port(not_a_modifier(name))),
        },
    }
}

/// The modifiers of a list of names, in order; fails on the first bad one.
pub open spec fn parse_modifiers_spec(names: Seq<Seq<char>>) -> Result<Seq<Modifier>, AppErrorView>
    decreases names.len(),
{
    if names.len() == 0 {
        Ok(Seq::empty())
    } else {
        match parse_modifiers_spec(names.drop_last()) {
            Err(e) => Err(e),
            Ok(ms) => match parse_modifier_spec(names.last()) {
                Err(e) => Err(e),
                Ok(m) => Ok(ms.push(m)),
            },
        }
    }
}

/// One mapping read back: modifiers, then key, then the combination, then
/// the button number are checked, in that order.
pub open spec fn mapping_spec(button: u8, key: Seq<char>, modifiers: Seq<Seq<char>>) -> Result<(int, ComboView), AppErrorView> {
    match parse_modifiers_spec(modifiers) {
        Err(e) => Err(e),
        Ok(ms) => match parse_key_spec(key) {
            Err(e) => Err(e),
            Ok(k) => if !ms.no_duplicates() {
                Err(AppErrorView::Domain(DomainErrorView::DuplicateModifier))
            } else if !(1 <= button <= 12) {
                Err(AppErrorView::Domain(DomainErrorView::InvalidButton(button)))
            } else {
                Ok((button as int, (canonical_of(ms), k)))
            },
        },
    }
}

/// Applies mappings in order, later ones replacing earlier ones of the
/// same button; fails on the first bad mapping.
pub open spec fn apply_mappings(p: ProfileView, ms: Seq<MappingView>) -> Result<ProfileView, AppErrorView>
    decreases ms.len(),
{
    if ms.len() == 0 {
        Ok(p)
    } else {
        match apply_mappings(p, ms.drop_last()) {
            Err(e) => Err(e),
            Ok(q) => match mapping_spec(ms.last().0, ms.last().1, ms.last().2) {
                Err(e) => Err(e),
                Ok((b, c)) => Ok((q.0, q.1.update(b - 1, Some(c)))),
            },
        }
    }
}

/// Mappings read back give canonical modifiers, named keys and the slots
/// of the twelve buttons.
proof fn lemma_applied_valid(p: ProfileView, ms: Seq<MappingView>)
    requires
        valid_slots(p.1),
        keys_named(p.1),
    ensures
        apply_mappings(p, ms) matches Ok(q) ==> valid_slots(q.1) && keys_named(q.1) && q.0 == p.0,
    decreases ms.len(),
{
    if ms.len() > 0 {
        lemma_applied_valid(p, ms.drop_last());
        match apply_mappings(p, ms.drop_last()) {
            Ok(q) => {
                let m = ms.last();
                match mapping_spec(m.0, m.1, m.2) {
                    Ok((b, c)) => {
                        let mods = parse_modifiers_spec(m.2)->Ok_0;
                        crate::combo::lemma_canonical_of_is_canonical(mods);
                        lemma_name_parses_back(m.1);
                        let r = q.1.update(b - 1, Some(c));
                        assert forall|i: int| 0 <= i < 12 && (#[trigger] r[i]) is Some implies is_canonical((r[i]->0).0) by {
                            if i != b - 1 {
                                assert(r[i] == q.1[i]);
                            }
                        }
                        assert forall|i: int| 0 <= i < r.len() && (#[trigger] r[i]) is Some implies is_known_code((r[i]->0).1) by {
                            if i != b - 1 {
                                assert(r[i] == q.1[i]);
                            }
                        }
                    },
                    Err(_) => {},
                }
            },
            Err(_) => {},
        }
    }
}

/// An exchanged profile that reads back reads back the same once written
/// again: reading normalizes, and the normal form is stable.
pub proof fn lemma_dto_profile_roundtrip(d: DtoView)
    requires
        profile_of_dto(d) is Ok,
    ensures
        dto_of(profile_of_dto(d)->Ok_0) is Ok,
        profile_of_dto(dto_of(profile_of_dto(d)->Ok_0)->Ok_0) == profile_of_dto(d),
{
    let e = empty_slots::<ComboView>();
    assert(valid_slots(e) && keys_named(e));
    lemma_applied_valid((d.0, e), d.1);
    lemma_profile_dto_roundtrip(profile_of_dto(d)->Ok_0);
}

/// Buttons listed in strictly increasing order.
pub open spec fn ascending_buttons(ms: Seq<MappingView>) -> bool {
    forall|i: int, j: int| 0 <= i < j < ms.len() ==> ms[i].0 < ms[j].0
}

/// Each mapping's modifier names, where they parse, name modifiers in
/// canonical press order.
pub open spec fn canonical_names(ms: Seq<MappingView>) -> bool {
    forall|i: int|
        0 <= i < ms.len() ==> (parse_modifiers_spec(#[trigger] ms[i].2) matches Ok(mods) ==> is_canonical(mods))
}

/// Modifier names that parse are the names of the modifiers they parse to.
proof fn lemma_modifier_names_back(names: Seq<Seq<char>>)
    ensures
        parse_modifiers_spec(names) matches Ok(mods) ==> mods.map_values(
            |m: Modifier| key_name(modifier_code(m)),
        ) == names,
    decreases names.len(),
{
    if names.len() > 0 {
        lemma_modifier_names_back(names.drop_last());
        if let Ok(mods) = parse_modifiers_spec(names) {
            let n = names.last();
            lemma_name_parses_back(n);
            let prev = parse_modifiers_spec(names.drop_last())->Ok_0;
            assert(mods == prev.push(parse_modifier_spec(n)->Ok_0));
            assert(mods.map_values(|m: Modifier| key_name(modifier_code(m))) =~= prev.map_values(
                |m: Modifier| key_name(modifier_code(m)),
            ).push(key_name(modifier_code(parse_modifier_spec(n)->Ok_0))));
            assert(names =~= names.drop_last().push(n));
        }
    }
}

/// Slots holding nothing have nothing present.
proof fn lemma_present_none<T>(s: Seq<Option<T>>)
    requires
        forall|j: int| 0 <= j < s.len() ==> (#[trigger] s[j]) is None,
    ensures
        present(s) == Seq::<(int, T)>::empty(),
    decreases s.len(),
{
    if s.len() > 0 {
        lemma_present_none(s.drop_last());
    }
}

/// Filling a slot after which every slot is empty adds it last.
proof fn lemma_present_fill_last<T>(s: Seq<Option<T>>, t: int, x: T)
    requires
        0 <= t < s.len(),
        forall|j: int| t <= j < s.len() ==> (#[trigger] s[j]) is None,
    ensures
        present(s.update(t, Some(x))) == present(s) + seq![(t + 1, x)],
    decreases s.len(),
{
    let u = s.update(t, Some(x));
    if t == s.len() - 1 {
        assert(u.drop_last() =~= s.drop_last());
    } else {
        assert(u.drop_last() =~= s.drop_last().update(t, Some(x)));
        lemma_present_fill_last(s.drop_last(), t, x);
    }
}

/// Mappings in increasing button order, with canonical modifiers, are
/// written back as they were read, and leave every later slot empty.
proof fn lemma_apply_ordered(name: Seq<char>, ms: Seq<MappingView>)
    requires
        apply_mappings((name, empty_slots::<ComboView>()), ms) is Ok,
        ascending_buttons(ms),
        canonical_names(ms),
    ensures
        ({
            let q = apply_mappings((name, empty_slots::<ComboView>()), ms)->Ok_0;
            &&& q.1.len() == 12
            &&& forall|j: int| 0 <= j < 12 && (ms.len() == 0 || j >= ms.last().0) ==> (#[trigger] q.1[j]) is None
            &&& dto_entries(present(q.1)) == Ok::<Seq<MappingView>, AppErrorView>(ms)
        }),
    decreases ms.len(),
{
    let e = empty_slots::<ComboView>();
    if ms.len() == 0 {
        lemma_present_none(e);
        assert(ms =~= Seq::<MappingView>::empty());
        assert(dto_entries(present(e)) == Ok::<Seq<MappingView>, AppErrorView>(ms));
    } else {
        let rest = ms.drop_last();
        assert(ascending_buttons(rest));
        assert forall|i: int| 0 <= i < rest.len() implies (parse_modifiers_spec(#[trigger] rest[i].2) matches Ok(
            mods,
        ) ==> is_canonical(mods)) by {
            assert(rest[i] == ms[i]);
        }
        lemma_apply_ordered(name, rest);
        let q1 = apply_mappings((name, e), rest)->Ok_0;
        let m = ms.last();
        let (b, c) = mapping_spec(m.0, m.1, m.2)->Ok_0;
        let mods = parse_modifiers_spec(m.2)->Ok_0;
        assert(ms[ms.len() - 1] == m);
        assert(is_canonical(mods));
        lemma_canonical_fixed(mods);
        lemma_modifier_names_back(m.2);
        lemma_name_parses_back(m.1);
        let t = b - 1;
        if rest.len() > 0 {
            assert(rest.last() == ms[ms.len() - 2]);
            assert(rest.last().0 < m.0);
        }
        assert forall|j: int| t <= j < q1.1.len() implies (#[trigger] q1.1[j]) is None by {
        }
        lemma_present_fill_last(q1.1, t, c);
        let q = apply_mappings((name, e), ms)->Ok_0;
        assert(q.1 == q1.1.update(t, Some(c)));
        let es = present(q1.1);
        assert(present(q.1) == es.push((b, c)));
        assert(es.push((b, c)).drop_last() =~= es);
        assert(mapping_of(b, c) == m);
        assert(ms =~= rest.push(m));
        assert(q.1.len() == 12);
        assert forall|j: int| 0 <= j < 12 && j >= ms.last().0 implies (#[trigger] q.1[j]) is None by {
            assert(j != t);
            assert(q.1[j] == q1.1[j]);
        }
        assert(dto_entries(es.push((b, c))) == Ok::<Seq<MappingView>, AppErrorView>(ms));
    }
}

/// An exchanged profile whose buttons come in increasing order, each with
/// its modifiers in canonical press order, is written back exactly as it
/// was read.
pub proof fn lemma_ordered_dto_roundtrip(d: DtoView)
    requires
        profile_of_dto(d) is Ok,
        ascending_buttons(d.1),
        canonical_names(d.1),
    ensures
        dto_of(profile_of_dto(d)->Ok_0) == Ok::<DtoView, AppErrorView>(d),
{
    lemma_apply_ordered(d.0, d.1);
    lemma_apply_keeps_name((d.0, empty_slots::<ComboView>()), d.1);
}

/// Whether a key name names a modifier key.
pub open spec fn names_modifier(name: Seq<char>) -> bool {
    code_of_name(name) matches Some(c) && modifier_of_code(c) is Some
}

/// The modifier a name that names a modifier key stands for.
pub open spec fn modifier_named(name: Seq<char>) -> Modifier {
    modifier_of_code(code_of_name(name)->0)->0
}

/// Whether an exchanged mapping is accepted: every modifier name names a
/// modifier key, no two of them the same modifier, the key name is known,
/// and the button is one of the twelve.
pub open spec fn mapping_accepted(m: MappingView) -> bool {
    &&& forall|j: int| 0 <= j < m.2.len() ==> names_modifier(#[trigger] m.2[j])
    &&& forall|j: int, l: int|
        0 <= j < l < m.2.len() ==> modifier_named(#[trigger] m.2[j]) != modifier_named(#[trigger] m.2[l])
    &&& is_known_name(m.1)
    &&& 1 <= m.0 <= 12
}

/// Modifier names parse exactly when each names a modifier key, and then
/// to the modifiers they name, in order.
proof fn lemma_parse_modifiers_accepts(names: Seq<Seq<char>>)
    ensures
        parse_modifiers_spec(names) is Ok <==> forall|j: int| 0 <= j < names.len() ==> names_modifier(#[trigger] names[j]),
        parse_modifiers_spec(names) matches Ok(mods) ==> mods == names.map_values(|n: Seq<char>| modifier_named(n)),
    decreases names.len(),
{
    if names.len() > 0 {
        let rest = names.drop_last();
        lemma_parse_modifiers_accepts(rest);
        let n = names.last();
        assert(names[names.len() - 1] == n);
        if parse_modifiers_spec(names) is Ok {
            assert forall|j: int| 0 <= j < names.len() implies names_modifier(#[trigger] names[j]) by {
                if j < names.len() - 1 {
                    assert(names[j] == rest[j]);
                }
            }
            let prev = parse_modifiers_spec(rest)->Ok_0;
            assert(names.map_values(|x: Seq<char>| modifier_named(x)) =~= rest.map_values(
                |x: Seq<char>| modifier_named(x),
            ).push(modifier_named(n)));
        } else {
            if forall|j: int| 0 <= j < names.len() ==> names_modifier(#[trigger] names[j]) {
                assert forall|j: int| 0 <= j < rest.len() implies names_modifier(#[trigger] rest[j]) by {
                    assert(rest[j] == names[j]);
                }
                assert(names_modifier(names[names.len() - 1]));
            }
        }
    }
}

/// One mapping reads back exactly when it is accepted.
proof fn lemma_mapping_accepts(m: MappingView)
    ensures
        mapping_spec(m.0, m.1, m.2) is Ok <==> mapping_accepted(m),
{
    lemma_parse_modifiers_accepts(m.2);
    if parse_modifiers_spec(m.2) is Ok {
        let mods = parse_modifiers_spec(m.2)->Ok_0;
        assert(mods.len() == m.2.len());
        assert forall|j: int| 0 <= j < mods.len() implies mods[j] == modifier_named(#[trigger] m.2[j]) by {
        }
        if mods.no_duplicates() {
            assert forall|j: int, l: int| 0 <= j < l < m.2.len() implies modifier_named(#[trigger] m.2[j])
                != modifier_named(#[trigger] m.2[l]) by {
                assert(mods[j] != mods[l]);
            }
        } else {
            let (j, l) = choose|j: int, l: int| 0 <= j < mods.len() && 0 <= l < mods.len() && j != l && mods[j] == mods[l];
            if j < l {
                assert(modifier_named(m.2[j]) == modifier_named(m.2[l]));
            } else {
                assert(modifier_named(m.2[l]) == modifier_named(m.2[j]));
            }
        }
    }
}

/// Applying mappings succeeds exactly when each mapping reads back.
proof fn lemma_apply_accepts(p: ProfileView, ms: Seq<MappingView>)
    ensures
        apply_mappings(p, ms) is Ok <==> forall|i: int| 0 <= i < ms.len() ==> mapping_accepted(#[trigger] ms[i]),
    decreases ms.len(),
{
    if ms.len() > 0 {
        let rest = ms.drop_last();
        lemma_apply_accepts(p, rest);
        lemma_mapping_accepts(ms.last());
        assert(ms[ms.len() - 1] == ms.last());
        if forall|i: int| 0 <= i < ms.len() ==> mapping_accepted(#[trigger] ms[i]) {
            assert forall|i: int| 0 <= i < rest.len() implies mapping_accepted(#[trigger] rest[i]) by {
                assert(rest[i] == ms[i]);
            }
            assert(mapping_accepted(ms[ms.len() - 1]));
        }
        if apply_mappings(p, ms) is Ok {
            assert forall|i: int| 0 <= i < ms.len() implies mapping_accepted(#[trigger] ms[i]) by {
                if i < ms.len() - 1 {
                    assert(ms[i] == rest[i]);
                }
            }
        }
    }
}

/// An exchanged profile reads back exactly when its name is not blank and
/// every mapping is accepted; otherwise it is refused.
pub proof fn lemma_dto_accepted(d: DtoView)
    ensures
        profile_of_dto(d) is Ok <==> (!is_blank(d.0) && forall|i: int|
            0 <= i < d.1.len() ==> mapping_accepted(#[trigger] d.1[i])),
{
    lemma_apply_accepts((d.0, empty_slots::<ComboView>()), d.1);
}

/// Applying mappings keeps the profile's name.
pub proof fn lemma_apply_keeps_name(p: ProfileView, ms: Seq<MappingView>)
    ensures
        apply_mappings(p, ms) matches Ok(q) ==> q.0 == p.0,
    decreases ms.len(),
{
    if ms.len() > 0 {
        lemma_apply_keeps_name(p, ms.drop_last());
    }
}

/// The profile an exchanged form stands for.
pub open spec fn profile_of_dto(d: DtoView) -> Result<ProfileView, AppErrorView> {
    if is_blank(d.0) {
        Err(AppErrorView::Domain(DomainErrorView::EmptyProfileName))
    } else {
        apply_mappings((d.0, empty_slots::<ComboView>()), d.1)
    }
}

/// The name `name()` gives back is the one `key_name` denotes.
proof fn lemma_key_name(code: u16, i: int)
    requires
        is_code_at(code, i),
    ensures
        known_keys()[i].0@ == key_name(code),
{
    let j = choose|j: int| is_code_at(code, j);
    lemma_known_codes_distinct(i, j);
}

/// The left modifier keys are written by their canonical names.
pub proof fn lemma_left_modifier_names()
    ensures
        key_name(crate::key::KEY_LEFTCTRL) == "KEY_LEFTCTRL"@,
        key_name(crate::key::KEY_LEFTSHIFT) == "KEY_LEFTSHIFT"@,
        key_name(crate::key::KEY_LEFTALT) == "KEY_LEFTALT"@,
        key_name(crate::key::KEY_LEFTMETA) == "KEY_LEFTMETA"@,
{
    assert(is_code_at(crate::key::KEY_LEFTCTRL, 28));
    assert(is_code_at(crate::key::KEY_LEFTSHIFT, 41));
    assert(is_code_at(crate::key::KEY_LEFTALT, 55));
    assert(is_code_at(crate::key::KEY_LEFTMETA, 103));
    lemma_key_name(crate::key::KEY_LEFTCTRL, 28);
    lemma_key_name(crate::key::KEY_LEFTSHIFT, 41);
    lemma_key_name(crate::key::KEY_LEFTALT, 55);
    lemma_key_name(crate::key::KEY_LEFTMETA, 103);
    assert(crate::key::known_names()[28] == "KEY_LEFTCTRL");
    assert(crate::key::known_names()[41] == "KEY_LEFTSHIFT");
    assert(crate::key::known_names()[55] == "KEY_LEFTALT");
    assert(crate::key::known_names()[103] == "KEY_LEFTMETA");
}

/// A known key name parses to a code whose name is that name again.
pub proof fn lemma_name_parses_back(name: Seq<char>)
    requires
        is_known_name(name),
    ensures
        parse_key_spec(name) matches Ok(code) && is_known_code(code) && key_name(code) == name,
{
    let i = choose|i: int| 0 <= i < known_keys().len() && known_keys()[i].0@ == name;
    assert forall|j: int| 0 <= j < i implies known_keys()[j].0@ != name by {
        if known_keys()[j].0@ == name {
            lemma_known_names_distinct(j, i);
        }
    }
    assert(is_first_name_at(name, i));
    let f = first_name_index(name);
    lemma_known_names_distinct(f, i);
    let code = known_keys()[i].1;
    assert(is_code_at(code, i));
    lemma_key_name(code, i);
}

/// Every entry of the known-key table reads both ways: its name parses to
/// its code, and its code is named by its name.
pub proof fn lemma_known_table_roundtrip(i: int)
    requires
        0 <= i < known_keys().len(),
    ensures
        parse_key_spec(known_keys()[i].0@) == Ok::<u16, AppErrorView>(known_keys()[i].1),
        key_name(known_keys()[i].1) == known_keys()[i].0@,
{
    let name = known_keys()[i].0@;
    lemma_name_parses_back(name);
    assert forall|j: int| 0 <= j < i implies known_keys()[j].0@ != name by {
        if known_keys()[j].0@ == name {
            lemma_known_names_distinct(j, i);
        }
    }
    assert(is_first_name_at(name, i));
    let f = first_name_index(name);
    lemma_known_names_distinct(f, i);
}

/// Every modifier's key has a name.
pub proof fn lemma_modifier_codes_known(m: Modifier)
    ensures
        is_known_code(modifier_code(m)),
{
    match m {
        Modifier::LeftCtrl => assert(is_code_at(modifier_code(m), 28)),
        Modifier::RightCtrl => assert(is_code_at(modifier_code(m), 87)),
        Modifier::LeftShift => assert(is_code_at(modifier_code(m), 41)),
        Modifier::RightShift => assert(is_code_at(modifier_code(m), 53)),
        Modifier::LeftAlt => assert(is_code_at(modifier_code(m), 55)),
        Modifier::RightAlt => assert(is_code_at(modifier_code(m), 90)),
        Modifier::LeftMeta => assert(is_code_at(modifier_code(m), 103)),
        Modifier::RightMeta => assert(is_code_at(modifier_code(m), 104)),
    }
}

/// A known code's name reads back as that code.
pub proof fn lemma_key_name_parses(code: u16)
    requires
        is_known_code(code),
    ensures
        parse_key_spec(key_name(code)) == Ok::<u16, AppErrorView>(code),
{
    let i = choose|i: int| is_code_at(code, i);
    lemma_key_name(code, i);
    let name = key_name(code);
    assert forall|j: int| 0 <= j < i implies known_keys()[j].0@ != name by {
        if known_keys()[j].0@ == name {
            lemma_known_names_distinct(j, i);
        }
    }
    assert(is_first_name_at(name, i));
    let f = first_name_index(name);
    lemma_known_names_distinct(f, i);
}

/// A modifier's key name reads back as that modifier.
pub proof fn lemma_modifier_name_parses(m: Modifier)
    ensures
        parse_modifier_spec(key_name(modifier_code(m))) == Ok::<Modifier, AppErrorView>(m),
{
    lemma_modifier_codes_known(m);
    lemma_key_name_parses(modifier_code(m));
    lemma_from_key_code_roundtrip(m);
}

/// The names of modifiers read back as those modifiers.
proof fn lemma_modifier_names_parse(ms: Seq<Modifier>)
    ensures
        parse_modifiers_spec(ms.map_values(|m: Modifier| key_name(modifier_code(m)))) == Ok::<
            Seq<Modifier>,
            AppErrorView,
        >(ms),
    decreases ms.len(),
{
    let names = ms.map_values(|m: Modifier| key_name(modifier_code(m)));
    if ms.len() > 0 {
        lemma_modifier_names_parse(ms.drop_last());
        assert(names.drop_last() =~= ms.drop_last().map_values(|m: Modifier| key_name(modifier_code(m))));
        lemma_modifier_name_parses(ms.last());
        assert(ms.drop_last().push(ms.last()) =~= ms);
    } else {
        assert(ms =~= Seq::<Modifier>::empty());
    }
}

/// Slots whose combinations are canonical, as those of a `Profile`.
pub open spec fn valid_slots(s: Seq<Option<ComboView>>) -> bool {
    &&& s.len() == 12
    &&& forall|i: int| 0 <= i < 12 && (#[trigger] s[i]) is Some ==> is_canonical((s[i]->0).0)
}

/// Every mapped key has a canonical name.
pub open spec fn keys_named(s: Seq<Option<ComboView>>) -> bool {
    forall|i: int| 0 <= i < s.len() && (#[trigger] s[i]) is Some ==> is_known_code((s[i]->0).1)
}

/// The slots of the first `k` buttons, the others empty.
pub open spec fn first_slots(s: Seq<Option<ComboView>>, k: int) -> Seq<Option<ComboView>> {
    Seq::new(12, |i: int| if i < k { s[i] } else { None })
}

proof fn lemma_dto_prefix(p: ProfileView, k: int)
    requires
        valid_slots(p.1),
        keys_named(p.1),
        0 <= k <= 12,
    ensures
        dto_entries(present(p.1.take(k))) is Ok,
        apply_mappings((p.0, empty_slots::<ComboView>()), dto_entries(present(p.1.take(k)))->Ok_0) == Ok::<
            ProfileView,
            AppErrorView,
        >((p.0, first_slots(p.1, k))),
    decreases k,
{
    let start = (p.0, empty_slots::<ComboView>());
    if k == 0 {
        assert(p.1.take(0) =~= Seq::<Option<ComboView>>::empty());
        assert(first_slots(p.1, 0) =~= empty_slots::<ComboView>());
    } else {
        lemma_dto_prefix(p, k - 1);
        let s = p.1.take(k);
        assert(s.drop_last() =~= p.1.take(k - 1));
        assert(s.last() == p.1[k - 1]);
        let e0 = present(p.1.take(k - 1));
        let ms0 = dto_entries(e0)->Ok_0;
        match p.1[k - 1] {
            None => {
                assert(present(s) =~= e0);
                assert(first_slots(p.1, k) =~= first_slots(p.1, k - 1));
            },
            Some(c) => {
                let e = (k, c);
                assert(present(s) =~= e0.push(e));
                assert(e0.push(e).drop_last() =~= e0);
                assert(is_known_code(c.1));
                let m = mapping_of(k, c);
                assert(dto_entries(present(s)) == Ok::<Seq<MappingView>, AppErrorView>(ms0.push(m)));
                assert(ms0.push(m).drop_last() =~= ms0);
                lemma_modifier_names_parse(c.0);
                lemma_key_name_parses(c.1);
                assert(is_canonical(c.0));
                lemma_canonical_fixed(c.0);
                assert(mapping_spec(m.0, m.1, m.2) == Ok::<(int, ComboView), AppErrorView>((k, c)));
                assert(first_slots(p.1, k - 1).update(k - 1, Some(c)) =~= first_slots(p.1, k));
            },
        }
    }
}

/// What is sent is read back: a profile whose mapped keys all have names
/// is exchanged, and its exchanged form reads back into the same profile.
pub proof fn lemma_profile_dto_roundtrip(p: ProfileView)
    requires
        !is_blank(p.0),
        valid_slots(p.1),
        keys_named(p.1),
    ensures
        dto_of(p) is Ok,
        profile_of_dto(dto_of(p)->Ok_0) == Ok::<ProfileView, AppErrorView>(p),
{
    lemma_dto_prefix(p, 12);
    assert(p.1.take(12) =~= p.1);
    assert(first_slots(p.1, 12) =~= p.1);
}

/// Canonical name of the target key of a combination.
pub fn combination_key_name(key: KeyCode) -> (r: Result<&'static str, AppError>)
    ensures
        is_known_code(key@) ==> (r matches Ok(n) && n@ == key_name(key@)),
        !is_known_code(key@) ==> (r matches Err(e) && e@ == AppErrorView::Port(unnamed_key(key@))),
{
    match key.name() {
        Some(n) => {
            proof {
                let i = choose|i: int| is_code_at(key@, i) && n == known_keys()[i].0;
                lemma_key_name(key@, i);
            }
            Ok(n)
        },
        None => {
            let mut message = String::from_str("key without a known name: ");
            message.append(key.label().as_str());
            Err(AppError::Port(message))
        },
    }
}

/// Canonical names of the modifiers of a combination, in press order.
pub fn combination_modifier_names(combination: &KeyCombination) -> (r: Result<Vec<&'static str>, AppError>)
    ensures
        r matches Ok(names) && names@.map_values(|n: &'static str| n@) == combination@.0.map_values(
            |m: Modifier| key_name(modifier_code(m)),
        ),
{
    let modifiers = combination.modifiers();
    let mut names: Vec<&'static str> = Vec::new();
    let mut i: usize = 0;
    while i < modifiers.len()
        invariant
            modifiers@ == combination@.0,
            i <= modifiers@.len(),
            names@.len() == i,
            forall|j: int| 0 <= j < i ==> (#[trigger] names@[j])@ == key_name(modifier_code(modifiers@[j])),
        decreases modifiers@.len() - i,
    {
        let m = modifiers[i];
        proof {
            lemma_modifier_codes_known(m);
        }
        let name = match combination_key_name(m.key_code()) {
            Ok(n) => n,
            Err(e) => {
                return Err(e);
            },
        };
        names.push(name);
        i = i + 1;
    }
    assert(names@.map_values(|n: &'static str| n@) =~= combination@.0.map_values(
        |m: Modifier| key_name(modifier_code(m)),
    ));
    Ok(names)
}

/// Owned copies of names.
fn owned_names(names: Vec<&'static str>) -> (r: Vec<String>)
    ensures
        texts(r@) == names@.map_values(|n: &'static str| n@),
{
    let mut r: Vec<String> = Vec::new();
    let mut i: usize = 0;
    while i < names.len()
        invariant
            i <= names@.len(),
            r@.len() == i,
            forall|j: int| 0 <= j < i ==> (#[trigger] r@[j])@ == names@[j]@,
        decreases names@.len() - i,
    {
        r.push(String::from_str(names[i]));
        i = i + 1;
    }
    assert(texts(r@) =~= names@.map_values(|n: &'static str| n@));
    r
}

/// The exchanged form of a profile; fails when a mapped key has no name.
pub fn profile_to_dto(profile: &Profile) -> (r: Result<ProfileDto, AppError>)
    ensures
        dto_of(profile@) matches Ok(d) ==> (r matches Ok(x) && x@ == d),
        dto_of(profile@) matches Err(e) ==> (r matches Err(x) && x@ == e),
{
    let pairs = profile.mappings();
    let ghost entries = present(profile@.1);
    let mut buttons: Vec<ButtonMappingDto> = Vec::new();
    let mut i: usize = 0;
    assert(entries.take(0) =~= Seq::<(int, ComboView)>::empty());
    assert(buttons@.map_values(|m: ButtonMappingDto| m@) =~= Seq::<MappingView>::empty());
    while i < pairs.len()
        invariant
            entries == present(profile@.1),
            pairs@.map_values(|e: (Button, KeyCombination)| (e.0@ as int, e.1@)) == entries,
            i <= pairs@.len(),
            dto_entries(entries.take(i as int)) == Ok::<Seq<MappingView>, AppErrorView>(
                buttons@.map_values(|m: ButtonMappingDto| m@),
            ),
        decreases pairs@.len() - i,
    {
        proof {
            assert(entries.take(i + 1).drop_last() =~= entries.take(i as int));
            assert(entries.take(i + 1).last() == entries[i as int]);
            assert(entries[i as int] == (pairs@[i as int].0@ as int, pairs@[i as int].1@));
        }
        let (button, combination) = (&pairs[i].0, &pairs[i].1);
        let key = match combination_key_name(combination.key()) {
            Ok(n) => n,
            Err(e) => {
                proof {
                    let t = entries.take(i + 1);
                    assert(t.drop_last() =~= entries.take(i as int));
                    assert(!is_known_code(t.last().1.1));
                    assert(dto_entries(t) == Err::<Seq<MappingView>, AppErrorView>(e@));
                    lemma_dto_entries_stops(entries, i as int);
                }
                return Err(e);
            },
        };
        let modifier_names = match combination_modifier_names(combination) {
            Ok(v) => v,
            Err(e) => {
                return Err(e);
            },
        };
        let ghost before = buttons@.map_values(|m: ButtonMappingDto| m@);
        let mapping = ButtonMappingDto {
            button: button.number(),
            key: String::from_str(key),
            modifiers: owned_names(modifier_names),
        };
        buttons.push(mapping);
        proof {
            assert(buttons@.map_values(|m: ButtonMappingDto| m@) =~= before.push(mapping@));
            assert(mapping@ == mapping_of(entries[i as int].0, entries[i as int].1));
        }
        i = i + 1;
    }
    proof {
        assert(entries.take(i as int) =~= entries);
    }
    Ok(ProfileDto { name: String::from_str(profile.name()), buttons })
}

/// Parses a key name.
pub fn parse_key(name: &str) -> (r: Result<KeyCode, AppError>)
    ensures
        parse_key_spec(name@) matches Ok(c) ==> (r matches Ok(k) && k@ == c),
        parse_key_spec(name@) matches Err(e) ==> (r matches Err(x) && x@ == e),
{
    match KeyCode::from_name(name) {
        Ok(k) => {
            proof {
                let i = choose|i: int| is_first_name_at(name@, i) && k@ == known_keys()[i].1;
                let j = first_name_index(name@);
                assert(is_first_name_at(name@, j));
                if i < j {
                    assert(known_keys()[i].0@ != name@);
                } else if j < i {
                    assert(known_keys()[j].0@ != name@);
                }
            }
            Ok(k)
        },
        Err(e) => Err(AppError::Domain(e)),
    }
}

/// Parses the key name of a modifier.
pub fn parse_modifier(name: &str) -> (r: Result<Modifier, AppError>)
    ensures
        parse_modifier_spec(name@) matches Ok(m) ==> (r matches Ok(x) && x == m),
        parse_modifier_spec(name@) matches Err(e) ==> (r matches Err(x) && x@ == e),
{
    let key = parse_key(name)?;
    match Modifier::from_key_code(key) {
        Some(m) => Ok(m),
        None => {
            let mut message = String::from_str("'");
            message.append(name);
            message.append("' is not a modifier");
            Err(AppError::Port(message))
        },
    }
}

/// Parses modifier names, in order.
pub fn parse_modifiers(names: &Vec<String>) -> (r: Result<Vec<Modifier>, AppError>)
    ensures
        parse_modifiers_spec(texts(names@)) matches Ok(ms) ==> (r matches Ok(x) && x@ == ms),
        parse_modifiers_spec(texts(names@)) matches Err(e) ==> (r matches Err(x) && x@ == e),
{
    let ghost ns = texts(names@);
    let mut modifiers: Vec<Modifier> = Vec::new();
    let mut i: usize = 0;
    while i < names.len()
        invariant
            ns == texts(names@),
            i <= names@.len(),
            parse_modifiers_spec(ns.take(i as int)) == Ok::<Seq<Modifier>, AppErrorView>(modifiers@),
        decreases names@.len() - i,
    {
        proof {
            assert(ns.take(i + 1).drop_last() =~= ns.take(i as int));
            assert(ns.take(i + 1).last() == names@[i as int]@);
        }
        let m = match parse_modifier(names[i].as_str()) {
            Ok(m) => m,
            Err(e) => {
                proof {
                    lemma_parse_modifiers_stops(ns, i as int);
                }
                return Err(e);
            },
        };
        modifiers.push(m);
        i = i + 1;
    }
    assert(ns.take(i as int) =~= ns);
    Ok(modifiers)
}

/// A failure at some name is the failure of the whole list.
proof fn lemma_parse_modifiers_stops(ns: Seq<Seq<char>>, i: int)
    requires
        0 <= i < ns.len(),
        parse_modifiers_spec(ns.take(i + 1)) is Err,
    ensures
        parse_modifiers_spec(ns) == parse_modifiers_spec(ns.take(i + 1)),
    decreases ns.len() - i,
{
    if i + 1 < ns.len() {
        assert(ns.take(i + 2).drop_last() =~= ns.take(i + 1));
        lemma_parse_modifiers_stops(ns, i + 1);
    } else {
        assert(ns.take(i + 1) =~= ns);
    }
}

/// A failure at some entry is the failure of the whole list.
proof fn lemma_dto_entries_stops(es: Seq<(int, ComboView)>, i: int)
    requires
        0 <= i < es.len(),
        dto_entries(es.take(i + 1)) is Err,
    ensures
        dto_entries(es) == dto_entries(es.take(i + 1)),
    decreases es.len() - i,
{
    if i + 1 < es.len() {
        assert(es.take(i + 2).drop_last() =~= es.take(i + 1));
        lemma_dto_entries_stops(es, i + 1);
    } else {
        assert(es.take(i + 1) =~= es);
    }
}

/// Reads one mapping back into a button and a combination.
pub fn parse_mapping(button: u8, key: &str, modifiers: &Vec<String>) -> (r: Result<(Button, KeyCombination), AppError>)
    ensures
        mapping_spec(button, key@, texts(modifiers@)) matches Ok((b, c)) ==> (r matches Ok(x) && x.0@ == b && x.1@ == c),
        mapping_spec(button, key@, texts(modifiers@)) matches Err(e) ==> (r matches Err(x) && x@ == e),
{
    let ms = parse_modifiers(modifiers)?;
    let k = parse_key(key)?;
    let combination = match KeyCombination::new(ms, k) {
        Ok(c) => c,
        Err(e) => {
            return Err(AppError::Domain(e));
        },
    };
    let b = match Button::new(button) {
        Ok(b) => b,
        Err(e) => {
            return Err(AppError::Domain(e));
        },
    };
    Ok((b, combination))
}

/// The profile an exchanged form stands for (validates names and
/// modifiers).
pub fn profile_from_dto(dto: &ProfileDto) -> (r: Result<Profile, AppError>)
    ensures
        profile_of_dto(dto@) matches Ok(p) ==> (r matches Ok(x) && x@ == p),
        profile_of_dto(dto@) matches Err(e) ==> (r matches Err(x) && x@ == e),
{
    let mut profile = match Profile::new(dto.name.as_str()) {
        Ok(p) => p,
        Err(e) => {
            return Err(AppError::Domain(e));
        },
    };
    let ghost ms = dto@.1;
    let ghost start = profile@;
    let mut i: usize = 0;
    while i < dto.buttons.len()
        invariant
            ms == dto@.1,
            ms.len() == dto.buttons@.len(),
            start == (dto@.0, empty_slots::<ComboView>()),
            !is_blank(dto@.0),
            i <= dto.buttons@.len(),
            apply_mappings(start, ms.take(i as int)) == Ok::<ProfileView, AppErrorView>(profile@),
        decreases dto.buttons@.len() - i,
    {
        proof {
            assert(ms.take(i + 1).drop_last() =~= ms.take(i as int));
            assert(ms.take(i + 1).last() == dto.buttons@[i as int]@);
        }
        let mapping = &dto.buttons[i];
        let (button, combination) = match parse_mapping(mapping.button, mapping.key.as_str(), &mapping.modifiers) {
            Ok(pair) => pair,
            Err(e) => {
                proof {
                    let t = ms.take(i + 1);
                    assert(t.drop_last() =~= ms.take(i as int));
                    assert(apply_mappings(start, t) == Err::<ProfileView, AppErrorView>(e@));
                    lemma_apply_mappings_stops(start, ms, i as int);
                }
                return Err(e);
            },
        };
        profile.set_mapping(button, combination);
        i = i + 1;
    }
    assert(ms.take(i as int) =~= ms);
    Ok(profile)
}

/// A failure at some mapping is the failure of the whole list.
proof fn lemma_apply_mappings_stops(p: ProfileView, ms: Seq<MappingView>, i: int)
    requires
        0 <= i < ms.len(),
        apply_mappings(p, ms.take(i + 1)) is Err,
    ensures
        apply_mappings(p, ms) == apply_mappings(p, ms.take(i + 1)),
    decreases ms.len() - i,
{
    if i + 1 < ms.len() {
        assert(ms.take(i + 2).drop_last() =~= ms.take(i + 1));
        lemma_apply_mappings_stops(p, ms, i + 1);
    } else {
        assert(ms.take(i + 1) =~= ms);
    }
}

} // verus!
