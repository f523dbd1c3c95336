use trinity_mapper::button::Button;
use trinity_mapper::calibration::{Calibration, PhysicalCode};
use trinity_mapper::combo::KeyCombination;
use trinity_mapper::error::DomainError;
use trinity_mapper::key::{self, KeyCode};
use trinity_mapper::modifier::{Modifier, ModifierKind};
use trinity_mapper::node::NodeId;
use trinity_mapper::profile::Profile;
use trinity_mapper::translation::TranslationTable;

fn core_node() -> NodeId {
    NodeId::new("usb-Razer_Razer_Naga_Trinity-event-if01").unwrap()
}

fn core_code(value: u16) -> PhysicalCode {
    PhysicalCode::new(core_node(), value)
}

fn core_key(code: u16) -> KeyCode {
    KeyCode::from_code(code)
}

fn core_full_calibration() -> Calibration {
    let mut calibration = Calibration::new();
    for button in Button::all() {
        calibration.record(button, core_code(100 + u16::from(button.number()))).unwrap();
    }
    calibration
}

// button

#[test]
fn accepts_1_to_12() {
    for n in 1..=12u8 {
        assert_eq!(Button::new(n).unwrap().number(), n);
    }
}

#[test]
fn rejects_out_of_range() {
    assert_eq!(Button::new(0).unwrap_err(), DomainError::InvalidButton(0));
    assert_eq!(Button::new(13).unwrap_err(), DomainError::InvalidButton(13));
    assert_eq!(Button::new(255).unwrap_err(), DomainError::InvalidButton(255));
}

#[test]
fn all_covers_every_button_exactly_once() {
    let mut numbers: Vec<u8> = Button::all().iter().map(|b| b.number()).collect();
    numbers.sort_unstable();
    numbers.dedup();
    assert_eq!(numbers, (1..=12).collect::<Vec<_>>());
}

// calibration

#[test]
fn record_and_get() {
    let mut calibration = Calibration::new();
    let button = Button::new(4).unwrap();
    calibration.record(button, core_code(104)).unwrap();
    assert_eq!(calibration.get(button), Some(&core_code(104)));
    assert_eq!(calibration.len(), 1);
}

#[test]
fn code_shared_between_buttons_is_rejected() {
    let mut calibration = Calibration::new();
    calibration.record(Button::new(1).unwrap(), core_code(42)).unwrap();
    let err = calibration.record(Button::new(2).unwrap(), core_code(42)).unwrap_err();
    assert_eq!(
        err,
        DomainError::PhysicalCodeConflict { node: core_node().to_string(), code: 42, first: 1, second: 2 }
    );
}

#[test]
fn same_button_can_be_recaptured() {
    let mut calibration = Calibration::new();
    let button = Button::new(1).unwrap();
    calibration.record(button, core_code(42)).unwrap();
    calibration.record(button, core_code(43)).unwrap();
    assert_eq!(calibration.get(button), Some(&core_code(43)));
    assert_eq!(calibration.len(), 1);
}

#[test]
fn completeness_tracks_all_twelve_buttons() {
    let mut calibration = Calibration::new();
    assert!(!calibration.is_complete());
    assert!(calibration.is_empty());
    for button in Button::all() {
        calibration.record(button, core_code(200 + u16::from(button.number()))).unwrap();
    }
    assert!(calibration.is_complete());
    assert!(calibration.missing_buttons().is_empty());
}

#[test]
fn missing_buttons_are_reported() {
    let mut calibration = Calibration::new();
    calibration.record(Button::new(1).unwrap(), core_code(201)).unwrap();
    calibration.record(Button::new(3).unwrap(), core_code(203)).unwrap();
    let missing: Vec<u8> = calibration.missing_buttons().iter().map(|b| b.number()).collect();
    assert_eq!(missing, vec![2, 4, 5, 6, 7, 8, 9, 10, 11, 12]);
}

#[test]
fn same_code_on_another_node_is_no_conflict() {
    let mut calibration = Calibration::new();
    let other = NodeId::new("usb-Razer_Razer_Naga_Trinity-event-if02").unwrap();
    calibration.record(Button::new(1).unwrap(), core_code(42)).unwrap();
    calibration.record(Button::new(2).unwrap(), PhysicalCode::new(other, 42)).unwrap();
    assert_eq!(calibration.len(), 2);
}

#[test]
fn calibration_buttons_come_in_button_order() {
    let mut calibration = Calibration::new();
    calibration.record(Button::new(9).unwrap(), core_code(9)).unwrap();
    calibration.record(Button::new(2).unwrap(), core_code(2)).unwrap();
    let numbers: Vec<u8> = calibration.buttons().iter().map(|(b, _)| b.number()).collect();
    assert_eq!(numbers, vec![2, 9]);
}

// combo

#[test]
fn sorts_modifiers_canonically() {
    let combo =
        KeyCombination::new(vec![Modifier::LeftShift, Modifier::RightCtrl], core_key(key::KEY_1)).unwrap();
    assert_eq!(combo.modifiers(), &[Modifier::RightCtrl, Modifier::LeftShift]);
}

#[test]
fn rejects_duplicate_modifier() {
    let err =
        KeyCombination::new(vec![Modifier::LeftCtrl, Modifier::LeftCtrl], core_key(key::KEY_A)).unwrap_err();
    assert_eq!(err, DomainError::DuplicateModifier);
}

#[test]
fn press_sequence_ends_with_the_key() {
    let combo =
        KeyCombination::new(vec![Modifier::LeftShift, Modifier::LeftCtrl], core_key(key::KEY_1)).unwrap();
    assert_eq!(
        combo.press_sequence(),
        vec![core_key(key::KEY_LEFTCTRL), core_key(key::KEY_LEFTSHIFT), core_key(key::KEY_1)]
    );
}

#[test]
fn plain_combo_has_no_modifier() {
    let combo = KeyCombination::plain(core_key(key::KEY_F));
    assert!(combo.modifiers().is_empty());
    assert_eq!(combo.press_sequence(), vec![core_key(key::KEY_F)]);
    assert_eq!(combo.to_string(), "KEY_F");
}

#[test]
fn display_shows_every_modifier() {
    let combo = KeyCombination::new(vec![Modifier::LeftCtrl], core_key(key::KEY_1)).unwrap();
    assert_eq!(combo.to_string(), "left-ctrl+KEY_1");
}

#[test]
fn combination_contains_its_modifiers_only() {
    let combo = KeyCombination::new(vec![Modifier::LeftAlt], core_key(key::KEY_X)).unwrap();
    assert!(combo.contains_modifier(Modifier::LeftAlt));
    assert!(!combo.contains_modifier(Modifier::RightAlt));
    assert_eq!(combo.key(), core_key(key::KEY_X));
}

#[test]
fn unnamed_key_text_uses_the_hex_label() {
    let combo = KeyCombination::new(vec![Modifier::RightMeta], core_key(0x270f)).unwrap();
    assert_eq!(combo.to_string(), "right-meta+KEY_0x270f");
}

// key

#[test]
fn spot_checks_reference_values() {
    assert_eq!(core_key(key::KEY_ESC).code(), 1);
    assert_eq!(core_key(key::KEY_1).code(), 2);
    assert_eq!(core_key(key::KEY_ENTER).code(), 28);
    assert_eq!(core_key(key::KEY_A).code(), 30);
    assert_eq!(core_key(key::KEY_F).code(), 33);
    assert_eq!(core_key(key::KEY_LEFTCTRL).code(), 29);
    assert_eq!(core_key(key::KEY_F12).code(), 88);
    assert_eq!(core_key(key::KEY_KPPLUS).code(), 78);
    assert_eq!(core_key(key::KEY_LEFTMETA).code(), 125);
    assert_eq!(core_key(key::KEY_F24).code(), 194);
}

#[test]
fn name_lookup_roundtrip() {
    for &(name, code) in KeyCode::known().iter() {
        let key = KeyCode::from_name(name).unwrap();
        assert_eq!(key.code(), code);
        assert_eq!(KeyCode::from_code(code).name(), Some(name));
    }
}

#[test]
fn unknown_name_is_rejected() {
    assert_eq!(
        KeyCode::from_name("KEY_NOPE").unwrap_err(),
        DomainError::UnknownKeyName("KEY_NOPE".to_owned())
    );
}

#[test]
fn label_falls_back_to_hex_code() {
    assert_eq!(KeyCode::from_code(0x270f).label(), "KEY_0x270f");
}

#[test]
fn label_of_a_known_key_is_its_name() {
    assert_eq!(core_key(key::KEY_A).label(), "KEY_A");
}

#[test]
fn known_table_has_no_duplicate() {
    let mut codes: Vec<u16> = KeyCode::known().iter().map(|&(_, c)| c).collect();
    codes.sort_unstable();
    codes.dedup();
    assert_eq!(codes.len(), KeyCode::known().len());
}

#[test]
fn known_table_names_are_distinct() {
    let mut names: Vec<&str> = KeyCode::known().iter().map(|&(n, _)| n).collect();
    names.sort_unstable();
    names.dedup();
    assert_eq!(names.len(), KeyCode::known().len());
}

// modifier

#[test]
fn from_key_code_roundtrips_every_modifier() {
    for modifier in Modifier::all() {
        assert_eq!(Modifier::from_key_code(modifier.key_code()), Some(modifier));
    }
}

#[test]
fn from_key_code_rejects_non_modifier() {
    assert_eq!(Modifier::from_key_code(core_key(key::KEY_A)), None);
}

#[test]
fn kinds_are_mapped() {
    assert_eq!(Modifier::LeftCtrl.kind(), ModifierKind::Ctrl);
    assert_eq!(Modifier::RightCtrl.kind(), ModifierKind::Ctrl);
    assert_eq!(Modifier::RightShift.kind(), ModifierKind::Shift);
    assert_eq!(Modifier::LeftAlt.kind(), ModifierKind::Alt);
    assert_eq!(Modifier::RightMeta.kind(), ModifierKind::Logo);
}

#[test]
fn canonical_order_puts_ctrl_first() {
    let mut modifiers = vec![Modifier::LeftShift, Modifier::LeftCtrl];
    modifiers.sort_unstable();
    assert_eq!(modifiers, vec![Modifier::LeftCtrl, Modifier::LeftShift]);
}

#[test]
fn modifier_ranks_follow_the_declaration_order() {
    let ranks: Vec<u8> = Modifier::all().iter().map(|m| m.rank()).collect();
    assert_eq!(ranks, vec![0, 1, 2, 3, 4, 5, 6, 7]);
    assert_eq!(Modifier::LeftCtrl.to_string(), "left-ctrl");
    assert_eq!(Modifier::RightMeta.key_code(), core_key(126));
}

// node

#[test]
fn rejects_empty_ids() {
    assert_eq!(NodeId::new("").unwrap_err(), DomainError::EmptyNode);
    assert_eq!(NodeId::new("   ").unwrap_err(), DomainError::EmptyNode);
}

#[test]
fn keeps_value() {
    let node = NodeId::new("usb-Razer_Razer_Naga_Trinity-event-if01").unwrap();
    assert_eq!(node.as_str(), "usb-Razer_Razer_Naga_Trinity-event-if01");
}

// profile

fn core_ctrl_1() -> KeyCombination {
    KeyCombination::new(vec![Modifier::LeftCtrl], core_key(key::KEY_1)).unwrap()
}

#[test]
fn rejects_empty_names() {
    assert_eq!(Profile::new("").unwrap_err(), DomainError::EmptyProfileName);
    assert_eq!(Profile::new(" \t ").unwrap_err(), DomainError::EmptyProfileName);
}

#[test]
fn set_get_remove_mapping() {
    let mut profile = Profile::new("mmo").unwrap();
    let button = Button::new(3).unwrap();
    assert!(profile.mapping(button).is_none());
    profile.set_mapping(button, core_ctrl_1());
    assert_eq!(profile.mapping(button), Some(&core_ctrl_1()));
    assert_eq!(profile.mapping_count(), 1);
    assert!(profile.remove_mapping(button));
    assert!(!profile.remove_mapping(button));
    assert!(profile.is_empty());
}

#[test]
fn mappings_iterate_in_button_order() {
    let mut profile = Profile::new("mmo").unwrap();
    profile.set_mapping(Button::new(7).unwrap(), core_ctrl_1());
    profile.set_mapping(Button::new(2).unwrap(), KeyCombination::plain(core_key(key::KEY_F)));
    let numbers: Vec<u8> = profile.mappings().iter().map(|(b, _)| b.number()).collect();
    assert_eq!(numbers, vec![2, 7]);
}

#[test]
fn renamed_profile_keeps_every_mapping() {
    let mut profile = Profile::new("mmo").unwrap();
    profile.set_mapping(Button::new(5).unwrap(), core_ctrl_1());
    let renamed = profile.renamed("raid").unwrap();
    assert_eq!(renamed.name(), "raid");
    assert_eq!(renamed.mapping(Button::new(5).unwrap()), Some(&core_ctrl_1()));
    assert_eq!(profile.renamed("  ").unwrap_err(), DomainError::EmptyProfileName);
}

// translation

#[test]
fn build_requires_complete_calibration() {
    let mut calibration = core_full_calibration();
    calibration.record(Button::new(6).unwrap(), core_code(999)).unwrap();
    let mut partial = Calibration::new();
    for button in Button::all().iter().filter(|b| b.number() != 6) {
        partial.record(*button, calibration.get(*button).unwrap().clone()).unwrap();
    }
    let profile = Profile::new("test").unwrap();
    let err = TranslationTable::build(&partial, &profile).unwrap_err();
    assert_eq!(err, DomainError::IncompleteCalibration { missing: vec![6] });
}

#[test]
fn only_mapped_buttons_are_translated() {
    let calibration = core_full_calibration();
    let mut profile = Profile::new("test").unwrap();
    profile.set_mapping(Button::new(3).unwrap(), core_ctrl_1());
    let table = TranslationTable::build(&calibration, &profile).unwrap();

    assert!(table.lookup(&core_node(), 103).is_some());
    assert!(table.lookup(&core_node(), 107).is_none());
    assert!(table.lookup(&core_node(), 42).is_none());
    assert_eq!(table.len(), 1);
    assert!(!table.is_empty());
    let (button, combination) = table.lookup(&core_node(), 103).unwrap();
    assert_eq!(button.number(), 3);
    assert_eq!(combination, &core_ctrl_1());
}
