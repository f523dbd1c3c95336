use trinity_mapper::button::Button;
use trinity_mapper::calibration::{Calibration, PhysicalCode};
use trinity_mapper::capture::{
    captured_mapping, char_to_keycode, characters_to_keycode, input_key_to_keycode, key_label, keycode_label,
    resolve_keycode, KeyInput, KeyLabel, KeyboardLayout, NamedKey,
};
use trinity_mapper::combo::KeyCombination;
use trinity_mapper::config::{config_root, default_calibration_path, default_profiles_dir, join_path, runtime_dir, ServerConfig};
use trinity_mapper::devices::{convert_event, mirror_caps, raw_events, resolve_node, ByIdLocator, BY_ID_DIR};
use trinity_mapper::dto::{
    combination_key_name, combination_modifier_names, parse_key, parse_modifier, profile_from_dto, profile_to_dto,
    ButtonMappingDto, ProfileDto, Response,
};
use trinity_mapper::error::{list_text, AppError, DomainError};
use trinity_mapper::event::{Action, EV_ABS, EV_KEY, EV_MSC, EV_REL, EV_SYN};
use trinity_mapper::files::{
    calibration_from_file, calibration_to_file, parse_u8, profile_file_name, profile_from_file, profile_names,
    profile_to_file, validate_profile_name, ButtonEntry, CalibrationEntry, CalibrationFile, ProfileFile,
};
use trinity_mapper::gui::{is_unreachable, with_mapping, without_button, DaemonClient};
use trinity_mapper::key::{self, KeyCode};
use trinity_mapper::locale::{locale_list, native_name, system_locale, GuiSettings};
use trinity_mapper::modifier::Modifier;
use trinity_mapper::node::NodeId;
use trinity_mapper::order::{sort_names, text_less};
use trinity_mapper::ports::Caps;
use trinity_mapper::profile::Profile;

fn fmt_key(code: u16) -> KeyCode {
    KeyCode::from_code(code)
}

fn fmt_node() -> NodeId {
    NodeId::new("usb-Razer_Razer_Naga_Trinity_00000000001A-if01-event-kbd").unwrap()
}

fn sample_profile() -> Profile {
    let mut profile = Profile::new("mmo").unwrap();
    profile.set_mapping(Button::new(1).unwrap(), KeyCombination::plain(fmt_key(key::KEY_F)));
    profile.set_mapping(
        Button::new(3).unwrap(),
        KeyCombination::new(vec![Modifier::LeftCtrl], fmt_key(key::KEY_1)).unwrap(),
    );
    profile
}

// error messages

#[test]
fn domain_error_messages() {
    assert_eq!(DomainError::InvalidButton(13).to_string(), "invalid side button number: 13 (expected 1..=12)");
    assert_eq!(DomainError::EmptyProfileName.to_string(), "profile name must not be empty");
    assert_eq!(DomainError::EmptyNode.to_string(), "node id must not be empty");
    assert_eq!(DomainError::DuplicateModifier.to_string(), "duplicate modifier in key combination");
    assert_eq!(DomainError::UnknownKeyName("KEY_NOPE".to_owned()).to_string(), "unknown key name: KEY_NOPE");
    assert_eq!(
        DomainError::IncompleteCalibration { missing: vec![2, 4, 12] }.to_string(),
        "incomplete calibration, missing buttons: [2, 4, 12]"
    );
    assert_eq!(
        DomainError::PhysicalCodeConflict { node: "n1".to_owned(), code: 42, first: 1, second: 2 }.to_string(),
        "physical code 42 on node 'n1' captured for both button 1 and button 2"
    );
}

#[test]
fn app_error_messages() {
    assert_eq!(AppError::Domain(DomainError::EmptyNode).to_string(), "domain error: node id must not be empty");
    assert_eq!(AppError::Port("x".to_owned()).to_string(), "adapter error: x");
    assert_eq!(AppError::NotFound("profile 'a'".to_owned()).to_string(), "not found: profile 'a'");
    assert_eq!(AppError::InvalidState("engine is not active".to_owned()).to_string(), "invalid state: engine is not active");
    assert_eq!(AppError::from(DomainError::EmptyNode), AppError::Domain(DomainError::EmptyNode));
}

#[test]
fn number_lists_are_written_like_debug() {
    assert_eq!(list_text(&vec![]), "[]");
    assert_eq!(list_text(&vec![7]), "[7]");
    assert_eq!(list_text(&vec![1, 20, 255]), format!("{:?}", vec![1u8, 20, 255]));
}

// exchanged profiles

#[test]
fn profile_dto_lists_mapped_buttons_by_name() {
    let dto = profile_to_dto(&sample_profile()).unwrap();
    assert_eq!(dto.name, "mmo");
    assert_eq!(
        dto.buttons,
        vec![
            ButtonMappingDto { button: 1, key: "KEY_F".to_owned(), modifiers: vec![] },
            ButtonMappingDto { button: 3, key: "KEY_1".to_owned(), modifiers: vec!["KEY_LEFTCTRL".to_owned()] },
        ]
    );
    assert_eq!(profile_from_dto(&dto).unwrap(), sample_profile());
}

#[test]
fn unnamed_key_cannot_be_exchanged() {
    let mut profile = Profile::new("odd").unwrap();
    profile.set_mapping(Button::new(2).unwrap(), KeyCombination::plain(fmt_key(0x270f)));
    assert_eq!(
        profile_to_dto(&profile).unwrap_err(),
        AppError::Port("key without a known name: KEY_0x270f".to_owned())
    );
    assert_eq!(combination_key_name(fmt_key(key::KEY_A)).unwrap(), "KEY_A");
    let combo = KeyCombination::new(vec![Modifier::RightAlt, Modifier::LeftShift], fmt_key(key::KEY_A)).unwrap();
    assert_eq!(combination_modifier_names(&combo).unwrap(), vec!["KEY_LEFTSHIFT", "KEY_RIGHTALT"]);
}

#[test]
fn exchanged_profile_errors_come_in_order() {
    let bad_modifier = ProfileDto {
        name: "p".to_owned(),
        buttons: vec![ButtonMappingDto { button: 1, key: "KEY_NOPE".to_owned(), modifiers: vec!["KEY_A".to_owned()] }],
    };
    assert_eq!(profile_from_dto(&bad_modifier).unwrap_err(), AppError::Port("'KEY_A' is not a modifier".to_owned()));
    let bad_key = ProfileDto {
        name: "p".to_owned(),
        buttons: vec![ButtonMappingDto { button: 1, key: "KEY_NOPE".to_owned(), modifiers: vec![] }],
    };
    assert_eq!(
        profile_from_dto(&bad_key).unwrap_err(),
        AppError::Domain(DomainError::UnknownKeyName("KEY_NOPE".to_owned()))
    );
    let twice = ProfileDto {
        name: "p".to_owned(),
        buttons: vec![ButtonMappingDto {
            button: 99,
            key: "KEY_A".to_owned(),
            modifiers: vec!["KEY_LEFTCTRL".to_owned(), "KEY_LEFTCTRL".to_owned()],
        }],
    };
    assert_eq!(profile_from_dto(&twice).unwrap_err(), AppError::Domain(DomainError::DuplicateModifier));
    let bad_button = ProfileDto {
        name: "p".to_owned(),
        buttons: vec![ButtonMappingDto { button: 99, key: "KEY_A".to_owned(), modifiers: vec![] }],
    };
    assert_eq!(profile_from_dto(&bad_button).unwrap_err(), AppError::Domain(DomainError::InvalidButton(99)));
    let blank = ProfileDto { name: " ".to_owned(), buttons: vec![] };
    assert_eq!(profile_from_dto(&blank).unwrap_err(), AppError::Domain(DomainError::EmptyProfileName));
}

#[test]
fn later_mapping_of_a_button_wins() {
    let dto = ProfileDto {
        name: "p".to_owned(),
        buttons: vec![
            ButtonMappingDto { button: 4, key: "KEY_A".to_owned(), modifiers: vec![] },
            ButtonMappingDto { button: 4, key: "KEY_B".to_owned(), modifiers: vec![] },
        ],
    };
    let profile = profile_from_dto(&dto).unwrap();
    assert_eq!(profile.mapping(Button::new(4).unwrap()).unwrap().key(), fmt_key(key::KEY_B));
    assert_eq!(profile.mapping_count(), 1);
}

#[test]
fn key_and_modifier_names_parse() {
    assert_eq!(parse_key("KEY_ESC").unwrap(), fmt_key(key::KEY_ESC));
    assert_eq!(parse_modifier("KEY_RIGHTMETA").unwrap(), Modifier::RightMeta);
    assert!(matches!(parse_key("esc").unwrap_err(), AppError::Domain(DomainError::UnknownKeyName(_))));
}

// files

#[test]
fn invalid_profile_names_are_rejected() {
    for name in ["", "a/b", "a\\b", "a\0b", " a", "a ", ".", "..", "../escape"] {
        assert_eq!(
            validate_profile_name(name).unwrap_err(),
            AppError::Port(format!("invalid profile name: '{name}'"))
        );
    }
    assert!(validate_profile_name("mmo 2").is_ok());
    assert_eq!(profile_file_name("mmo").unwrap(), "mmo.toml");
}

#[test]
fn profile_names_keep_toml_stems_sorted() {
    let files = vec![
        "zeta.toml".to_owned(),
        "notes.txt".to_owned(),
        ".toml".to_owned(),
        "alpha.toml".to_owned(),
        "a.b.toml".to_owned(),
    ];
    assert_eq!(profile_names(files), vec!["a.b", "alpha", "zeta"]);
}

#[test]
fn button_numbers_parse_like_u8() {
    for text in ["0", "1", "12", "+7", "007", "255", "256", "", "+", "-1", " 1", "1a", "99999999999"] {
        assert_eq!(parse_u8(text), text.parse::<u8>().ok(), "text: {text:?}");
    }
}

#[test]
fn profile_file_roundtrip() {
    let file = profile_to_file(&sample_profile()).unwrap();
    assert_eq!(file.name, "mmo");
    assert_eq!(file.buttons.len(), 2);
    assert_eq!(file.buttons[1].0, "3");
    assert_eq!(file.buttons[1].1.key, "KEY_1");
    assert_eq!(file.buttons[1].1.modifiers, vec!["KEY_LEFTCTRL".to_owned()]);
    assert_eq!(profile_from_file(&file).unwrap(), sample_profile());
}

#[test]
fn unknown_key_name_is_reported() {
    let file = ProfileFile {
        name: "bad".to_owned(),
        buttons: vec![("1".to_owned(), ButtonEntry { key: "KEY_NOPE".to_owned(), modifiers: vec![] })],
    };
    assert!(matches!(profile_from_file(&file).unwrap_err(), AppError::Domain(_)));
    let file = ProfileFile {
        name: "bad".to_owned(),
        buttons: vec![("one".to_owned(), ButtonEntry { key: "KEY_A".to_owned(), modifiers: vec![] })],
    };
    assert_eq!(profile_from_file(&file).unwrap_err(), AppError::Port("invalid button number: 'one'".to_owned()));
}

#[test]
fn calibration_file_roundtrip() {
    let mut calibration = Calibration::new();
    for button in Button::all() {
        calibration.record(button, PhysicalCode::new(fmt_node(), 40 + u16::from(button.number()))).unwrap();
    }
    let file = calibration_to_file(&calibration);
    assert_eq!(file.buttons.len(), 12);
    assert_eq!(file.buttons[9].0, "10");
    assert_eq!(calibration_from_file(&file).unwrap(), calibration);
}

#[test]
fn calibration_duplicate_code_is_rejected_on_load() {
    let file = CalibrationFile {
        buttons: vec![
            ("1".to_owned(), CalibrationEntry { node: "n1".to_owned(), code: 42 }),
            ("2".to_owned(), CalibrationEntry { node: "n1".to_owned(), code: 42 }),
        ],
    };
    assert_eq!(
        calibration_from_file(&file).unwrap_err(),
        AppError::Domain(DomainError::PhysicalCodeConflict { node: "n1".to_owned(), code: 42, first: 1, second: 2 })
    );
    let file = CalibrationFile { buttons: vec![("13".to_owned(), CalibrationEntry { node: "n1".to_owned(), code: 1 })] };
    assert_eq!(calibration_from_file(&file).unwrap_err(), AppError::Domain(DomainError::InvalidButton(13)));
    let file = CalibrationFile { buttons: vec![("1".to_owned(), CalibrationEntry { node: " ".to_owned(), code: 1 })] };
    assert_eq!(calibration_from_file(&file).unwrap_err(), AppError::Domain(DomainError::EmptyNode));
}

// devices

#[test]
fn resolve_node_uses_by_id_dir() {
    let node = NodeId::new("usb-Razer-event-kbd").unwrap();
    assert_eq!(
        std::path::Path::new(&resolve_node(&node)),
        std::path::Path::new("/dev/input/by-id/usb-Razer-event-kbd")
    );
}

#[test]
fn keeps_only_event_nodes_with_prefix() {
    let names = vec![
        "usb-Razer_Razer_Naga_Trinity_00000000001A-if02-event-kbd".to_owned(),
        "usb-Razer_Razer_Naga_Trinity_00000000001A-event-mouse".to_owned(),
        "usb-Razer_Razer_Naga_Trinity_00000000001A-if01-event-kbd".to_owned(),
        "usb-Razer_Razer_Naga_Trinity_00000000001A-mouse".to_owned(),
        "usb-Razer_Razer_Naga_Trinity_00000000001A-hidraw".to_owned(),
        "usb-Razer_Razer_Orbweaver-event-kbd".to_owned(),
    ];
    let nodes = ByIdLocator::trinity().locate_in(names).unwrap();
    let found: Vec<&str> = nodes.iter().map(|n| n.as_str()).collect();
    assert_eq!(
        found,
        vec![
            "usb-Razer_Razer_Naga_Trinity_00000000001A-event-mouse",
            "usb-Razer_Razer_Naga_Trinity_00000000001A-if01-event-kbd",
            "usb-Razer_Razer_Naga_Trinity_00000000001A-if02-event-kbd",
        ]
    );
}

#[test]
fn empty_directory_yields_no_nodes() {
    assert!(ByIdLocator::trinity().locate_in(Vec::new()).unwrap().is_empty());
}

#[test]
fn live_trinity_is_located_when_present() {
    let dir = std::path::Path::new(BY_ID_DIR);
    if !dir.join("usb-Razer_Razer_Naga_Trinity_00000000001A-event-mouse").exists() {
        return;
    }
    let names: Vec<String> = dir
        .read_dir()
        .unwrap()
        .filter_map(|entry| entry.ok().and_then(|e| e.file_name().into_string().ok()))
        .collect();
    let nodes = ByIdLocator::trinity().locate_in(names).unwrap();
    assert_eq!(nodes.len(), 3);
}

#[test]
fn locator_settings_are_kept() {
    let locator = ByIdLocator::new("usb-X").with_by_id_dir("/tmp/ids");
    assert_eq!(locator.prefix(), "usb-X");
    assert_eq!(locator.by_id_dir(), "/tmp/ids");
    assert_eq!(ByIdLocator::default().prefix(), "usb-Razer_Razer_Naga_Trinity");
}

#[test]
fn sync_and_misc_events_are_dropped() {
    assert!(convert_event(&fmt_node(), EV_SYN, 0, 0).is_none());
    assert!(convert_event(&fmt_node(), EV_MSC, 4, 9).is_none());
    let event = convert_event(&fmt_node(), EV_REL, 1, -3).unwrap();
    assert_eq!((event.event_type, event.code, event.value), (EV_REL, 1, -3));
}

#[test]
fn actions_become_raw_events() {
    let actions = [
        Action::Key { key: fmt_key(key::KEY_A), pressed: true },
        Action::Forward { event_type: EV_REL, code: 0, value: 5 },
        Action::Forward { event_type: EV_MSC, code: 4, value: 1 },
        Action::Forward { event_type: EV_ABS, code: 1, value: 9 },
        Action::Key { key: fmt_key(key::KEY_A), pressed: false },
    ];
    assert_eq!(
        raw_events(&actions),
        vec![(EV_KEY, 30, 1), (EV_REL, 0, 5), (EV_ABS, 1, 9), (EV_KEY, 30, 0)]
    );
}

#[test]
fn mirror_advertises_node_caps_known_keys_and_mouse_buttons() {
    let mut a = Caps::new();
    a.add_key_code(999).add_rel(0);
    let mut b = Caps::new();
    b.add_abs(3);
    let caps = mirror_caps(&[a, b]);
    assert!(caps.keys().contains(&999));
    assert!(caps.keys().contains(&30));
    assert!(caps.keys().contains(&0x110));
    assert!(caps.keys().contains(&0x114));
    assert_eq!(caps.keys().len(), 118 + 5 + 1);
    assert_eq!(caps.rels(), &[0]);
    assert_eq!(caps.abss(), &[3]);
}

// config

#[test]
fn paths_are_joined_like_pathbuf() {
    for (base, name) in [("/tmp", "x"), ("/tmp/", "x"), ("", "x"), ("rel", "a.toml")] {
        assert_eq!(
            std::path::PathBuf::from(join_path(base, name)),
            std::path::PathBuf::from(base).join(name)
        );
    }
    assert_eq!(config_root(Some("/home/u/.config")), "/home/u/.config/razer-trinity-mapper");
    assert_eq!(config_root(None), "./razer-trinity-mapper");
    assert_eq!(default_profiles_dir(Some("/c")), "/c/razer-trinity-mapper/profiles");
    assert_eq!(default_calibration_path(Some("/c")), "/c/razer-trinity-mapper/calibration.toml");
    assert_eq!(runtime_dir(Some("/run/user/1"), Some("/t")), "/run/user/1");
    assert_eq!(runtime_dir(None, Some("/t")), "/t");
    assert_eq!(runtime_dir(None, None), "/tmp");
}

#[test]
fn server_config_defaults_and_overrides() {
    let config = ServerConfig::from_dirs("/run/user/1", "/c/razer-trinity-mapper");
    assert_eq!(config.socket_path, "/run/user/1/trinity-mapper.sock");
    assert_eq!(config.profiles_dir, "/c/razer-trinity-mapper/profiles");
    assert_eq!(config.calibration_path, "/c/razer-trinity-mapper/calibration.toml");
    assert_eq!(config.default_profile, "default");
    assert_eq!(config.device_prefix, "usb-Razer_Razer_Naga_Trinity");
    let config = config.with_socket("/s").with_profiles_dir("/p").with_calibration_path("/k");
    assert_eq!((config.socket_path.as_str(), config.profiles_dir.as_str(), config.calibration_path.as_str()), ("/s", "/p", "/k"));
}

// locale

#[test]
fn locales_are_declared_once() {
    let mut sorted = locale_list();
    sorted.sort_unstable();
    sorted.dedup();
    assert_eq!(sorted.len(), locale_list().len());
}

#[test]
fn effective_locale_falls_back_to_system() {
    let system = system_locale("de_DE.UTF-8");
    let settings = GuiSettings::default();
    assert!(locale_list().contains(&settings.effective_locale(&system).as_str()));
    let bogus = GuiSettings { locale: Some("xx".to_owned()) };
    assert!(locale_list().contains(&bogus.effective_locale(&system).as_str()));
    assert_eq!(bogus.effective_locale(&system), "de");
    let chosen = GuiSettings { locale: Some("it".to_owned()) };
    assert_eq!(chosen.effective_locale(&system), "it");
}

#[test]
fn system_settings_name_locales() {
    assert_eq!(system_locale("fr_FR.UTF-8"), "fr");
    assert_eq!(system_locale("pt_BR.utf8"), "pt-BR");
    assert_eq!(system_locale("PT_br"), "pt-BR");
    assert_eq!(system_locale("pt_PT.UTF-8"), "en");
    assert_eq!(system_locale("ES"), "es");
    assert_eq!(system_locale(""), "en");
    assert_eq!(system_locale("C"), "en");
}

#[test]
fn native_names_are_never_translated() {
    assert_eq!(native_name("fr"), "Français");
    assert_eq!(native_name("pt-BR"), "Português (Brasil)");
    assert_eq!(native_name("xx"), "xx");
}

// key capture

fn from_char(characters: &str) -> Option<KeyCode> {
    input_key_to_keycode(&KeyInput::Character(characters.to_owned()))
}

#[test]
fn maps_letters_digits_and_symbols() {
    assert_eq!(from_char("a"), Some(fmt_key(key::KEY_A)));
    assert_eq!(from_char("Q"), Some(fmt_key(key::KEY_Q)));
    assert_eq!(from_char("1"), Some(fmt_key(key::KEY_1)));
    assert_eq!(from_char("0"), Some(fmt_key(key::KEY_0)));
    assert_eq!(from_char("-"), Some(fmt_key(key::KEY_MINUS)));
    assert_eq!(from_char(" "), Some(fmt_key(key::KEY_SPACE)));
    assert_eq!(from_char("eu"), None);
    assert_eq!(char_to_keycode('é'), None);
    assert_eq!(characters_to_keycode("\\"), Some(fmt_key(key::KEY_BACKSLASH)));
}

#[test]
fn maps_named_keys() {
    assert_eq!(input_key_to_keycode(&KeyInput::Named(NamedKey::Escape)), Some(fmt_key(key::KEY_ESC)));
    assert_eq!(input_key_to_keycode(&KeyInput::Named(NamedKey::F12)), Some(fmt_key(key::KEY_F12)));
    assert_eq!(input_key_to_keycode(&KeyInput::Other), None);
}

#[test]
fn labels_are_compact() {
    assert_eq!(keycode_label(fmt_key(key::KEY_A)), KeyLabel::Text("A".to_owned()));
    assert_eq!(keycode_label(fmt_key(key::KEY_F5)), KeyLabel::Text("F5".to_owned()));
    assert_eq!(keycode_label(fmt_key(key::KEY_ENTER)), KeyLabel::Message("keys.enter"));
    assert_eq!(keycode_label(fmt_key(key::KEY_UP)), KeyLabel::Text("↑".to_owned()));
    assert_eq!(keycode_label(fmt_key(0x270f)), KeyLabel::Text("0x270f".to_owned()));
}

fn azerty() -> KeyboardLayout {
    KeyboardLayout::from_keys(&vec![
        (8 + 16, vec![vec![Some('a')], vec![Some('A')]]),
        (8 + 30, vec![vec![Some('q')], vec![Some('Q')]]),
        (8 + 2, vec![vec![Some('&')], vec![Some('1')]]),
        (8 + 41, vec![vec![None, Some('\u{7}'), Some('²')], vec![]]),
        (3, vec![vec![Some('z')]]),
        (8 + 57, vec![vec![Some(' ')], vec![Some('x')], vec![Some('y')]]),
    ])
}

#[test]
fn layout_maps_characters_to_physical_positions() {
    let layout = azerty();
    assert_eq!(layout.code_for_char('a'), Some(fmt_key(key::KEY_Q)));
    assert_eq!(layout.code_for_char('q'), Some(fmt_key(key::KEY_A)));
    assert_eq!(layout.code_for_char('&'), Some(fmt_key(key::KEY_1)));
    assert_eq!(layout.code_for_char('1'), Some(fmt_key(key::KEY_1)));
    assert_eq!(layout.code_for_char('²'), Some(fmt_key(key::KEY_GRAVE)));
    assert_eq!(layout.code_for_char('z'), None);
    assert_eq!(layout.code_for_char('x'), Some(fmt_key(key::KEY_SPACE)));
    assert_eq!(layout.code_for_char('y'), None);
    assert_eq!(layout.label_for(fmt_key(key::KEY_Q)), Some('a'));
    assert_eq!(layout.label_for(fmt_key(key::KEY_GRAVE)), Some('²'));
    assert_eq!(layout.label_for(fmt_key(key::KEY_SPACE)), Some('x'));
}

#[test]
fn resolution_prefers_the_layout_then_qwerty() {
    let layout = azerty();
    assert_eq!(resolve_keycode(&layout, &KeyInput::Character("a".to_owned())), Some(fmt_key(key::KEY_Q)));
    assert_eq!(resolve_keycode(&layout, &KeyInput::Character("Q".to_owned())), Some(fmt_key(key::KEY_A)));
    assert_eq!(resolve_keycode(&layout, &KeyInput::Character("m".to_owned())), Some(fmt_key(key::KEY_M)));
    assert_eq!(resolve_keycode(&layout, &KeyInput::Named(NamedKey::Tab)), Some(fmt_key(key::KEY_TAB)));
    assert_eq!(key_label(&layout, fmt_key(key::KEY_Q)), KeyLabel::Char('a'));
    assert_eq!(key_label(&KeyboardLayout::new(), fmt_key(key::KEY_Q)), KeyLabel::Text("Q".to_owned()));
}

#[test]
fn captured_key_becomes_a_mapping() {
    let mapping = captured_mapping(5, true, false, true, false, fmt_key(key::KEY_X));
    assert_eq!(
        mapping,
        ButtonMappingDto {
            button: 5,
            key: "KEY_X".to_owned(),
            modifiers: vec!["KEY_LEFTCTRL".to_owned(), "KEY_LEFTALT".to_owned()],
        }
    );
    assert_eq!(captured_mapping(1, false, false, false, false, fmt_key(0x270f)).key, "KEY_UNKNOWN");
}

// gui

#[test]
fn failed_exchanges_are_reported_as_unreachable() {
    let client = DaemonClient::default_socket("/run/user/1");
    assert_eq!(client.socket(), "/run/user/1/trinity-mapper.sock");
    assert_eq!(DaemonClient::new("/s").socket(), "/s");
    let response = DaemonClient::response_of(Err("refused".to_owned()));
    assert_eq!(response, Response::Error { message: "daemon unreachable : refused".to_owned() });
    assert_eq!(DaemonClient::response_of(Ok(Response::Success)), Response::Success);
    assert!(is_unreachable("daemon unreachable : refused"));
    assert!(!is_unreachable("adapter error: x"));
}

#[test]
fn editing_replaces_or_clears_a_button() {
    let profile = profile_to_dto(&sample_profile()).unwrap();
    let edited = with_mapping(&profile, ButtonMappingDto { button: 1, key: "KEY_B".to_owned(), modifiers: vec![] });
    assert_eq!(edited.buttons.len(), 2);
    assert_eq!(edited.buttons[0].button, 3);
    assert_eq!(edited.buttons[1].key, "KEY_B");
    let cleared = without_button(&edited, 3).unwrap();
    assert_eq!(cleared.buttons.len(), 1);
    assert!(without_button(&cleared, 7).is_none());
}

// order

#[test]
fn names_sort_like_strings() {
    let names = vec!["zeta".to_owned(), "Zed".to_owned(), "alpha".to_owned(), "al".to_owned(), "é".to_owned(), "alpha".to_owned()];
    let mut expected = names.clone();
    expected.sort();
    assert_eq!(sort_names(names), expected);
    assert!(text_less("al", "alpha"));
    assert!(!text_less("alpha", "alpha"));
    assert!(text_less("Z", "a"));
}

#[test]
fn names_merely_ending_in_event_are_not_event_nodes() {
    let names = vec![
        "usb-Razer_Razer_Naga_Trinity_00000000001A-if01-event".to_owned(),
        "usb-Razer_Razer_Naga_Trinity_00000000001A-if02-event-kbd".to_owned(),
    ];
    let nodes = ByIdLocator::trinity().locate_in(names).unwrap();
    let found: Vec<&str> = nodes.iter().map(|n| n.as_str()).collect();
    assert_eq!(found, vec!["usb-Razer_Razer_Naga_Trinity_00000000001A-if02-event-kbd"]);
}

#[test]
fn exchanged_profile_reads_back_the_same_once_written_again() {
    let dto = trinity_mapper::dto::ProfileDto {
        name: "mmo".to_owned(),
        buttons: vec![
            trinity_mapper::dto::ButtonMappingDto {
                button: 4,
                key: "KEY_1".to_owned(),
                modifiers: vec!["KEY_LEFTSHIFT".to_owned(), "KEY_LEFTCTRL".to_owned()],
            },
            trinity_mapper::dto::ButtonMappingDto { button: 2, key: "KEY_A".to_owned(), modifiers: vec![] },
        ],
    };
    let profile = trinity_mapper::dto::profile_from_dto(&dto).unwrap();
    let written = trinity_mapper::dto::profile_to_dto(&profile).unwrap();
    assert_eq!(written.buttons[0].button, 2);
    assert_eq!(written.buttons[1].modifiers, vec!["KEY_LEFTCTRL".to_owned(), "KEY_LEFTSHIFT".to_owned()]);
    let again = trinity_mapper::dto::profile_from_dto(&written).unwrap();
    assert_eq!(trinity_mapper::dto::profile_to_dto(&again).unwrap(), written);
}

#[test]
fn ordered_exchanged_profile_is_written_back_unchanged() {
    let dto = trinity_mapper::dto::ProfileDto {
        name: "mmo".to_owned(),
        buttons: vec![
            trinity_mapper::dto::ButtonMappingDto { button: 2, key: "KEY_A".to_owned(), modifiers: vec![] },
            trinity_mapper::dto::ButtonMappingDto {
                button: 7,
                key: "KEY_1".to_owned(),
                modifiers: vec!["KEY_LEFTCTRL".to_owned(), "KEY_LEFTSHIFT".to_owned()],
            },
        ],
    };
    let profile = trinity_mapper::dto::profile_from_dto(&dto).unwrap();
    assert_eq!(trinity_mapper::dto::profile_to_dto(&profile).unwrap(), dto);
}
