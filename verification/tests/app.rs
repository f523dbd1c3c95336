use trinity_mapper::button::Button;
use trinity_mapper::calibration::{Calibration, PhysicalCode};
use trinity_mapper::combo::KeyCombination;
use trinity_mapper::engine::Engine;
use trinity_mapper::error::{AppError, DomainError};
use trinity_mapper::event::{
    Action, InputEvent, BTN_LEFT, BTN_RIGHT, EV_KEY, EV_REL, KEY_PRESS, KEY_RELEASE, KEY_REPEAT,
};
use trinity_mapper::key::{self, KeyCode};
use trinity_mapper::modifier::Modifier;
use trinity_mapper::node::NodeId;
use trinity_mapper::ports::{CalibrationRepository, Caps, DeviceLocator, InputEventSource, OutputEventSink, ProfileRepository};
use trinity_mapper::profile::Profile;
use trinity_mapper::services::{CalibrationService, ProfileService};
use trinity_mapper::session::CalibrationSession;
use trinity_mapper::testing::{
    FakeSink, FakeSource, MemoryCalibrationRepository, MemoryProfileRepository, StaticLocator,
};
use trinity_mapper::translation::TranslationTable;
use trinity_mapper::translator::Translator;
use trinity_mapper::use_cases::{EngineUseCase, ProfileUseCase};

fn app_node() -> NodeId {
    NodeId::new("usb-Razer_Razer_Naga_Trinity-event-if01").unwrap()
}

fn app_key(code: u16) -> KeyCode {
    KeyCode::from_code(code)
}

fn app_calibration() -> Calibration {
    let mut calibration = Calibration::new();
    for button in Button::all() {
        calibration
            .record(button, PhysicalCode::new(app_node(), 100 + u16::from(button.number())))
            .unwrap();
    }
    calibration
}

fn app_profile(mappings: &[(u8, Vec<Modifier>, KeyCode)]) -> Profile {
    let mut profile = Profile::new("fixture").unwrap();
    for (number, modifiers, key) in mappings {
        let combination = KeyCombination::new(modifiers.clone(), *key).unwrap();
        profile.set_mapping(Button::new(*number).unwrap(), combination);
    }
    profile
}

fn key_action(code: u16, pressed: bool) -> Action {
    Action::Key { key: app_key(code), pressed }
}

// event

#[test]
fn key_helpers_classify_values() {
    let node = NodeId::new("node").unwrap();
    let press = InputEvent::key(node.clone(), 30, KEY_PRESS);
    let repeat = InputEvent::key(node.clone(), 30, KEY_REPEAT);
    let release = InputEvent::key(node.clone(), 30, KEY_RELEASE);
    let rel = InputEvent { node, event_type: EV_REL, code: 0, value: 3 };
    assert!(press.is_key() && press.is_key_press() && !press.is_key_release());
    assert!(repeat.is_key_repeat());
    assert!(release.is_key_release());
    assert!(!rel.is_key());
}

// ports

#[test]
fn caps_accumulate_and_merge() {
    let mut caps = Caps::new();
    caps.add_key(app_key(key::KEY_A)).add_key(app_key(key::KEY_B)).add_rel(1);
    assert_eq!(caps.keys().len(), 2);
    assert_eq!(caps.rels().len(), 1);

    let mut other = Caps::new();
    other.add_key_code(999).add_abs(3);
    caps.merge(&other);
    assert!(caps.keys().contains(&999));
    assert!(caps.abss().contains(&3));
    assert_eq!(caps.keys().len(), 3);
}

#[test]
fn caps_keep_codes_sorted_and_unique() {
    let mut caps = Caps::new();
    caps.add_key_code(50).add_key_code(10).add_key_code(50).add_msc(4);
    assert_eq!(caps.keys(), &[10, 50]);
    assert_eq!(caps.mscs(), &[4]);
}

// session

fn app_press(code: u16) -> InputEvent {
    InputEvent::key(app_node(), code, KEY_PRESS)
}

#[test]
fn happy_path_captures_all_twelve_buttons_in_order() {
    let mut session = CalibrationSession::new();
    assert_eq!(session.current_button().map(|b| b.number()), Some(1));
    assert_eq!(session.captured_count(), 0);
    assert_eq!(session.total_buttons(), 12);

    for number in 1..=12u8 {
        let outcome = session.feed(&app_press(200 + u16::from(number))).unwrap();
        assert_eq!(outcome.map(|b| b.number()), Some(number));
    }

    assert!(session.is_complete());
    let calibration = session.finish().unwrap();
    assert!(calibration.is_complete());
    assert_eq!(calibration.get(Button::new(12).unwrap()).map(|c| c.code()), Some(212));
}

#[test]
fn ignores_mouse_buttons_releases_and_non_key_events() {
    let mut session = CalibrationSession::new();
    for event in [
        InputEvent::key(app_node(), BTN_LEFT, KEY_PRESS),
        InputEvent::key(app_node(), BTN_RIGHT, KEY_PRESS),
        InputEvent::key(app_node(), 30, KEY_RELEASE),
        InputEvent { node: app_node(), event_type: EV_REL, code: 0, value: 1 },
    ] {
        assert_eq!(session.feed(&event).unwrap(), None);
    }
    assert_eq!(session.captured_count(), 0);
}

#[test]
fn code_conflict_between_buttons_is_an_error() {
    let mut session = CalibrationSession::new();
    session.feed(&app_press(42)).unwrap();
    let err = session.feed(&app_press(42)).unwrap_err();
    assert!(matches!(err, AppError::Domain(DomainError::PhysicalCodeConflict { .. })));
}

#[test]
fn finish_rejects_incomplete_sessions() {
    let mut session = CalibrationSession::new();
    session.feed(&app_press(200)).unwrap();
    let remaining: Vec<u8> = session.remaining_buttons().iter().map(|b| b.number()).collect();
    assert_eq!(remaining, vec![2, 3, 4, 5, 6, 7, 8, 9, 10, 11, 12]);
    let err = session.finish().unwrap_err();
    assert!(matches!(err, AppError::Domain(DomainError::IncompleteCalibration { .. })));
}

#[test]
fn extra_ignored_codes_are_skipped() {
    let mut session = CalibrationSession::with_extra_ignored(&[56]);
    assert_eq!(session.feed(&app_press(56)).unwrap(), None);
    assert_eq!(session.feed(&app_press(200)).unwrap().map(|b| b.number()), Some(1));
}

#[test]
fn feed_batch_captures_the_first_capturable_press() {
    let mut session = CalibrationSession::new();
    let captured = session
        .feed_batch(&[app_press(BTN_LEFT), app_press(77), app_press(78)])
        .unwrap();
    assert_eq!(captured.len(), 1);
    assert_eq!(captured[0].0.number(), 1);
    assert_eq!(captured[0].1, 77);
    assert_eq!(session.captured().get(Button::new(1).unwrap()).map(|c| c.code()), Some(77));
}

#[test]
fn profile_service_roundtrips_through_repository() {
    let mut service = ProfileService::new(MemoryProfileRepository::new());
    let mut profile = Profile::new("mmo").unwrap();
    profile.set_mapping(Button::new(3).unwrap(), KeyCombination::plain(app_key(key::KEY_F)));
    service.save(&profile).unwrap();

    assert_eq!(service.list().unwrap(), vec!["mmo".to_owned()]);
    assert_eq!(service.load("mmo").unwrap(), profile);

    service.delete("mmo").unwrap();
    assert!(service.list().unwrap().is_empty());
    assert!(matches!(service.load("mmo").unwrap_err(), AppError::NotFound(_)));
}

#[test]
fn calibration_service_refuses_partial_saves() {
    let mut service = CalibrationService::new(MemoryCalibrationRepository::new());

    let mut partial = Calibration::new();
    partial.record(Button::new(1).unwrap(), PhysicalCode::new(app_node(), 201)).unwrap();
    assert_eq!(
        service.save(&partial).unwrap_err(),
        AppError::Domain(DomainError::IncompleteCalibration { missing: vec![2, 3, 4, 5, 6, 7, 8, 9, 10, 11, 12] })
    );

    let complete = app_calibration();
    service.save(&complete).unwrap();
    assert_eq!(service.load().unwrap(), Some(complete));
}

// translator

fn app_translator(mappings: &[(u8, Vec<Modifier>, KeyCode)]) -> Translator {
    Translator::new(TranslationTable::build(&app_calibration(), &app_profile(mappings)).unwrap())
}

fn app_ctrl(number: u8, code: u16) -> (u8, Vec<Modifier>, KeyCode) {
    (number, vec![Modifier::LeftCtrl], app_key(code))
}

#[test]
fn forwards_non_key_events() {
    let mut translator = app_translator(&[]);
    let event = InputEvent { node: app_node(), event_type: EV_REL, code: 0, value: 7 };
    assert_eq!(translator.translate(&event), vec![Action::Forward { event_type: EV_REL, code: 0, value: 7 }]);
}

#[test]
fn forwards_unmapped_keys() {
    let mut translator = app_translator(&[app_ctrl(1, key::KEY_1)]);
    let event = InputEvent::key(app_node(), 42, KEY_PRESS);
    assert_eq!(
        translator.translate(&event),
        vec![Action::Forward { event_type: EV_KEY, code: 42, value: KEY_PRESS }]
    );
}

#[test]
fn press_emits_modifiers_then_key() {
    let mut translator = app_translator(&[app_ctrl(1, key::KEY_1)]);
    let event = InputEvent::key(app_node(), 101, KEY_PRESS);
    assert_eq!(
        translator.translate(&event),
        vec![key_action(key::KEY_LEFTCTRL, true), key_action(key::KEY_1, true)]
    );
    assert_eq!(translator.held_count(), 1);
}

#[test]
fn release_emits_key_then_modifiers_in_reverse() {
    let mut translator = app_translator(&[app_ctrl(1, key::KEY_1)]);
    translator.translate(&InputEvent::key(app_node(), 101, KEY_PRESS));
    assert_eq!(
        translator.translate(&InputEvent::key(app_node(), 101, KEY_RELEASE)),
        vec![key_action(key::KEY_1, false), key_action(key::KEY_LEFTCTRL, false)]
    );
    assert_eq!(translator.held_count(), 0);
}

#[test]
fn auto_repeat_is_swallowed() {
    let mut translator = app_translator(&[app_ctrl(1, key::KEY_1)]);
    translator.translate(&InputEvent::key(app_node(), 101, KEY_PRESS));
    assert_eq!(translator.translate(&InputEvent::key(app_node(), 101, KEY_REPEAT)), Vec::<Action>::new());
}

#[test]
fn release_without_press_is_ignored() {
    let mut translator = app_translator(&[app_ctrl(1, key::KEY_1)]);
    assert_eq!(translator.translate(&InputEvent::key(app_node(), 101, KEY_RELEASE)), Vec::<Action>::new());
}

#[test]
fn shared_modifier_is_injected_once_and_released_by_last_holder() {
    let mut translator = app_translator(&[app_ctrl(1, key::KEY_A), app_ctrl(2, key::KEY_B)]);
    translator.translate(&InputEvent::key(app_node(), 101, KEY_PRESS));
    assert_eq!(
        translator.translate(&InputEvent::key(app_node(), 102, KEY_PRESS)),
        vec![key_action(key::KEY_B, true)]
    );
    assert_eq!(
        translator.translate(&InputEvent::key(app_node(), 101, KEY_RELEASE)),
        vec![key_action(key::KEY_A, false)]
    );
    assert_eq!(
        translator.translate(&InputEvent::key(app_node(), 102, KEY_RELEASE)),
        vec![key_action(key::KEY_B, false), key_action(key::KEY_LEFTCTRL, false)]
    );
}

#[test]
fn shared_plain_key_is_refcounted() {
    let mappings = vec![(1u8, Vec::new(), app_key(key::KEY_A)), (2u8, Vec::new(), app_key(key::KEY_A))];
    let mut translator = app_translator(&mappings);
    assert_eq!(
        translator.translate(&InputEvent::key(app_node(), 101, KEY_PRESS)),
        vec![key_action(key::KEY_A, true)]
    );
    assert_eq!(translator.translate(&InputEvent::key(app_node(), 102, KEY_PRESS)), Vec::<Action>::new());
    assert_eq!(translator.translate(&InputEvent::key(app_node(), 101, KEY_RELEASE)), Vec::<Action>::new());
    assert_eq!(
        translator.translate(&InputEvent::key(app_node(), 102, KEY_RELEASE)),
        vec![key_action(key::KEY_A, false)]
    );
}

#[test]
fn set_table_releases_every_held_key() {
    let mut translator = app_translator(&[app_ctrl(1, key::KEY_1)]);
    translator.translate(&InputEvent::key(app_node(), 101, KEY_PRESS));
    let cleanup = translator.set_table(TranslationTable::default());
    assert_eq!(cleanup, vec![key_action(key::KEY_1, false), key_action(key::KEY_LEFTCTRL, false)]);
    assert_eq!(translator.held_count(), 0);
    assert!(translator.table().is_empty());
    assert_eq!(
        translator.translate(&InputEvent::key(app_node(), 101, KEY_PRESS)),
        vec![Action::Forward { event_type: EV_KEY, code: 101, value: KEY_PRESS }]
    );
}

#[test]
fn canonical_modifier_order_is_applied() {
    let mappings = vec![(
        1u8,
        vec![Modifier::LeftShift, Modifier::LeftCtrl, Modifier::LeftAlt],
        app_key(key::KEY_X),
    )];
    let mut translator = app_translator(&mappings);
    assert_eq!(
        translator.translate(&InputEvent::key(app_node(), 101, KEY_PRESS)),
        vec![
            key_action(key::KEY_LEFTCTRL, true),
            key_action(key::KEY_LEFTSHIFT, true),
            key_action(key::KEY_LEFTALT, true),
            key_action(key::KEY_X, true),
        ]
    );
}

#[test]
fn second_press_of_a_held_code_counts_its_keys_again() {
    let mut translator = app_translator(&[app_ctrl(1, key::KEY_1)]);
    translator.translate(&InputEvent::key(app_node(), 101, KEY_PRESS));
    assert_eq!(translator.translate(&InputEvent::key(app_node(), 101, KEY_PRESS)), Vec::<Action>::new());
    assert_eq!(translator.translate(&InputEvent::key(app_node(), 101, KEY_RELEASE)), Vec::<Action>::new());
    assert_eq!(translator.held_count(), 0);
    assert_eq!(
        translator.release_all(),
        vec![key_action(key::KEY_1, false), key_action(key::KEY_LEFTCTRL, false)]
    );
}

#[test]
fn release_all_lets_go_of_every_key_once_in_code_order() {
    let mut translator = app_translator(&[app_ctrl(1, key::KEY_A), app_ctrl(2, key::KEY_B)]);
    translator.translate(&InputEvent::key(app_node(), 101, KEY_PRESS));
    translator.translate(&InputEvent::key(app_node(), 102, KEY_PRESS));
    assert_eq!(translator.held_count(), 2);
    assert_eq!(
        translator.release_all(),
        vec![key_action(key::KEY_LEFTCTRL, false), key_action(key::KEY_A, false), key_action(key::KEY_B, false)]
    );
    assert_eq!(translator.held_count(), 0);
    assert!(translator.release_all().is_empty());
}

// engine use case

fn engine_use_case() -> EngineUseCase<FakeSource, FakeSink> {
    let mut source = FakeSource::new();
    source.push_batch(vec![]);
    let mut engine = Engine::new(source, FakeSink::new());
    engine.start(&[app_node()], &Caps::new()).unwrap();
    engine.set_calibration(app_calibration()).unwrap();
    engine.set_profile(app_profile(&[(1, vec![Modifier::LeftCtrl], app_key(key::KEY_1))])).unwrap();
    EngineUseCase::new(engine)
}

#[test]
fn enable_when_active_is_noop() {
    let mut uc = engine_use_case();
    assert!(uc.is_active());
    assert!(!uc.is_suspended());
    uc.enable(&[app_node()], &Caps::new()).unwrap();
    assert!(uc.is_active());
    assert!(!uc.is_suspended());
}

#[test]
fn disable_suspends_without_stopping() {
    let mut uc = engine_use_case();
    uc.disable().unwrap();
    assert!(uc.is_active());
    assert!(uc.is_suspended());
}

#[test]
fn suspend_then_enable_resumes() {
    let mut uc = engine_use_case();
    uc.disable().unwrap();
    assert!(uc.is_suspended());
    uc.enable(&[app_node()], &Caps::new()).unwrap();
    assert!(!uc.is_suspended());
    assert!(uc.is_active());
}

#[test]
fn enable_starts_an_inactive_engine() {
    let mut uc = EngineUseCase::new(Engine::new(FakeSource::new(), FakeSink::new()));
    assert!(!uc.is_active());
    uc.disable().unwrap();
    assert!(!uc.is_suspended());
    uc.enable(&[app_node()], &Caps::new()).unwrap();
    assert!(uc.is_active());
    assert!(uc.engine.sink().was_created());
}

// profile use case

fn profile_use_case() -> ProfileUseCase<MemoryProfileRepository> {
    ProfileUseCase::new(MemoryProfileRepository::new(), "default")
}

#[test]
fn create_and_load_roundtrip() {
    let mut uc = profile_use_case();
    let profile = uc.create("mmo").unwrap();
    assert_eq!(profile.name(), "mmo");
    let loaded = uc.load("mmo").unwrap();
    assert_eq!(loaded, profile);
    assert_eq!(uc.default_profile_name(), "default");
}

#[test]
fn create_empty_name_rejected() {
    let mut uc = profile_use_case();
    assert!(uc.create("").is_err());
}

#[test]
fn rename_preserves_mappings() {
    let mut uc = profile_use_case();
    let mut profile = uc.create("mmo").unwrap();
    profile.set_mapping(
        Button::new(3).unwrap(),
        KeyCombination::new(vec![Modifier::LeftCtrl], app_key(key::KEY_1)).unwrap(),
    );
    uc.save(&profile).unwrap();

    let renamed = uc.rename("mmo", "mmo2").unwrap();
    assert_eq!(renamed.name(), "mmo2");
    assert!(renamed.mapping(Button::new(3).unwrap()).is_some());

    assert!(uc.load("mmo").is_err());
    let loaded = uc.load("mmo2").unwrap();
    assert!(loaded.mapping(Button::new(3).unwrap()).is_some());
}

#[test]
fn profile_rename_to_same_name_is_noop() {
    let mut uc = profile_use_case();
    uc.create("same").unwrap();
    let result = uc.rename("same", "same").unwrap();
    assert_eq!(result.name(), "same");
    assert!(uc.load("same").is_ok());
}

#[test]
fn rename_missing_profile_errors() {
    let mut uc = profile_use_case();
    assert!(uc.rename("ghost", "new").is_err());
}

#[test]
fn delete_default_rejected() {
    let mut uc = profile_use_case();
    uc.ensure_default().unwrap();
    assert!(uc.delete("default").is_err());
}

#[test]
fn delete_removes_profile() {
    let mut uc = profile_use_case();
    uc.create("temp").unwrap();
    uc.delete("temp").unwrap();
    assert!(uc.load("temp").is_err());
}

#[test]
fn list_returns_sorted_names() {
    let mut uc = profile_use_case();
    for name in ["zeta", "alpha", "mid"] {
        uc.create(name).unwrap();
    }
    let names = uc.list().unwrap();
    assert!(names.contains(&"alpha".to_owned()));
    assert!(names.contains(&"zeta".to_owned()));
    assert!(names.contains(&"mid".to_owned()));
    assert_eq!(names, vec!["alpha".to_owned(), "mid".to_owned(), "zeta".to_owned()]);
}

#[test]
fn ensure_default_creates_if_empty() {
    let mut uc = profile_use_case();
    assert!(uc.list().unwrap().is_empty());
    uc.ensure_default().unwrap();
    let names = uc.list().unwrap();
    assert!(names.contains(&"default".to_owned()));
}

#[test]
fn ensure_default_noop_if_exists() {
    let mut uc = profile_use_case();
    uc.create("default").unwrap();
    uc.create("other").unwrap();
    uc.ensure_default().unwrap();
    let names = uc.list().unwrap();
    assert_eq!(names.len(), 2);
}

// fakes

#[test]
fn fake_source_yields_batches_in_order_then_empty() {
    let mut source = FakeSource::new();
    source.push_batch(vec![app_press(1)]);
    source.push_batch(vec![app_press(2), app_press(3)]);
    source.grab(&[app_node()]).unwrap();
    assert_eq!(source.grabbed(), &[app_node()]);
    assert_eq!(source.read_events().unwrap().len(), 1);
    assert_eq!(source.read_events().unwrap().len(), 2);
    assert!(source.read_events().unwrap().is_empty());
    source.release().unwrap();
    assert!(source.grabbed().is_empty());
    assert_eq!(source.release_count(), 1);
}

#[test]
fn fake_sink_records_and_clears_on_create() {
    let mut sink = FakeSink::new();
    assert!(!sink.was_created());
    let mut caps = Caps::new();
    caps.add_key_code(30);
    sink.create("mirror", &caps).unwrap();
    assert_eq!(sink.device(), Some("mirror"));
    assert_eq!(sink.caps(), Some(&caps));
    sink.emit(&[key_action(key::KEY_A, true)]).unwrap();
    assert_eq!(sink.emitted(), &[key_action(key::KEY_A, true)]);
    sink.create("mirror", &caps).unwrap();
    assert!(sink.emitted().is_empty());
    sink.destroy().unwrap();
    assert_eq!(sink.destroy_count(), 1);
    assert!(sink.device().is_none());
}

#[test]
fn memory_profile_repository_lists_in_name_order_and_replaces() {
    let mut repository = MemoryProfileRepository::new();
    repository.save(&Profile::new("b").unwrap()).unwrap();
    repository.save(&Profile::new("a").unwrap()).unwrap();
    let mut updated = Profile::new("b").unwrap();
    updated.set_mapping(Button::new(1).unwrap(), KeyCombination::plain(app_key(key::KEY_A)));
    repository.save(&updated).unwrap();
    assert_eq!(repository.list().unwrap(), vec!["a".to_owned(), "b".to_owned()]);
    assert_eq!(repository.load("b").unwrap(), updated);
    assert_eq!(repository.load("c").unwrap_err(), AppError::NotFound("profile 'c'".to_owned()));
    assert_eq!(repository.delete("c").unwrap_err(), AppError::NotFound("profile 'c'".to_owned()));
}

#[test]
fn memory_calibration_repository_keeps_the_last_saved() {
    let mut repository = MemoryCalibrationRepository::new();
    assert_eq!(repository.load().unwrap(), None);
    repository.save(&app_calibration()).unwrap();
    assert_eq!(repository.load().unwrap(), Some(app_calibration()));
}

#[test]
fn static_locator_returns_its_nodes() {
    let locator = StaticLocator::new(vec![app_node()]);
    assert_eq!(locator.locate().unwrap(), vec![app_node()]);
}

#[test]
fn ensure_default_creates_it_beside_other_profiles() {
    let mut uc = profile_use_case();
    uc.create("other").unwrap();
    uc.ensure_default().unwrap();
    assert_eq!(uc.list().unwrap(), vec!["default".to_owned(), "other".to_owned()]);
}

#[test]
fn rename_stores_the_new_name_and_deletes_the_old() {
    let mut uc = profile_use_case();
    uc.create("old").unwrap();
    let renamed = uc.rename("old", "new").unwrap();
    assert_eq!(renamed.name(), "new");
    assert!(uc.load("old").is_err());
    assert_eq!(uc.load("new").unwrap().name(), "new");
    assert_eq!(uc.list().unwrap(), vec!["new".to_owned()]);
}

#[test]
fn ensure_default_keeps_an_existing_default() {
    let mut uc = profile_use_case();
    let mut default = Profile::new("default").unwrap();
    default.set_mapping(Button::new(2).unwrap(), KeyCombination::new(vec![], app_key(key::KEY_A)).unwrap());
    uc.save(&default).unwrap();
    uc.ensure_default().unwrap();
    assert_eq!(uc.load("default").unwrap(), default);
}

#[test]
fn deleting_a_missing_profile_is_an_error() {
    let mut uc = profile_use_case();
    assert!(uc.delete("ghost").is_err());
}
