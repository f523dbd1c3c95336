use trinity_mapper::button::Button;
use trinity_mapper::calibration::{Calibration, PhysicalCode};
use trinity_mapper::combo::KeyCombination;
use trinity_mapper::engine::Engine;
use trinity_mapper::error::{AppError, DomainError};
use trinity_mapper::event::{Action, InputEvent, BTN_LEFT, EV_KEY, EV_REL, KEY_PRESS, KEY_RELEASE};
use trinity_mapper::key::{self, KeyCode};
use trinity_mapper::modifier::Modifier;
use trinity_mapper::node::NodeId;
use trinity_mapper::ports::Caps;
use trinity_mapper::profile::Profile;
use trinity_mapper::testing::{FakeSink, FakeSource};

fn engine_node() -> NodeId {
    NodeId::new("usb-Razer_Razer_Naga_Trinity-event-if01").unwrap()
}

fn engine_key(code: u16) -> KeyCode {
    KeyCode::from_code(code)
}

fn engine_calibration() -> Calibration {
    let mut calibration = Calibration::new();
    for button in Button::all() {
        calibration
            .record(button, PhysicalCode::new(engine_node(), 100 + u16::from(button.number())))
            .unwrap();
    }
    calibration
}

fn engine_profile(mappings: &[(u8, Vec<Modifier>, KeyCode)]) -> Profile {
    let mut profile = Profile::new("fixture").unwrap();
    for (number, modifiers, key) in mappings {
        let combination = KeyCombination::new(modifiers.clone(), *key).unwrap();
        profile.set_mapping(Button::new(*number).unwrap(), combination);
    }
    profile
}

fn ctrl_1() -> (u8, Vec<Modifier>, KeyCode) {
    (1, vec![Modifier::LeftCtrl], engine_key(key::KEY_1))
}

fn pressed(code: u16) -> Action {
    Action::Key { key: engine_key(code), pressed: true }
}

fn released(code: u16) -> Action {
    Action::Key { key: engine_key(code), pressed: false }
}

fn started_engine(batches: Vec<Vec<InputEvent>>) -> Engine<FakeSource, FakeSink> {
    let mut source = FakeSource::new();
    for batch in batches {
        source.push_batch(batch);
    }
    let mut engine = Engine::new(source, FakeSink::new());
    engine.start(&[engine_node()], &Caps::new()).unwrap();
    engine.set_calibration(engine_calibration()).unwrap();
    engine.set_profile(engine_profile(&[ctrl_1()])).unwrap();
    engine
}

#[test]
fn start_grabs_nodes_and_creates_mirror() {
    let engine = started_engine(vec![]);
    assert!(engine.is_active());
    assert!(!engine.is_calibrating());
    assert_eq!(engine.grabbed_nodes(), &[engine_node()]);
    assert_eq!(engine.sink().device(), Some("trinity-mapper-mirror"));
}

#[test]
fn run_once_translates_and_forwards() {
    let mut engine = started_engine(vec![vec![
        InputEvent::key(engine_node(), 101, KEY_PRESS),
        InputEvent { node: engine_node(), event_type: EV_REL, code: 0, value: 7 },
        InputEvent::key(engine_node(), 101, KEY_RELEASE),
    ]]);
    assert_eq!(engine.run_once().unwrap(), 3);
    assert_eq!(
        engine.sink().emitted(),
        vec![
            pressed(key::KEY_LEFTCTRL),
            pressed(key::KEY_1),
            Action::Forward { event_type: EV_REL, code: 0, value: 7 },
            released(key::KEY_1),
            released(key::KEY_LEFTCTRL),
        ]
    );
}

#[test]
fn start_without_calibration_forwards_everything() {
    let mut source = FakeSource::new();
    source.push_batch(vec![
        InputEvent::key(engine_node(), 101, KEY_PRESS),
        InputEvent { node: engine_node(), event_type: EV_REL, code: 0, value: 3 },
    ]);
    let mut engine = Engine::new(source, FakeSink::new());
    engine.start(&[engine_node()], &Caps::new()).unwrap();
    assert_eq!(engine.run_once().unwrap(), 2);
    assert_eq!(
        engine.sink().emitted(),
        vec![
            Action::Forward { event_type: EV_KEY, code: 101, value: KEY_PRESS },
            Action::Forward { event_type: EV_REL, code: 0, value: 3 },
        ]
    );
}

#[test]
fn profile_without_calibration_stays_passthrough() {
    let mut engine = Engine::new(FakeSource::new(), FakeSink::new());
    engine.start(&[engine_node()], &Caps::new()).unwrap();
    engine.set_profile(engine_profile(&[ctrl_1()])).unwrap();
    engine.source_mut().push_batch(vec![InputEvent::key(engine_node(), 101, KEY_PRESS)]);
    engine.run_once().unwrap();
    assert_eq!(
        engine.sink().emitted(),
        vec![Action::Forward { event_type: EV_KEY, code: 101, value: KEY_PRESS }]
    );
}

#[test]
fn stop_releases_held_keys_and_destroys_mirror() {
    let mut engine = started_engine(vec![vec![InputEvent::key(engine_node(), 101, KEY_PRESS)]]);
    engine.run_once().unwrap();
    engine.stop().unwrap();
    assert!(!engine.is_active());
    let sink = engine.sink();
    assert_eq!(sink.destroy_count(), 1);
    let emitted = sink.emitted();
    assert_eq!(&emitted[emitted.len() - 2..], &[released(key::KEY_1), released(key::KEY_LEFTCTRL)]);
    assert_eq!(engine.source().release_count(), 1);
}

#[test]
fn double_start_is_rejected() {
    let mut engine = started_engine(vec![]);
    let err = engine.start(&[engine_node()], &Caps::new()).unwrap_err();
    assert!(matches!(err, AppError::InvalidState(_)));
}

#[test]
fn stop_when_inactive_is_rejected() {
    let mut engine = Engine::new(FakeSource::new(), FakeSink::new());
    let err = engine.stop().unwrap_err();
    assert!(matches!(err, AppError::InvalidState(_)));
}

#[test]
fn set_profile_swaps_translation_and_releases_held() {
    let mut engine = started_engine(vec![
        vec![InputEvent::key(engine_node(), 101, KEY_PRESS)],
        vec![InputEvent::key(engine_node(), 101, KEY_PRESS)],
    ]);
    engine.run_once().unwrap();

    let new_profile = engine_profile(&[(1, vec![Modifier::LeftShift], engine_key(key::KEY_2))]);
    engine.set_profile(new_profile).unwrap();
    engine.run_once().unwrap();

    assert_eq!(
        engine.sink().emitted(),
        vec![
            pressed(key::KEY_LEFTCTRL),
            pressed(key::KEY_1),
            released(key::KEY_1),
            released(key::KEY_LEFTCTRL),
            pressed(key::KEY_LEFTSHIFT),
            pressed(key::KEY_2),
        ]
    );
}

#[test]
fn calibration_flow_captures_then_rearms_translation() {
    let mut engine = started_engine(vec![]);
    engine.begin_calibration().unwrap();
    assert!(engine.is_calibrating());
    assert_eq!(engine.calibration_progress(), Some((Some(1), 0)));

    let mut batches: Vec<Vec<InputEvent>> = vec![vec![
        InputEvent::key(engine_node(), 101, KEY_PRESS),
        InputEvent::key(engine_node(), BTN_LEFT, KEY_PRESS),
    ]];
    for number in 2u8..=12 {
        batches.push(vec![InputEvent::key(engine_node(), 100 + u16::from(number), KEY_PRESS)]);
    }
    for batch in batches {
        engine.source_mut().push_batch(batch);
    }
    engine.run_once().unwrap();
    assert_eq!(engine.calibration_progress(), Some((Some(2), 1)));

    for _ in 2..=12 {
        engine.run_once().unwrap();
    }
    assert_eq!(engine.calibration_progress(), Some((None, 12)));

    let calibration = engine.finish_calibration().unwrap();
    assert!(calibration.is_complete());
    assert!(!engine.is_calibrating());

    engine.source_mut().push_batch(vec![InputEvent::key(engine_node(), 101, KEY_PRESS)]);
    engine.run_once().unwrap();
    let sink = engine.sink();
    assert_eq!(sink.emitted().first(), Some(&pressed(key::KEY_LEFTCTRL)));
    assert!(!sink
        .emitted()
        .iter()
        .any(|action| matches!(action, Action::Forward { code: BTN_LEFT, .. })));
}

#[test]
fn finish_calibration_requires_all_buttons() {
    let mut engine = started_engine(vec![vec![InputEvent::key(engine_node(), 101, KEY_PRESS)]]);
    engine.begin_calibration().unwrap();
    engine.run_once().unwrap();
    let err = engine.finish_calibration().unwrap_err();
    assert!(matches!(err, AppError::Domain(DomainError::IncompleteCalibration { .. })));
    assert!(engine.is_calibrating());
}

#[test]
fn finish_calibration_without_session_is_rejected() {
    let mut engine = started_engine(vec![]);
    let err = engine.finish_calibration().unwrap_err();
    assert!(matches!(err, AppError::InvalidState(_)));
}

#[test]
fn cancel_calibration_restores_translation() {
    let mut engine = started_engine(vec![vec![InputEvent::key(engine_node(), 101, KEY_PRESS)]]);
    engine.begin_calibration().unwrap();
    engine.cancel_calibration();
    assert!(!engine.is_calibrating());
    engine.run_once().unwrap();
    assert_eq!(engine.sink().emitted().first(), Some(&pressed(key::KEY_LEFTCTRL)));
}

#[test]
fn calibration_conflict_propagates() {
    let mut engine = started_engine(vec![
        vec![InputEvent::key(engine_node(), 42, KEY_PRESS)],
        vec![InputEvent::key(engine_node(), 42, KEY_PRESS)],
    ]);
    engine.begin_calibration().unwrap();
    engine.run_once().unwrap();
    let err = engine.run_once().unwrap_err();
    assert!(matches!(err, AppError::Domain(DomainError::PhysicalCodeConflict { .. })));
}

#[test]
fn dual_node_emission_captures_a_single_button_and_swallows_both() {
    let node2 = NodeId::new("usb-Razer_Razer_Naga_Trinity_00000000001A-if02-event-kbd").unwrap();
    let mut engine = started_engine(vec![vec![
        InputEvent::key(engine_node(), 30, KEY_PRESS),
        InputEvent::key(node2.clone(), 30, KEY_PRESS),
    ]]);
    engine.begin_calibration().unwrap();
    engine.run_once().unwrap();
    assert_eq!(engine.calibration_progress(), Some((Some(2), 1)));
    assert!(engine.sink().emitted().is_empty());
    let snapshot = engine.calibration_snapshot();
    assert_eq!(snapshot.len(), 1);
    assert_eq!(snapshot[0], (1, engine_node(), 30));
}

#[test]
fn same_node_double_press_in_one_batch_is_swallowed() {
    let mut engine = started_engine(vec![vec![
        InputEvent::key(engine_node(), 42, KEY_PRESS),
        InputEvent::key(engine_node(), 42, KEY_PRESS),
    ]]);
    engine.begin_calibration().unwrap();
    engine.run_once().unwrap();
    assert_eq!(engine.calibration_progress(), Some((Some(2), 1)));
}

fn codes_for_all_buttons() -> [u16; 12] {
    [101, 102, 103, 104, 105, 106, 107, 108, 109, 110, 111, 112]
}

#[test]
fn multi_code_press_captures_first_code_and_forwards_nothing() {
    let mut batches: Vec<Vec<InputEvent>> = Vec::new();
    for &code in &codes_for_all_buttons()[..10] {
        batches.push(vec![InputEvent::key(engine_node(), code, KEY_PRESS)]);
    }
    batches.push(vec![
        InputEvent::key(engine_node(), 111, KEY_PRESS),
        InputEvent::key(engine_node(), 110, KEY_PRESS),
    ]);
    batches.push(vec![InputEvent::key(engine_node(), 112, KEY_PRESS)]);
    let mut engine = started_engine(batches);
    engine.begin_calibration().unwrap();
    for _ in 0..12 {
        engine.run_once().unwrap();
    }
    assert_eq!(engine.calibration_progress(), Some((None, 12)));
    let calibration = engine.finish_calibration().unwrap();
    assert_eq!(calibration.get(Button::new(11).unwrap()).map(|c| c.code()), Some(111));
    assert!(engine.sink().emitted().is_empty());
}

#[test]
fn conflicting_leading_code_is_tolerated_within_batch() {
    let mut batches: Vec<Vec<InputEvent>> = Vec::new();
    for &code in &codes_for_all_buttons()[..10] {
        batches.push(vec![InputEvent::key(engine_node(), code, KEY_PRESS)]);
    }
    batches.push(vec![
        InputEvent::key(engine_node(), 110, KEY_PRESS),
        InputEvent::key(engine_node(), 111, KEY_PRESS),
    ]);
    for &code in &codes_for_all_buttons()[11..] {
        batches.push(vec![InputEvent::key(engine_node(), code, KEY_PRESS)]);
    }
    let mut engine = started_engine(batches);
    engine.begin_calibration().unwrap();
    for _ in 0..12 {
        engine.run_once().unwrap();
    }
    assert_eq!(engine.calibration_progress(), Some((None, 12)));
    let calibration = engine.finish_calibration().unwrap();
    assert_eq!(calibration.get(Button::new(11).unwrap()).map(|c| c.code()), Some(111));
}

#[test]
fn begin_calibration_requires_active_engine() {
    let mut engine = Engine::new(FakeSource::new(), FakeSink::new());
    let err = engine.begin_calibration().unwrap_err();
    assert!(matches!(err, AppError::InvalidState(_)));
}

#[test]
fn suspend_forwards_everything_and_releases_held_keys() {
    let mut engine = started_engine(vec![vec![InputEvent::key(engine_node(), 101, KEY_PRESS)]]);
    engine.run_once().unwrap();
    engine.suspend_translation().unwrap();
    engine.source_mut().push_batch(vec![InputEvent::key(engine_node(), 101, KEY_PRESS)]);
    engine.run_once().unwrap();
    let emitted = engine.sink().emitted();
    assert_eq!(
        emitted.last(),
        Some(&Action::Forward { event_type: EV_KEY, code: 101, value: KEY_PRESS })
    );
    assert_eq!(&emitted[2..4], &[released(key::KEY_1), released(key::KEY_LEFTCTRL)]);
}

#[test]
fn resume_rearms_translation() {
    let mut engine = started_engine(vec![
        vec![InputEvent::key(engine_node(), 101, KEY_PRESS)],
        vec![InputEvent::key(engine_node(), 101, KEY_PRESS)],
    ]);
    engine.suspend_translation().unwrap();
    engine.run_once().unwrap();
    engine.resume_translation().unwrap();
    engine.run_once().unwrap();
    let emitted = engine.sink().emitted();
    assert_eq!(emitted.len(), 3);
    assert_eq!(&emitted[emitted.len() - 2..], &[pressed(key::KEY_LEFTCTRL), pressed(key::KEY_1)]);
}

#[test]
fn run_once_on_stopped_engine_is_rejected() {
    let mut engine = Engine::new(FakeSource::new(), FakeSink::new());
    assert!(matches!(engine.run_once().unwrap_err(), AppError::InvalidState(_)));
}

#[test]
fn process_batch_reports_the_actions_without_emitting() {
    let mut engine = started_engine(vec![]);
    let actions = engine.process_batch(&[InputEvent::key(engine_node(), 101, KEY_PRESS)]).unwrap();
    assert_eq!(actions, vec![pressed(key::KEY_LEFTCTRL), pressed(key::KEY_1)]);
    assert!(engine.sink().emitted().is_empty());
}

#[test]
fn active_profile_is_the_last_one_set() {
    let engine = started_engine(vec![]);
    assert_eq!(engine.active_profile().map(|p| p.name()), Some("fixture"));
}
