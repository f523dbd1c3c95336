use trinity_mapper::button::Button;
use trinity_mapper::calibration::{Calibration, PhysicalCode};
use trinity_mapper::daemon::{CapsProbe, Daemon, LoopTurn};
use trinity_mapper::dto::{ButtonMappingDto, ProfileDto, Request, Response};
use trinity_mapper::error::AppError;
use trinity_mapper::event::{InputEvent, KEY_PRESS};
use trinity_mapper::node::NodeId;
use trinity_mapper::ports::{CalibrationRepository, Caps};
use trinity_mapper::testing::{FakeSink, FakeSource, MemoryCalibrationRepository, MemoryProfileRepository, StaticLocator};

struct NoCaps;

impl CapsProbe for NoCaps {
    fn node_caps(&self, _node: &NodeId) -> Result<Caps, AppError> {
        Ok(Caps::new())
    }
}

type TestDaemon = Daemon<FakeSource, FakeSink, MemoryProfileRepository, MemoryCalibrationRepository, StaticLocator, NoCaps>;

fn daemon_node() -> NodeId {
    NodeId::new("usb-Razer_Razer_Naga_Trinity_00000000001A-if01-event-kbd").unwrap()
}

fn daemon_with(nodes: Vec<NodeId>, calibrations: MemoryCalibrationRepository) -> TestDaemon {
    Daemon::new(
        FakeSource::new(),
        FakeSink::new(),
        MemoryProfileRepository::new(),
        calibrations,
        StaticLocator::new(nodes),
        NoCaps,
        "default",
    )
}

fn booted() -> TestDaemon {
    let mut daemon = daemon_with(Vec::new(), MemoryCalibrationRepository::new());
    daemon.bootstrap().expect("bootstrap failed");
    daemon
}

fn make_profile(name: &str, button: u8, key: &str) -> ProfileDto {
    ProfileDto {
        name: name.to_owned(),
        buttons: vec![ButtonMappingDto { button, key: key.to_owned(), modifiers: vec![] }],
    }
}

fn status_profile(daemon: &mut TestDaemon) -> Option<String> {
    let Response::Status(status) = daemon.handle_request(Request::GetStatus) else {
        panic!("expected status");
    };
    status.profile
}

#[test]
fn server_bootstrap_creates_default_profile() {
    let mut daemon = booted();
    assert_eq!(daemon.handle_request(Request::ListProfiles), Response::Profiles { names: vec!["default".to_owned()] });
}

#[test]
fn status_reports_uncalibrated_device() {
    let daemon = booted();
    let status = daemon.build_status();
    assert_eq!(status.profile.as_deref(), Some("default"));
    assert!(!status.calibrated);
    assert!(!status.calibrating);
    assert!(!status.device_present);
    assert_eq!(status.total_buttons, 12);
}

#[test]
fn unknown_profile_yields_not_found() {
    let mut daemon = booted();
    let Response::Error { message } = daemon.handle_request(Request::SetProfile { name: "inexistant".into() }) else {
        panic!("expected error");
    };
    assert!(message.contains("inexistant"));
    assert_eq!(message, "not found: profile 'inexistant'");
}

#[test]
fn shutdown_request_stops_loop() {
    let mut daemon = daemon_with(Vec::new(), MemoryCalibrationRepository::new());
    assert!(!daemon.shutdown_requested());
    assert_eq!(daemon.handle_request(Request::Shutdown), Response::Success);
    assert!(daemon.shutdown_requested());
}

#[test]
fn enable_without_device_reports_error() {
    let mut daemon = booted();
    let Response::Error { message } = daemon.handle_request(Request::SetEnabled { enabled: true }) else {
        panic!("expected error");
    };
    assert!(message.contains("no Trinity node"), "message: {message}");
    assert_eq!(daemon.build_status().error.as_deref(), Some("adapter error: no Trinity node found"));
}

#[test]
fn save_and_load_profile_roundtrip() {
    let mut daemon = booted();
    let dto = make_profile("mmo", 3, "KEY_F");
    assert_eq!(daemon.handle_request(Request::SaveProfile { profile: dto.clone() }), Response::Success);
    let Response::Profile { profile } = daemon.handle_request(Request::GetProfile { name: "mmo".into() }) else {
        panic!("expected profile");
    };
    assert_eq!(profile, dto);
}

#[test]
fn get_missing_profile_returns_error() {
    let mut daemon = booted();
    let response = daemon.handle_request(Request::GetProfile { name: "ghost".into() });
    assert!(matches!(response, Response::Error { .. }));
}

#[test]
fn rename_preserves_mappings_and_switches_active() {
    let mut daemon = booted();
    daemon.handle_request(Request::SaveProfile { profile: make_profile("mmo", 1, "KEY_A") });
    let _ = daemon.handle_request(Request::SetProfile { name: "mmo".into() });
    let response = daemon.handle_request(Request::RenameProfile { from: "mmo".into(), to: "mmo2".into() });
    assert_eq!(response, Response::Success);
    assert!(matches!(daemon.handle_request(Request::GetProfile { name: "mmo".into() }), Response::Error { .. }));
    let Response::Profile { profile } = daemon.handle_request(Request::GetProfile { name: "mmo2".into() }) else {
        panic!("expected profile");
    };
    assert_eq!(profile.name, "mmo2");
    assert_eq!(profile.buttons.len(), 1);
    assert_eq!(profile.buttons[0].key, "KEY_A");
    assert_eq!(profile.buttons[0].button, 1);
    assert_eq!(status_profile(&mut daemon).as_deref(), Some("mmo2"));
}

#[test]
fn rename_missing_profile_returns_error() {
    let mut daemon = booted();
    let response = daemon.handle_request(Request::RenameProfile { from: "ghost".into(), to: "new".into() });
    assert!(matches!(response, Response::Error { .. }));
}

#[test]
fn profile_management_rename_to_same_name_is_noop() {
    let mut daemon = booted();
    daemon.handle_request(Request::SaveProfile { profile: make_profile("same", 1, "KEY_A") });
    let response = daemon.handle_request(Request::RenameProfile { from: "same".into(), to: "same".into() });
    assert_eq!(response, Response::Success);
    assert!(matches!(daemon.handle_request(Request::GetProfile { name: "same".into() }), Response::Profile { .. }));
}

#[test]
fn delete_removes_profile_file() {
    let mut daemon = booted();
    daemon.handle_request(Request::SaveProfile { profile: make_profile("temp", 1, "KEY_X") });
    assert_eq!(daemon.handle_request(Request::DeleteProfile { name: "temp".into() }), Response::Success);
    assert!(matches!(daemon.handle_request(Request::GetProfile { name: "temp".into() }), Response::Error { .. }));
}

#[test]
fn delete_default_profile_is_rejected() {
    let mut daemon = booted();
    let response = daemon.handle_request(Request::DeleteProfile { name: "default".into() });
    assert_eq!(response, Response::Error { message: "adapter error: cannot delete the default profile".to_owned() });
}

#[test]
fn delete_active_profile_falls_back_to_default() {
    let mut daemon = booted();
    daemon.handle_request(Request::SaveProfile { profile: make_profile("victim", 1, "KEY_Z") });
    let _ = daemon.handle_request(Request::SetProfile { name: "victim".into() });
    assert_eq!(daemon.handle_request(Request::DeleteProfile { name: "victim".into() }), Response::Success);
    assert_eq!(status_profile(&mut daemon).as_deref(), Some("default"));
}

#[test]
fn list_profiles_returns_sorted_names() {
    let mut daemon = booted();
    for name in ["zeta", "alpha", "mid"] {
        daemon.handle_request(Request::SaveProfile { profile: ProfileDto { name: name.into(), buttons: vec![] } });
    }
    let Response::Profiles { names } = daemon.handle_request(Request::ListProfiles) else {
        panic!("expected profiles");
    };
    assert_eq!(names, vec!["alpha", "default", "mid", "zeta"]);
}

#[test]
fn set_profile_switches_active() {
    let mut daemon = booted();
    daemon.handle_request(Request::SaveProfile { profile: make_profile("target", 5, "KEY_G") });
    assert_eq!(daemon.handle_request(Request::SetProfile { name: "target".into() }), Response::Success);
    assert_eq!(status_profile(&mut daemon).as_deref(), Some("target"));
}

#[test]
fn set_missing_profile_returns_error() {
    let mut daemon = booted();
    assert!(matches!(daemon.handle_request(Request::SetProfile { name: "ghost".into() }), Response::Error { .. }));
}

#[test]
fn profiles_response_always_stores_names() {
    let mut daemon = booted();
    for name in ["a", "b", "c"] {
        daemon.handle_request(Request::SaveProfile { profile: ProfileDto { name: name.into(), buttons: vec![] } });
    }
    let Response::Profiles { names } = daemon.handle_request(Request::ListProfiles) else {
        panic!("expected profiles");
    };
    assert!(names.len() >= 4);
}

#[test]
fn invalid_profile_is_refused_with_its_message() {
    let mut daemon = booted();
    let response = daemon.handle_request(Request::SaveProfile { profile: make_profile("bad", 1, "KEY_NOPE") });
    assert_eq!(response, Response::Error { message: "domain error: unknown key name: KEY_NOPE".to_owned() });
    assert_eq!(daemon.build_status().error.as_deref(), Some("domain error: unknown key name: KEY_NOPE"));
}

fn daemon_calibration() -> Calibration {
    let mut calibration = Calibration::new();
    for button in Button::all() {
        calibration.record(button, PhysicalCode::new(daemon_node(), 100 + u16::from(button.number()))).unwrap();
    }
    calibration
}

#[test]
fn bootstrap_starts_the_engine_when_the_device_is_there() {
    let mut calibrations = MemoryCalibrationRepository::new();
    calibrations.save(&daemon_calibration()).unwrap();
    let mut daemon = daemon_with(vec![daemon_node()], calibrations);
    daemon.bootstrap().unwrap();
    let status = daemon.build_status();
    assert!(status.device_present);
    assert!(status.enabled);
    assert!(status.calibrated);
    assert_eq!(status.error, None);
    assert!(daemon.engine().sink().was_created());
    assert_eq!(daemon.engine().grabbed_nodes(), &[daemon_node()]);
}

#[test]
fn disabling_suspends_and_enabling_resumes() {
    let mut daemon = daemon_with(vec![daemon_node()], MemoryCalibrationRepository::new());
    daemon.bootstrap().unwrap();
    assert_eq!(daemon.handle_request(Request::SetEnabled { enabled: false }), Response::Success);
    assert!(!daemon.build_status().enabled);
    assert!(daemon.engine().is_active());
    assert_eq!(daemon.handle_request(Request::SetEnabled { enabled: true }), Response::Success);
    assert!(daemon.build_status().enabled);
}

#[test]
fn calibration_turns_report_captures_and_conflicts() {
    let mut daemon = daemon_with(vec![daemon_node()], MemoryCalibrationRepository::new());
    daemon.bootstrap().unwrap();
    assert_eq!(daemon.loop_turn(), LoopTurn::Ran { captures: vec![] });
    assert_eq!(daemon.handle_request(Request::BeginCalibration), Response::Success);
    assert!(daemon.build_status().calibrating);
    daemon.handle_request(Request::CancelCalibration);
    assert!(!daemon.build_status().calibrating);
    assert_eq!(daemon.handle_request(Request::BeginCalibration), Response::Success);
    assert_eq!(daemon.build_status().current_button, Some(1));
    assert!(matches!(daemon.handle_request(Request::FinishCalibration), Response::Error { .. }));
}

#[test]
fn idle_engine_turn_does_nothing() {
    let mut daemon = booted();
    assert_eq!(daemon.loop_turn(), LoopTurn::Idle);
}

#[test]
fn engine_turn_reports_new_captures_once_then_a_conflict() {
    let mut source = FakeSource::new();
    source.push_batch(vec![InputEvent::key(daemon_node(), 101, KEY_PRESS)]);
    source.push_batch(vec![InputEvent::key(daemon_node(), 101, KEY_PRESS)]);
    let mut daemon = Daemon::new(
        source,
        FakeSink::new(),
        MemoryProfileRepository::new(),
        MemoryCalibrationRepository::new(),
        StaticLocator::new(vec![daemon_node()]),
        NoCaps,
        "default",
    );
    daemon.bootstrap().unwrap();
    daemon.handle_request(Request::BeginCalibration);
    assert_eq!(
        daemon.loop_turn(),
        LoopTurn::Ran { captures: vec![(1, daemon_node().to_string(), 101)] }
    );
    assert_eq!(daemon.loop_turn(), LoopTurn::Conflict { captures: vec![] });
    let status = daemon.build_status();
    assert!(!status.calibrating);
    assert_eq!(
        status.error.as_deref(),
        Some("calibration conflict: code 101 on usb-Razer_Razer_Naga_Trinity_00000000001A-if01-event-kbd is emitted by both button 1 and button 2")
    );
}

#[test]
fn container_wires_the_configured_default_profile() {
    let config = trinity_mapper::config::ServerConfig::from_dirs("/run/user/1", "/c/razer-trinity-mapper")
        .with_profiles_dir("/tmp/profiles-here");
    let container = trinity_mapper::container::Container::new(&config);
    assert_eq!(container.profiles_dir(), "/tmp/profiles-here");
    let mut use_case = container.profile_use_case(MemoryProfileRepository::new());
    assert_eq!(use_case.default_profile_name(), "default");
    assert!(use_case.delete("default").is_err());
    assert!(use_case.create("mmo").is_ok());
    assert_eq!(use_case.list().unwrap(), vec!["mmo".to_owned()]);
}

#[test]
fn bootstrap_keeps_an_existing_default_profile() {
    let mut daemon = booted();
    assert_eq!(
        daemon.handle_request(Request::SaveProfile { profile: make_profile("default", 3, "KEY_F") }),
        Response::Success
    );
    daemon.bootstrap().expect("second bootstrap failed");
    assert_eq!(
        daemon.handle_request(Request::GetProfile { name: "default".to_owned() }),
        Response::Profile { profile: make_profile("default", 3, "KEY_F") }
    );
}
