use trinity_mapper::ctl::{ctl_action, failure_lines, response_lines, toggle_tip, usage, CtlAction};
use trinity_mapper::dto::{Request, Response, Status};

fn args(words: &[&str]) -> Vec<String> {
    words.iter().map(|w| (*w).to_owned()).collect()
}

#[test]
fn ctl_reads_its_commands() {
    assert_eq!(
        ctl_action(&args(&["profile", "mmo"])),
        CtlAction::Send(Request::SetProfile { name: "mmo".to_owned() })
    );
    assert_eq!(ctl_action(&args(&["status"])), CtlAction::Send(Request::GetStatus));
    assert_eq!(ctl_action(&args(&["profiles"])), CtlAction::Send(Request::ListProfiles));
    assert_eq!(ctl_action(&args(&["toggle"])), CtlAction::ToggleTip);
    assert_eq!(ctl_action(&args(&[])), CtlAction::Usage);
    assert_eq!(ctl_action(&args(&["profile"])), CtlAction::Usage);
    assert_eq!(ctl_action(&args(&["status", "now"])), CtlAction::Usage);
}

#[test]
fn ctl_prints_a_status() {
    let status = Status {
        device_present: true,
        enabled: false,
        calibrated: true,
        profile: None,
        calibrating: false,
        current_button: None,
        captured_count: 0,
        total_buttons: 12,
        error: Some("no device".to_owned()),
    };
    let printed = response_lines(Response::Status(status));
    assert_eq!(
        printed.out,
        args(&["device:  present", "active:  no", "profile: none", "calibrated: yes", "error:   no device"])
    );
    assert!(printed.err.is_empty());
}

#[test]
fn ctl_prints_names_ok_and_errors() {
    let names = response_lines(Response::Profiles { names: args(&["default", "mmo"]) });
    assert_eq!(names.out, args(&["default", "mmo"]));
    assert_eq!(response_lines(Response::Success).out, args(&["ok"]));
    let error = response_lines(Response::Error { message: "boom".to_owned() });
    assert!(error.out.is_empty());
    assert_eq!(error.err, args(&["error: boom"]));
    assert_eq!(failure_lines("refused").err, args(&["error: refused", "hint: is trinity-daemon running?"]));
    assert_eq!(toggle_tip().out.len(), 1);
    assert_eq!(usage().err[0], "usage: trinity-ctl <command> [args]");
}
