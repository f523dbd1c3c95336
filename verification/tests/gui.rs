use trinity_mapper::capture::{KeyInput, KeyLabel, KeyboardLayout, NamedKey};
use trinity_mapper::dto::{ButtonMappingDto, ProfileDto, Request, Response, Status};
use trinity_mapper::gui_state::{App, Command, LabelPart, Message, Notice, Page, Route, Shown};
use trinity_mapper::locale::GuiSettings;

fn fresh_app() -> App {
    App::new(KeyboardLayout::new(), GuiSettings { locale: None })
}

fn status(profile: Option<&str>, calibrating: bool, captured: usize) -> Status {
    Status {
        device_present: true,
        enabled: true,
        calibrated: true,
        profile: profile.map(|p| p.to_owned()),
        calibrating,
        current_button: None,
        captured_count: captured,
        total_buttons: 12,
        error: None,
    }
}

fn mapping(button: u8, key: &str, modifiers: &[&str]) -> ButtonMappingDto {
    ButtonMappingDto {
        button,
        key: key.to_owned(),
        modifiers: modifiers.iter().map(|m| (*m).to_owned()).collect(),
    }
}

fn app_with_profile() -> App {
    let mut app = fresh_app();
    app.update(
        Message::IpcResult(Response::Profile {
            profile: ProfileDto {
                name: "mmo".to_owned(),
                buttons: vec![mapping(1, "KEY_1", &[]), mapping(3, "KEY_F", &[])],
            },
        }),
        0,
    );
    app
}

#[test]
fn boot_refreshes_status_and_profiles() {
    let app = fresh_app();
    assert_eq!(
        app.refresh_all(),
        vec![Command::Send(Request::GetStatus), Command::Send(Request::ListProfiles)]
    );
    assert_eq!(app.route, Route::Main);
    assert_eq!(app.connected, None);
}

#[test]
fn tick_polls_unless_editing_and_expires_notices() {
    let mut app = app_with_profile();
    assert_eq!(app.update(Message::Tick, 100), vec![Command::Send(Request::GetStatus)]);
    assert!(app.pulse);
    app.toast_error("boom".to_owned(), 1_000);
    app.update(Message::Tick, 5_000);
    assert_eq!(app.notice, Some(Notice { text: "boom".to_owned(), since: 1_000 }));
    app.update(Message::Tick, 5_001);
    assert_eq!(app.notice, None);
    app.update(Message::EditButton(2), 5_002);
    assert_eq!(app.editing, Some(2));
    assert!(app.update(Message::Tick, 5_003).is_empty());
}

#[test]
fn status_answer_finishes_a_complete_calibration_once() {
    let mut app = fresh_app();
    let cmds = app.update(Message::IpcResult(Response::Status(status(None, true, 12))), 0);
    assert_eq!(cmds, vec![Command::Send(Request::FinishCalibration)]);
    assert!(app.finishing_calibration);
    assert_eq!(app.connected, Some(true));
    let again = app.update(Message::IpcResult(Response::Status(status(None, true, 12))), 1);
    assert!(again.is_empty());
    app.update(Message::IpcResult(Response::Status(status(None, false, 0))), 2);
    assert!(!app.finishing_calibration);
}

#[test]
fn status_answer_refreshes_when_the_active_profile_changes() {
    let mut app = fresh_app();
    let cmds = app.update(Message::IpcResult(Response::Status(status(Some("default"), false, 0))), 0);
    assert_eq!(cmds, vec![Command::Send(Request::GetStatus), Command::Send(Request::ListProfiles)]);
    let same = app.update(Message::IpcResult(Response::Status(status(Some("default"), false, 0))), 1);
    assert!(same.is_empty());
}

#[test]
fn profile_list_asks_for_the_active_profile_when_not_loaded() {
    let mut app = fresh_app();
    app.update(Message::IpcResult(Response::Status(status(Some("mmo"), false, 0))), 0);
    let cmds = app.update(
        Message::IpcResult(Response::Profiles { names: vec!["default".to_owned(), "mmo".to_owned()] }),
        1,
    );
    assert_eq!(cmds, vec![Command::Send(Request::GetProfile { name: "mmo".to_owned() })]);
    assert_eq!(app.profiles, vec!["default".to_owned(), "mmo".to_owned()]);
}

#[test]
fn loaded_profile_joins_the_sorted_list() {
    let mut app = fresh_app();
    app.update(Message::IpcResult(Response::Profiles { names: vec!["b".to_owned(), "d".to_owned()] }), 0);
    app.update(
        Message::IpcResult(Response::Profile { profile: ProfileDto { name: "c".to_owned(), buttons: vec![] } }),
        1,
    );
    assert_eq!(app.profiles, vec!["b".to_owned(), "c".to_owned(), "d".to_owned()]);
    assert_eq!(app.loaded_profile.as_ref().map(|p| p.name.as_str()), Some("c"));
}

#[test]
fn unreachable_daemon_disconnects_and_other_errors_are_shown() {
    let mut app = fresh_app();
    app.update(
        Message::IpcResult(Response::Error { message: "daemon unreachable : no socket".to_owned() }),
        7,
    );
    assert_eq!(app.connected, Some(false));
    assert_eq!(app.notice, None);
    app.update(Message::IpcResult(Response::Error { message: "profile 'x' not found".to_owned() }), 9);
    assert_eq!(app.connected, Some(true));
    assert_eq!(app.notice, Some(Notice { text: "profile 'x' not found".to_owned(), since: 9 }));
}

#[test]
fn capturing_a_key_maps_the_edited_button_and_saves() {
    let mut app = app_with_profile();
    app.update(Message::EditButton(3), 0);
    let cmds = app.update(
        Message::KeyPressed { key: KeyInput::Character("a".to_owned()), control: true, shift: false, alt: false, logo: false },
        1,
    );
    let expected = ProfileDto {
        name: "mmo".to_owned(),
        buttons: vec![mapping(1, "KEY_1", &[]), mapping(3, "KEY_A", &["KEY_LEFTCTRL"])],
    };
    assert_eq!(cmds, vec![Command::Send(Request::SaveProfile { profile: expected.clone() })]);
    assert_eq!(app.loaded_profile, Some(expected));
    assert_eq!(app.editing, None);
}

#[test]
fn escape_closes_confirmation_then_editing_then_calibration() {
    let mut app = app_with_profile();
    let escape = || Message::KeyPressed { key: KeyInput::Named(NamedKey::Escape), control: false, shift: false, alt: false, logo: false };
    app.update(Message::RequestDeleteProfile("mmo".to_owned()), 0);
    app.update(Message::EditButton(4), 0);
    assert!(app.update(escape(), 1).is_empty());
    assert_eq!(app.confirm_delete, None);
    assert_eq!(app.editing, Some(4));
    assert!(app.update(escape(), 2).is_empty());
    assert_eq!(app.editing, None);
    app.update(Message::IpcResult(Response::Status(status(Some("mmo"), true, 3))), 3);
    assert_eq!(app.update(escape(), 4), vec![Command::Send(Request::CancelCalibration)]);
}

#[test]
fn clearing_a_mapped_button_saves_and_an_unmapped_one_does_nothing() {
    let mut app = app_with_profile();
    assert!(app.update(Message::ClearButton(7), 0).is_empty());
    let cmds = app.update(Message::ClearButton(1), 1);
    let expected = ProfileDto { name: "mmo".to_owned(), buttons: vec![mapping(3, "KEY_F", &[])] };
    assert_eq!(cmds, vec![Command::Send(Request::SaveProfile { profile: expected.clone() })]);
    assert_eq!(app.loaded_profile, Some(expected));
}

#[test]
fn creating_a_profile_trims_its_name_and_ignores_blank_ones() {
    let mut app = fresh_app();
    app.update(Message::NewProfileName("   ".to_owned()), 0);
    assert!(app.update(Message::CreateProfile, 1).is_empty());
    app.update(Message::NewProfileName("  fps \t".to_owned()), 2);
    let cmds = app.update(Message::CreateProfile, 3);
    assert_eq!(
        cmds,
        vec![
            Command::Send(Request::SaveProfile { profile: ProfileDto { name: "fps".to_owned(), buttons: vec![] } }),
            Command::Send(Request::GetStatus),
            Command::Send(Request::ListProfiles),
        ]
    );
    assert_eq!(app.new_profile, "");
}

#[test]
fn deleting_a_profile_asks_for_confirmation_first() {
    let mut app = fresh_app();
    assert!(app.update(Message::ConfirmDeleteProfile, 0).is_empty());
    app.update(Message::RequestDeleteProfile("fps".to_owned()), 1);
    let cmds = app.update(Message::ConfirmDeleteProfile, 2);
    assert_eq!(
        cmds,
        vec![
            Command::Send(Request::DeleteProfile { name: "fps".to_owned() }),
            Command::Send(Request::ListProfiles),
            Command::Send(Request::GetStatus),
        ]
    );
    assert_eq!(app.confirm_delete, None);
}

#[test]
fn locale_selection_accepts_only_embedded_locales() {
    let mut app = fresh_app();
    assert!(app.update(Message::SelectLocale("xx".to_owned()), 0).is_empty());
    assert_eq!(app.settings.locale, None);
    assert_eq!(app.update(Message::SelectLocale("fr".to_owned()), 1), vec![Command::ApplyLocale("fr".to_owned())]);
    assert_eq!(app.settings.locale, Some("fr".to_owned()));
}

#[test]
fn settings_page_toggles_and_copies() {
    let mut app = fresh_app();
    app.update(Message::ToggleSettings, 0);
    assert_eq!(app.route, Route::Settings);
    app.update(Message::ToggleSettings, 1);
    assert_eq!(app.route, Route::Main);
    assert_eq!(
        app.update(Message::CopyProjectUrl, 2),
        vec![Command::Copy("https://github.com/4lador/razer-trinity-mapper".to_owned())]
    );
    assert_eq!(
        app.update(Message::SelectProfile("mmo".to_owned()), 3),
        vec![Command::Send(Request::SetProfile { name: "mmo".to_owned() }), Command::Send(Request::GetStatus)]
    );
}

#[test]
fn cell_label_lists_modifiers_then_key() {
    let mut app = fresh_app();
    app.update(
        Message::IpcResult(Response::Profile {
            profile: ProfileDto {
                name: "mmo".to_owned(),
                buttons: vec![mapping(2, "KEY_F", &["KEY_LEFTCTRL"]), mapping(5, "KEY_BOGUS", &[])],
            },
        }),
        0,
    );
    assert_eq!(
        app.cell_label(2),
        Some(vec![LabelPart::Key(KeyLabel::Message("keys.ctrl")), LabelPart::Key(KeyLabel::Text("F".to_owned()))])
    );
    assert_eq!(app.cell_label(5), Some(vec![LabelPart::Name("KEY_BOGUS".to_owned())]));
    assert_eq!(app.cell_label(7), None);
}

#[test]
fn key_cells_follow_editing_and_calibration() {
    let mut app = app_with_profile();
    let cell = app.key_cell(3);
    assert!(cell.mapped && !cell.highlighted && !cell.dimmed && !cell.blocked);
    assert!(!app.key_cell(4).mapped);
    app.update(Message::EditButton(3), 0);
    app.update(Message::Tick, 1);
    let edited = app.key_cell(3);
    assert!(edited.highlighted && edited.pulse && !edited.dimmed);
    assert!(app.key_cell(4).dimmed);
    app.update(Message::RequestDeleteProfile("mmo".to_owned()), 2);
    assert!(app.key_cell(1).blocked);
}

#[test]
fn gui_settings_live_beside_the_profiles() {
    assert_eq!(GuiSettings::path(Some("/home/u/.config")), "/home/u/.config/razer-trinity-mapper/gui.toml");
    assert_eq!(GuiSettings::path(None), "./razer-trinity-mapper/gui.toml");
}

#[test]
fn page_follows_route_connection_and_calibration() {

    let mut app = fresh_app();
    assert_eq!(app.page(), Page::Disconnected);
    app.update(Message::IpcResult(Response::Profiles { names: vec![] }), 0);
    assert_eq!(app.page(), Page::Disconnected);
    app.connected = Some(true);
    assert_eq!(app.page(), Page::Connecting);
    app.update(Message::IpcResult(Response::Status(status(None, true, 0))), 1);
    assert_eq!(app.page(), Page::Calibration);
    app.update(Message::IpcResult(Response::Status(status(None, false, 0))), 2);
    assert_eq!(app.page(), Page::Main);
    app.update(Message::ToggleSettings, 3);
    assert_eq!(app.page(), Page::Settings);
}

#[test]
fn default_profile_is_not_manageable_and_shortcuts_name_profiles() {
    let mut app = fresh_app();
    app.update(
        Message::IpcResult(Response::Profiles { names: vec!["default".to_owned(), "fps".to_owned(), "mmo".to_owned()] }),
        0,
    );
    assert_eq!(app.manageable_profiles(), vec!["fps".to_owned(), "mmo".to_owned()]);
    assert_eq!(trinity_mapper::gui_state::shortcut_command("fps"), "trinity-ctl profile fps");
}

#[test]
fn diagnostics_follow_the_last_status() {

    let mut app = fresh_app();
    let d = app.diagnostics();
    assert_eq!(d.daemon, "settings.disconnected");
    assert_eq!(d.device, Shown::Text("\u{2014}".to_owned()));
    assert_eq!(d.profile, Shown::Message("settings.none"));
    assert!(!d.has_error);
    let mut st = status(Some("mmo"), false, 0);
    st.error = Some("boom".to_owned());
    app.update(Message::IpcResult(Response::Status(st)), 0);
    let d = app.diagnostics();
    assert_eq!(d.daemon, "settings.connected");
    assert_eq!(d.device, Shown::Message("settings.present"));
    assert_eq!(d.calibration, "settings.calibrated");
    assert_eq!(d.profile, Shown::Text("mmo".to_owned()));
    assert_eq!(d.error, Shown::Text("boom".to_owned()));
    assert!(d.has_error);
}
