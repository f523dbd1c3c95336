//! The GUI's state and how it answers each message: how the state changes
//! and which commands the window then carries out (requests to the daemon,
//! clipboard writes, a change of language). Times are milliseconds on a
//! monotonic clock that the window reads.

use vstd::prelude::*;

use crate::capture::{captured_mapping, held_modifiers, is_grid_label, resolve_keycode, resolved_code, written_name, KeyInput, KeyLabel, KeyboardLayout, LayoutView, NamedKey};
use crate::dto::{key_name, parse_key_spec, MappingView, ProfileDto, Request, Response, Status};
use crate::key::{is_first_name_at, is_known_name, known_keys, KeyCode};
use crate::gui::{clone_profile, is_unreachable, with_mapping, without, without_button, DAEMON_UNREACHABLE};
use crate::locale::{is_locale, locales, GuiSettings, PROJECT_URL};
use crate::modifier::{modifier_code, Modifier};
use crate::order::{sort_names, sorted_texts, texts};
use crate::text::{occurs_at, str_eq, trim, trimmed};

verus! {

/// How long an error notice stays shown, in milliseconds.
pub const TOAST_LIFETIME_MS: u64 = 4000;

/// Page displayed in the main scene.
#[derive(Debug, Clone, Copy, PartialEq, Eq, Structural)]
pub enum Route {
    Main,
    Settings,
}

/// An error shown to the user, and when it appeared.
#[derive(Debug, Clone, PartialEq, Eq)]
pub struct Notice {
    pub text: String,
    pub since: u64,
}

/// What the window hands the state: a timer tick, a daemon response, or a
/// user action.
#[derive(Debug, Clone, PartialEq, Eq)]
pub enum Message {
    Tick,
    IpcResult(Response),
    ToggleEnabled(bool),
    SelectProfile(String),
    EditButton(u8),
    ClearButton(u8),
    /// A key pressed, with the modifiers held (Ctrl, Shift, Alt, logo).
    KeyPressed { key: KeyInput, control: bool, shift: bool, alt: bool, logo: bool },
    StartCalibration,
    CancelCalibration,
    NewProfileName(String),
    CreateProfile,
    Refresh,
    ToggleSettings,
    SelectLocale(String),
    CopyProjectUrl,
    CopyShortcut(String),
    RequestDeleteProfile(String),
    ProfileHover(Option<String>),
    ConfirmDeleteProfile,
    CancelDeleteProfile,
}

/// What the window carries out after a message.
#[derive(Debug, Clone, PartialEq, Eq)]
pub enum Command {
    /// Send a request to the daemon; its answer comes back as `IpcResult`.
    Send(Request),
    /// Put a text on the clipboard.
    Copy(String),
    /// Switch the interface to a locale and store the settings.
    ApplyLocale(String),
}

/// One part of a grid cell's label: a key's label, or the name as written
/// when it names no key.
#[derive(Debug, Clone, PartialEq, Eq)]
pub enum LabelPart {
    Key(KeyLabel),
    Name(String),
}

/// Visual parameters of a grid key cell.
#[derive(Debug, Clone, Copy, PartialEq, Eq, Default, Structural)]
pub struct KeyCell {
    pub mapped: bool,
    pub highlighted: bool,
    pub dimmed: bool,
    pub pulse: bool,
    /// Suppresses hover styling while a popup is open.
    pub blocked: bool,
}

/// What the main scene shows.
#[derive(Debug, Clone, Copy, PartialEq, Eq, Structural)]
pub enum Page {
    Settings,
    /// The daemon is not reached (or not yet).
    Disconnected,
    /// Reached, no status yet.
    Connecting,
    Calibration,
    Main,
}

/// The command switching to a profile from a shell.
pub open spec fn shortcut_text(name: Seq<char>) -> Seq<char> {
    "trinity-ctl profile "@ + name
}

/// The command switching to a profile from a shell.
pub fn shortcut_command(name: &str) -> (c: String)
    ensures
        c@ == shortcut_text(name@),
{
    let mut c = String::from_str("trinity-ctl profile ");
    c.append(name);
    c
}

/// A text the settings page shows: a message to translate, or a text as is.
#[derive(Debug, Clone, PartialEq, Eq)]
pub enum Shown {
    Message(&'static str),
    Text(String),
}

/// The diagnostics the settings page lists.
#[derive(Debug, Clone, PartialEq, Eq)]
pub struct Diagnostics {
    pub daemon: &'static str,
    pub device: Shown,
    pub calibration: &'static str,
    pub profile: Shown,
    pub error: Shown,
    pub has_error: bool,
}

/// State of the GUI.
pub struct App {
    pub connected: Option<bool>,
    pub status: Option<Status>,
    pub profiles: Vec<String>,
    pub loaded_profile: Option<ProfileDto>,
    pub editing: Option<u8>,
    pub new_profile: String,
    pub notice: Option<Notice>,
    pub finishing_calibration: bool,
    pub layout: KeyboardLayout,
    pub pulse: bool,
    pub route: Route,
    pub settings: GuiSettings,
    pub confirm_delete: Option<String>,
    pub hovered_profile: Option<String>,
}

/// The text of an optional string.
pub open spec fn opt_text(o: Option<String>) -> Option<Seq<char>> {
    match o {
        Some(s) => Some(s@),
        None => None,
    }
}

/// The active profile the last status named.
pub open spec fn status_profile(s: Option<Status>) -> Option<Seq<char>> {
    match s {
        Some(st) => opt_text(st.profile),
        None => None,
    }
}

/// Whether the last status says a calibration runs.
pub open spec fn calibrating(s: Option<Status>) -> bool {
    s matches Some(st) && st.calibrating
}

/// The requests that refresh the status and the profile list.
pub open spec fn refresh_seq() -> Seq<Command> {
    seq![Command::Send(Request::GetStatus), Command::Send(Request::ListProfiles)]
}

/// Whether a command sends a profile with this content.
pub open spec fn saves(c: Command, p: (Seq<char>, Seq<MappingView>)) -> bool {
    c matches Command::Send(Request::SaveProfile { profile }) && profile@ == p
}

/// The mapping a key captured for a button stands for.
pub open spec fn captured_view(button: u8, control: bool, shift: bool, alt: bool, logo: bool, code: u16) -> MappingView {
    (
        button,
        written_name(code),
        held_modifiers(control, shift, alt, logo).map_values(|x: Modifier| key_name(modifier_code(x))),
    )
}

/// Whether the notice has been shown longer than its lifetime at `now`.
pub open spec fn expired(n: Notice, now: u64) -> bool {
    now - n.since > TOAST_LIFETIME_MS
}

/// Answer to a status: connected, the status kept, the calibration
/// finished once every button is captured (asked once), and everything
/// refreshed when the active profile changed.
pub open spec fn answers_status(a: App, b: App, st: Status, cmds: Seq<Command>) -> bool {
    let finish = st.calibrating && st.captured_count == st.total_buttons && !a.finishing_calibration;
    &&& b == (App {
        connected: Some(true),
        status: Some(st),
        finishing_calibration: st.calibrating && (a.finishing_calibration || finish),
        ..a
    })
    &&& cmds == (if finish {
        seq![Command::Send(Request::FinishCalibration)]
    } else {
        Seq::empty()
    }) + (if status_profile(a.status) != opt_text(st.profile) {
        refresh_seq()
    } else {
        Seq::empty()
    })
}

/// Answer to the profile list: the list kept, and the active profile asked
/// for when it is not the one loaded.
pub open spec fn answers_profiles(a: App, b: App, names: Vec<String>, cmds: Seq<Command>) -> bool {
    &&& b == (App { profiles: names, ..a })
    &&& match status_profile(a.status) {
        Some(active) => if !(a.loaded_profile matches Some(p) && p.name@ == active) {
            cmds.len() == 1 && (cmds[0] matches Command::Send(Request::GetProfile { name }) && name@ == active)
        } else {
            cmds.len() == 0
        },
        None => cmds.len() == 0,
    }
}

/// Answer to a profile: it is loaded, and its name joins the list (kept
/// sorted) when missing.
pub open spec fn answers_profile(a: App, b: App, profile: ProfileDto, cmds: Seq<Command>) -> bool {
    &&& b == (App { profiles: b.profiles, loaded_profile: Some(profile), ..a })
    &&& if texts(a.profiles@).contains(profile.name@) {
        b.profiles == a.profiles
    } else {
        &&& sorted_texts(texts(b.profiles@))
        &&& texts(b.profiles@).to_multiset() == texts(a.profiles@).to_multiset().insert(profile.name@)
    }
    &&& cmds.len() == 0
}

/// Answer to an error: disconnected when the daemon could not be reached,
/// else connected with the message shown from `now`.
pub open spec fn answers_error(a: App, b: App, message: String, now: u64, cmds: Seq<Command>) -> bool {
    &&& if occurs_at(message@, DAEMON_UNREACHABLE@, 0) {
        b == (App { connected: Some(false), ..a })
    } else {
        b == (App { connected: Some(true), notice: Some(Notice { text: message, since: now }), ..a })
    }
    &&& cmds.len() == 0
}

/// Answer to any daemon response.
pub open spec fn answers(a: App, b: App, r: Response, now: u64, cmds: Seq<Command>) -> bool {
    match r {
        Response::Status(st) => answers_status(a, b, st, cmds),
        Response::Profiles { names } => answers_profiles(a, b, names, cmds),
        Response::Profile { profile } => answers_profile(a, b, profile, cmds),
        Response::Success => b == a && cmds == refresh_seq(),
        Response::Error { message } => answers_error(a, b, message, now, cmds),
    }
}

/// A timer tick: the pulse flips, an expired notice goes, and the status
/// is polled unless a key is being captured.
pub open spec fn ticked(a: App, b: App, now: u64, cmds: Seq<Command>) -> bool {
    &&& b == (App {
        pulse: !a.pulse,
        notice: if a.notice matches Some(n) && expired(n, now) {
            None
        } else {
            a.notice
        },
        ..a
    })
    &&& cmds == if a.editing is None {
        seq![Command::Send(Request::GetStatus)]
    } else {
        Seq::<Command>::empty()
    }
}

/// A key captured for the button being edited: Escape stops editing; a key
/// that resolves to a code maps the button in the loaded profile (its
/// previous mapping replaced, the new one last) and saves it; any other
/// key is ignored.
pub open spec fn captured(a: App, b: App, key: KeyInput, control: bool, shift: bool, alt: bool, logo: bool, cmds: Seq<Command>) -> bool {
    match a.editing {
        None => b == a && cmds.len() == 0,
        Some(button) => if key matches KeyInput::Named(NamedKey::Escape) {
            b == (App { editing: None, ..a }) && cmds.len() == 0
        } else {
            match resolved_code(a.layout@, key) {
                None => b == a && cmds.len() == 0,
                Some(code) => match a.loaded_profile {
                    None => b == (App { editing: None, ..a }) && cmds.len() == 0,
                    Some(p) => {
                        let q = (p@.0, without(p@.1, button).push(captured_view(button, control, shift, alt, logo, code)));
                        &&& b == (App { editing: None, loaded_profile: b.loaded_profile, ..a })
                        &&& b.loaded_profile matches Some(n) && n@ == q
                        &&& cmds.len() == 1
                        &&& saves(cmds[0], q)
                    },
                },
            }
        },
    }
}

/// A key press: Escape closes the delete confirmation, else stops editing,
/// else cancels a running calibration; otherwise the key is captured.
pub open spec fn key_pressed(a: App, b: App, key: KeyInput, control: bool, shift: bool, alt: bool, logo: bool, cmds: Seq<Command>) -> bool {
    if (key matches KeyInput::Named(NamedKey::Escape)) && a.confirm_delete is Some {
        b == (App { confirm_delete: None, ..a }) && cmds.len() == 0
    } else if (key matches KeyInput::Named(NamedKey::Escape)) && a.editing is Some {
        b == (App { editing: None, ..a }) && cmds.len() == 0
    } else if (key matches KeyInput::Named(NamedKey::Escape)) && calibrating(a.status) {
        b == (App { finishing_calibration: false, ..a }) && cmds == seq![Command::Send(Request::CancelCalibration)]
    } else {
        captured(a, b, key, control, shift, alt, logo, cmds)
    }
}

/// Clearing a button of the loaded profile: when it had a mapping, the
/// profile without it is loaded and saved; otherwise nothing happens.
pub open spec fn cleared(a: App, b: App, button: u8, cmds: Seq<Command>) -> bool {
    match a.loaded_profile {
        None => b == a && cmds.len() == 0,
        Some(p) => if without(p@.1, button).len() == p@.1.len() {
            b == a && cmds.len() == 0
        } else {
            let q = (p@.0, without(p@.1, button));
            &&& b == (App { loaded_profile: b.loaded_profile, ..a })
            &&& b.loaded_profile matches Some(n) && n@ == q
            &&& cmds.len() == 1
            &&& saves(cmds[0], q)
        },
    }
}

/// Creating a profile from the typed name, trimmed: a blank name does
/// nothing; otherwise the field is emptied, an empty profile is saved and
/// the status and list are refreshed.
pub open spec fn created(a: App, b: App, cmds: Seq<Command>) -> bool {
    if trimmed(a.new_profile@).len() == 0 {
        b == a && cmds.len() == 0
    } else {
        &&& b == (App { new_profile: b.new_profile, ..a })
        &&& b.new_profile@.len() == 0
        &&& cmds.len() == 3
        &&& saves(cmds[0], (trimmed(a.new_profile@), Seq::<MappingView>::empty()))
        &&& cmds[1] == Command::Send(Request::GetStatus)
        &&& cmds[2] == Command::Send(Request::ListProfiles)
    }
}

/// How the state answers a message at `now`.
pub open spec fn responds(a: App, b: App, m: Message, now: u64, cmds: Seq<Command>) -> bool {
    match m {
        Message::Tick => ticked(a, b, now, cmds),
        Message::IpcResult(r) => answers(a, b, r, now, cmds),
        Message::ToggleEnabled(enabled) => b == a && cmds == seq![Command::Send(Request::SetEnabled { enabled })],
        Message::SelectProfile(name) => {
            &&& b == a
            &&& cmds.len() == 2
            &&& cmds[0] == Command::Send(Request::SetProfile { name })
            &&& cmds[1] == Command::Send(Request::GetStatus)
        },
        Message::EditButton(button) => {
            &&& b == if a.loaded_profile is Some {
                App { editing: Some(button), notice: None, ..a }
            } else {
                a
            }
            &&& cmds.len() == 0
        },
        Message::ClearButton(button) => cleared(a, b, button, cmds),
        Message::KeyPressed { key, control, shift, alt, logo } => key_pressed(a, b, key, control, shift, alt, logo, cmds),
        Message::StartCalibration => b == (App { notice: None, ..a }) && cmds == seq![
            Command::Send(Request::BeginCalibration),
        ],
        Message::CancelCalibration => b == (App { finishing_calibration: false, ..a }) && cmds == seq![
            Command::Send(Request::CancelCalibration),
        ],
        Message::NewProfileName(name) => b == (App { new_profile: name, ..a }) && cmds.len() == 0,
        Message::CreateProfile => created(a, b, cmds),
        Message::Refresh => b == a && cmds == refresh_seq(),
        Message::ToggleSettings => {
            &&& b == (App { route: if a.route == Route::Main { Route::Settings } else { Route::Main }, ..a })
            &&& cmds.len() == 0
        },
        Message::SelectLocale(locale) => if locales().contains(locale@) {
            &&& b == (App { settings: b.settings, ..a })
            &&& opt_text(b.settings.locale) == Some(locale@)
            &&& cmds == seq![Command::ApplyLocale(locale)]
        } else {
            b == a && cmds.len() == 0
        },
        Message::CopyProjectUrl => b == a && cmds.len() == 1 && (cmds[0] matches Command::Copy(t) && t@ == PROJECT_URL@),
        Message::CopyShortcut(command) => b == a && cmds == seq![Command::Copy(command)],
        Message::RequestDeleteProfile(name) => b == (App { confirm_delete: Some(name), ..a }) && cmds.len() == 0,
        Message::ProfileHover(name) => b == (App { hovered_profile: name, ..a }) && cmds.len() == 0,
        Message::ConfirmDeleteProfile => match a.confirm_delete {
            None => b == a && cmds.len() == 0,
            Some(name) => {
                &&& b == (App { confirm_delete: None, ..a })
                &&& cmds == seq![
                    Command::Send(Request::DeleteProfile { name }),
                    Command::Send(Request::ListProfiles),
                    Command::Send(Request::GetStatus),
                ]
            },
        },
        Message::CancelDeleteProfile => b == (App { confirm_delete: None, ..a }) && cmds.len() == 0,
    }
}

/// Whether `i` is the first mapping of a button.
pub open spec fn is_first_mapping(ms: Seq<MappingView>, button: u8, i: int) -> bool {
    &&& 0 <= i < ms.len()
    &&& ms[i].0 == button
    &&& forall|j: int| 0 <= j < i ==> ms[j].0 != button
}

/// Whether a label is how the layout shows a code: its character when the
/// layout has one, the grid's short label otherwise.
pub open spec fn shows_code(l: KeyLabel, layout: LayoutView, code: u16) -> bool {
    if layout.1.contains_key(code) {
        l == KeyLabel::Char(layout.1[code])
    } else {
        is_grid_label(l, code)
    }
}

/// Whether a part shows a written key name: the key's label when the name
/// is known, the name itself otherwise.
pub open spec fn shows_name(p: LabelPart, layout: LayoutView, name: Seq<char>) -> bool {
    if is_known_name(name) {
        p matches LabelPart::Key(l) && shows_code(l, layout, parse_key_spec(name)->Ok_0)
    } else {
        p matches LabelPart::Name(x) && x@ == name
    }
}

/// Whether parts show a mapping: its modifiers, then its key.
pub open spec fn shows_mapping(parts: Seq<LabelPart>, layout: LayoutView, m: MappingView) -> bool {
    &&& parts.len() == m.2.len() + 1
    &&& forall|j: int| 0 <= j < m.2.len() ==> shows_name(#[trigger] parts[j], layout, m.2[j])
    &&& shows_name(parts[m.2.len() as int], layout, m.1)
}

/// Whether the loaded profile maps a button.
pub open spec fn maps(loaded: Option<ProfileDto>, button: u8) -> bool {
    loaded matches Some(p) && exists|i: int| 0 <= i < p@.1.len() && p@.1[i].0 == button
}

/// Whether the calibration waits for this button.
pub open spec fn calibrating_next(s: Option<Status>, button: u8) -> bool {
    s matches Some(st) && st.calibrating && st.current_button == Some(button)
}

/// Whether two optional strings hold the same text.
fn same_opt_text(a: &Option<String>, b: &Option<String>) -> (r: bool)
    ensures
        r == (opt_text(*a) == opt_text(*b)),
{
    match (a, b) {
        (Some(x), Some(y)) => str_eq(x.as_str(), y.as_str()),
        (None, None) => true,
        _ => false,
    }
}

/// Whether a list of names holds a name.
fn contains_name(names: &Vec<String>, name: &str) -> (r: bool)
    ensures
        r == texts(names@).contains(name@),
{
    let mut i: usize = 0;
    while i < names.len()
        invariant
            i <= names@.len(),
            forall|j: int| 0 <= j < i ==> names@[j]@ != name@,
        decreases names@.len() - i,
    {
        if str_eq(names[i].as_str(), name) {
            assert(texts(names@)[i as int] == name@);
            return true;
        }
        i = i + 1;
    }
    proof {
        if texts(names@).contains(name@) {
            let j = choose|j: int| 0 <= j < texts(names@).len() && texts(names@)[j] == name@;
            assert(names@[j]@ == name@);
        }
    }
    false
}

impl App {
    /// A fresh state: nothing known of the daemon yet, the main page.
    pub fn new(layout: KeyboardLayout, settings: GuiSettings) -> (app: App)
        ensures
            app.connected is None,
            app.status is None,
            app.profiles@.len() == 0,
            app.loaded_profile is None,
            app.editing is None,
            app.new_profile@.len() == 0,
            app.notice is None,
            !app.finishing_calibration,
            app.layout == layout,
            !app.pulse,
            app.route == Route::Main,
            app.settings == settings,
            app.confirm_delete is None,
            app.hovered_profile is None,
    {
        App {
            connected: None,
            status: None,
            profiles: Vec::new(),
            loaded_profile: None,
            editing: None,
            new_profile: String::new(),
            notice: None,
            finishing_calibration: false,
            layout,
            pulse: false,
            route: Route::Main,
            settings,
            confirm_delete: None,
            hovered_profile: None,
        }
    }

    /// The requests that refresh the status and the profile list.
    pub fn refresh_all(&self) -> (cmds: Vec<Command>)
        ensures
            cmds@ == refresh_seq(),
    {
        let cmds = vec![Command::Send(Request::GetStatus), Command::Send(Request::ListProfiles)];
        assert(cmds@ =~= refresh_seq());
        cmds
    }

    /// Shows an error from `now` on.
    pub fn toast_error(&mut self, text: String, now: u64)
        ensures
            *final(self) == (App { notice: Some(Notice { text, since: now }), ..*old(self) }),
    {
        self.notice = Some(Notice { text, since: now });
    }

    /// Takes a daemon response into the state.
    pub fn handle_response(&mut self, response: Response, now: u64) -> (cmds: Vec<Command>)
        ensures
            answers(*old(self), *final(self), response, now, cmds@),
    {
        match response {
            Response::Status(status) => {
                self.connected = Some(true);
                let changed = !same_opt_text(&self.status_profile_ref(), &status.profile);
                if !status.calibrating {
                    self.finishing_calibration = false;
                }
                let mut cmds: Vec<Command> = Vec::new();
                if status.calibrating && status.captured_count == status.total_buttons && !self.finishing_calibration {
                    self.finishing_calibration = true;
                    cmds.push(Command::Send(Request::FinishCalibration));
                }
                if changed {
                    let ghost before = cmds@;
                    cmds.push(Command::Send(Request::GetStatus));
                    cmds.push(Command::Send(Request::ListProfiles));
                    assert(cmds@ =~= before + refresh_seq());
                } else {
                    assert(cmds@ =~= cmds@ + Seq::<Command>::empty());
                }
                self.status = Some(status);
                cmds
            },
            Response::Profiles { names } => {
                self.profiles = names;
                let mut cmds: Vec<Command> = Vec::new();
                match &self.status {
                    Some(st) => match &st.profile {
                        Some(active) => {
                            let loaded = match &self.loaded_profile {
                                Some(p) => str_eq(p.name.as_str(), active.as_str()),
                                None => false,
                            };
                            if !loaded {
                                cmds.push(Command::Send(Request::GetProfile { name: active.clone() }));
                            }
                        },
                        None => {},
                    },
                    None => {},
                }
                cmds
            },
            Response::Profile { profile } => {
                if !contains_name(&self.profiles, profile.name.as_str()) {
                    let mut names: Vec<String> = Vec::new();
                    std::mem::swap(&mut names, &mut self.profiles);
                    let ghost before = names@;
                    names.push(profile.name.clone());
                    proof {
                        assert(texts(names@) =~= texts(before).push(profile.name@));
                        vstd::seq_lib::to_multiset_build(texts(before), profile.name@);
                    }
                    self.profiles = sort_names(names);
                }
                self.loaded_profile = Some(profile);
                Vec::new()
            },
            Response::Success => self.refresh_all(),
            Response::Error { message } => {
                if is_unreachable(message.as_str()) {
                    self.connected = Some(false);
                } else {
                    self.connected = Some(true);
                    self.toast_error(message, now);
                }
                Vec::new()
            },
        }
    }

    /// Answers a message at `now`.
    pub fn update(&mut self, message: Message, now: u64) -> (cmds: Vec<Command>)
        ensures
            responds(*old(self), *final(self), message, now, cmds@),
    {
        match message {
            Message::Tick => {
                self.pulse = !self.pulse;
                let gone = match &self.notice {
                    Some(n) => now > n.since && now - n.since > TOAST_LIFETIME_MS,
                    None => false,
                };
                if gone {
                    self.notice = None;
                }
                if self.editing.is_none() {
                    let cmds = vec![Command::Send(Request::GetStatus)];
                    assert(cmds@ =~= seq![Command::Send(Request::GetStatus)]);
                    cmds
                } else {
                    Vec::new()
                }
            },
            Message::IpcResult(response) => self.handle_response(response, now),
            Message::ToggleEnabled(enabled) => {
                let cmds = vec![Command::Send(Request::SetEnabled { enabled })];
                assert(cmds@ =~= seq![Command::Send(Request::SetEnabled { enabled })]);
                cmds
            },
            Message::SelectProfile(name) => vec![Command::Send(Request::SetProfile { name }), Command::Send(Request::GetStatus)],
            Message::EditButton(button) => {
                if self.loaded_profile.is_some() {
                    self.editing = Some(button);
                    self.notice = None;
                }
                Vec::new()
            },
            Message::ClearButton(button) => self.clear_button(button),
            Message::KeyPressed { key, control, shift, alt, logo } => {
                let escape = match &key {
                    KeyInput::Named(NamedKey::Escape) => true,
                    _ => false,
                };
                if escape {
                    if self.confirm_delete.is_some() {
                        self.confirm_delete = None;
                        return Vec::new();
                    }
                    if self.editing.is_some() {
                        self.editing = None;
                        return Vec::new();
                    }
                    let running = match &self.status {
                        Some(st) => st.calibrating,
                        None => false,
                    };
                    if running {
                        return self.cancel_calibration();
                    }
                }
                self.capture_key(key, control, shift, alt, logo)
            },
            Message::StartCalibration => {
                self.notice = None;
                let cmds = vec![Command::Send(Request::BeginCalibration)];
                assert(cmds@ =~= seq![Command::Send(Request::BeginCalibration)]);
                cmds
            },
            Message::CancelCalibration => self.cancel_calibration(),
            Message::NewProfileName(name) => {
                self.new_profile = name;
                Vec::new()
            },
            Message::CreateProfile => self.create_profile(),
            Message::Refresh => self.refresh_all(),
            Message::ToggleSettings => {
                self.route = match self.route {
                    Route::Main => Route::Settings,
                    Route::Settings => Route::Main,
                };
                Vec::new()
            },
            Message::SelectLocale(locale) => {
                if is_locale(locale.as_str()) {
                    self.settings = GuiSettings { locale: Some(locale.clone()) };
                    let cmds = vec![Command::ApplyLocale(locale)];
                    assert(cmds@ =~= seq![Command::ApplyLocale(locale)]);
                    cmds
                } else {
                    Vec::new()
                }
            },
            Message::CopyProjectUrl => vec![Command::Copy(String::from_str(PROJECT_URL))],
            Message::CopyShortcut(command) => {
                let cmds = vec![Command::Copy(command)];
                assert(cmds@ =~= seq![Command::Copy(command)]);
                cmds
            },
            Message::RequestDeleteProfile(name) => {
                self.confirm_delete = Some(name);
                Vec::new()
            },
            Message::ProfileHover(name) => {
                self.hovered_profile = name;
                Vec::new()
            },
            Message::ConfirmDeleteProfile => {
                let mut taken: Option<String> = None;
                std::mem::swap(&mut taken, &mut self.confirm_delete);
                match taken {
                    None => Vec::new(),
                    Some(name) => {
                        let cmds = vec![
                            Command::Send(Request::DeleteProfile { name }),
                            Command::Send(Request::ListProfiles),
                            Command::Send(Request::GetStatus),
                        ];
                        assert(cmds@ =~= seq![
                            Command::Send(Request::DeleteProfile { name }),
                            Command::Send(Request::ListProfiles),
                            Command::Send(Request::GetStatus),
                        ]);
                        cmds
                    },
                }
            },
            Message::CancelDeleteProfile => {
                self.confirm_delete = None;
                Vec::new()
            },
        }
    }

    /// Cancels the calibration.
    pub fn cancel_calibration(&mut self) -> (cmds: Vec<Command>)
        ensures
            *final(self) == (App { finishing_calibration: false, ..*old(self) }),
            cmds@ == seq![Command::Send(Request::CancelCalibration)],
    {
        self.finishing_calibration = false;
        let cmds = vec![Command::Send(Request::CancelCalibration)];
        assert(cmds@ =~= seq![Command::Send(Request::CancelCalibration)]);
        cmds
    }

    /// Clears a button of the loaded profile and saves it, when it was mapped.
    pub fn clear_button(&mut self, button: u8) -> (cmds: Vec<Command>)
        ensures
            cleared(*old(self), *final(self), button, cmds@),
    {
        let cleared = match &self.loaded_profile {
            Some(profile) => without_button(profile, button),
            None => None,
        };
        match cleared {
            None => Vec::new(),
            Some(p) => {
                let copy = clone_profile(&p);
                self.loaded_profile = Some(p);
                vec![Command::Send(Request::SaveProfile { profile: copy })]
            },
        }
    }

    /// Creates an empty profile named by the typed text, trimmed.
    pub fn create_profile(&mut self) -> (cmds: Vec<Command>)
        ensures
            created(*old(self), *final(self), cmds@),
    {
        let name = trim(self.new_profile.as_str());
        if name.as_str().unicode_len() == 0 {
            return Vec::new();
        }
        self.new_profile = String::new();
        let profile = ProfileDto { name, buttons: Vec::new() };
        assert(profile@.1 =~= Seq::<MappingView>::empty());
        vec![
            Command::Send(Request::SaveProfile { profile }),
            Command::Send(Request::GetStatus),
            Command::Send(Request::ListProfiles),
        ]
    }

    /// Maps the button being edited to a pressed key, with the modifiers
    /// held, and saves the profile.
    pub fn capture_key(&mut self, key: KeyInput, control: bool, shift: bool, alt: bool, logo: bool) -> (cmds: Vec<Command>)
        ensures
            captured(*old(self), *final(self), key, control, shift, alt, logo, cmds@),
    {
        let button = match self.editing {
            Some(b) => b,
            None => {
                return Vec::new();
            },
        };
        match &key {
            KeyInput::Named(NamedKey::Escape) => {
                self.editing = None;
                return Vec::new();
            },
            _ => {},
        }
        let code = match resolve_keycode(&self.layout, &key) {
            Some(c) => c,
            None => {
                return Vec::new();
            },
        };
        self.editing = None;
        let mapped = match &self.loaded_profile {
            Some(profile) => with_mapping(profile, captured_mapping(button, control, shift, alt, logo, code)),
            None => {
                return Vec::new();
            },
        };
        let copy = clone_profile(&mapped);
        self.loaded_profile = Some(mapped);
        vec![Command::Send(Request::SaveProfile { profile: copy })]
    }

    /// The label of a key on the grid: the layout's character when there
    /// is one, the short label otherwise.
    pub fn key_label(&self, key: KeyCode) -> (r: KeyLabel)
        ensures
            self.layout@.1.contains_key(key@) ==> r == KeyLabel::Char(self.layout@.1[key@]),
            !self.layout@.1.contains_key(key@) ==> is_grid_label(r, key@),
    {
        crate::capture::key_label(&self.layout, key)
    }

    /// The label part of a written key name.
    fn name_part(&self, name: &String) -> (p: LabelPart)
        ensures
            shows_name(p, self.layout@, name@),
    {
        match KeyCode::from_name(name.as_str()) {
            Ok(code) => {
                proof {
                    let i = choose|i: int| is_first_name_at(name@, i) && code@ == known_keys()[i].1;
                    let j = choose|j: int| is_first_name_at(name@, j);
                    if i < j {
                        assert(known_keys()[i].0@ != name@);
                    } else if j < i {
                        assert(known_keys()[j].0@ != name@);
                    }
                }
                LabelPart::Key(self.key_label(code))
            },
            Err(_) => LabelPart::Name(name.clone()),
        }
    }

    /// What the grid cell of a button shows: the parts of its mapping in
    /// the loaded profile (modifiers, then key, to be joined by `+`), or
    /// nothing when it is not mapped.
    pub fn cell_label(&self, number: u8) -> (r: Option<Vec<LabelPart>>)
        ensures
            r is Some <==> maps(self.loaded_profile, number),
            r matches Some(parts) ==> (self.loaded_profile matches Some(p) && exists|i: int|
                is_first_mapping(p@.1, number, i) && shows_mapping(parts@, self.layout@, p@.1[i])),
    {
        let profile = match &self.loaded_profile {
            Some(p) => p,
            None => {
                return None;
            },
        };
        let ghost ms = profile@.1;
        let mut i: usize = 0;
        while i < profile.buttons.len()
            invariant
                self.loaded_profile == Some(*profile),
                ms == profile@.1,
                ms.len() == profile.buttons@.len(),
                i <= ms.len(),
                forall|j: int| 0 <= j < i ==> ms[j].0 != number,
            decreases ms.len() - i,
        {
            let mapping = &profile.buttons[i];
            if mapping.button == number {
                let mut parts: Vec<LabelPart> = Vec::new();
                let mut k: usize = 0;
                while k < mapping.modifiers.len()
                    invariant
                        self.loaded_profile == Some(*profile),
                        ms == profile@.1,
                        i < ms.len(),
                        mapping@ == ms[i as int],
                        k <= mapping.modifiers@.len(),
                        parts@.len() == k,
                        forall|j: int| 0 <= j < k ==> shows_name(#[trigger] parts@[j], self.layout@, mapping.modifiers@[j]@),
                    decreases mapping.modifiers@.len() - k,
                {
                    parts.push(self.name_part(&mapping.modifiers[k]));
                    k = k + 1;
                }
                parts.push(self.name_part(&mapping.key));
                proof {
                    let m = ms[i as int];
                    assert(m == mapping@);
                    assert(m.2.len() == mapping.modifiers@.len());
                    assert forall|j: int| 0 <= j < m.2.len() implies shows_name(#[trigger] parts@[j], self.layout@, m.2[j]) by {
                        assert(m.2[j] == mapping.modifiers@[j]@);
                    }
                    assert(is_first_mapping(ms, number, i as int));
                    assert(shows_mapping(parts@, self.layout@, m));
                    assert(0 <= i < profile@.1.len() && profile@.1[i as int].0 == number);
                    assert(self.loaded_profile matches Some(q) && q == *profile);
                    assert(maps(self.loaded_profile, number));
                }
                return Some(parts);
            }
            i = i + 1;
        }
        None
    }

    /// How the grid cell of a button is drawn.
    pub fn key_cell(&self, number: u8) -> (c: KeyCell)
        ensures
            c.mapped == maps(self.loaded_profile, number),
            c.highlighted == (self.editing == Some(number) || calibrating_next(self.status, number)),
            c.dimmed == (self.editing matches Some(e) && e != number),
            c.pulse == (c.highlighted && self.pulse),
            c.blocked == self.confirm_delete is Some,
    {
        let mapped = self.cell_label(number).is_some();
        let next = match &self.status {
            Some(st) => st.calibrating && st.current_button == Some(number),
            None => false,
        };
        let highlighted = self.editing == Some(number) || next;
        KeyCell {
            mapped,
            highlighted,
            dimmed: match self.editing {
                Some(e) => e != number,
                None => false,
            },
            pulse: highlighted && self.pulse,
            blocked: self.confirm_delete.is_some(),
        }
    }

    /// The diagnostics of the settings page: whether the daemon is reached,
    /// the device, the calibration, the active profile and the last error,
    /// from the last status.
    pub fn diagnostics(&self) -> (d: Diagnostics)
        ensures
            d.daemon@ == if self.connected == Some(true) {
                "settings.connected"@
            } else {
                "settings.disconnected"@
            },
            match self.status {
                Some(st) => (d.device matches Shown::Message(m) && m@ == if st.device_present {
                    "settings.present"@
                } else {
                    "settings.absent"@
                }),
                None => d.device matches Shown::Text(t) && t@ == "\u{2014}"@,
            },
            d.calibration@ == if self.status matches Some(st) && st.calibrated {
                "settings.calibrated"@
            } else {
                "settings.required"@
            },
            match status_profile(self.status) {
                Some(p) => d.profile matches Shown::Text(t) && t@ == p,
                None => d.profile matches Shown::Message(m) && m@ == "settings.none"@,
            },
            match self.status {
                Some(st) => match st.error {
                    Some(e) => d.has_error && (d.error matches Shown::Text(t) && t@ == e@),
                    None => !d.has_error && (d.error matches Shown::Message(m) && m@ == "settings.no_error"@),
                },
                None => !d.has_error && (d.error matches Shown::Message(m) && m@ == "settings.no_error"@),
            },
    {
        let daemon = match self.connected {
            Some(true) => "settings.connected",
            _ => "settings.disconnected",
        };
        let (device, calibration, error, has_error) = match &self.status {
            Some(st) => {
                let device = Shown::Message(if st.device_present { "settings.present" } else { "settings.absent" });
                let calibration = if st.calibrated { "settings.calibrated" } else { "settings.required" };
                match &st.error {
                    Some(e) => (device, calibration, Shown::Text(e.clone()), true),
                    None => (device, calibration, Shown::Message("settings.no_error"), false),
                }
            },
            None => (Shown::Text(String::from_str("\u{2014}")), "settings.required", Shown::Message("settings.no_error"), false),
        };
        let profile = match self.status_profile_ref() {
            Some(p) => Shown::Text(p),
            None => Shown::Message("settings.none"),
        };
        Diagnostics { daemon, device, calibration, profile, error, has_error }
    }

    /// The page the main scene shows.
    pub fn page(&self) -> (p: Page)
        ensures
            p == if self.route == Route::Settings {
                Page::Settings
            } else if self.connected != Some(true) {
                Page::Disconnected
            } else {
                match self.status {
                    None => Page::Connecting,
                    Some(st) => if st.calibrating {
                        Page::Calibration
                    } else {
                        Page::Main
                    },
                }
            },
    {
        if self.route == Route::Settings {
            return Page::Settings;
        }
        match self.connected {
            Some(true) => {},
            _ => {
                return Page::Disconnected;
            },
        }
        match &self.status {
            None => Page::Connecting,
            Some(st) => if st.calibrating {
                Page::Calibration
            } else {
                Page::Main
            },
        }
    }

    /// The profiles the user can manage: all but `default`, which lives in
    /// the profile selector.
    pub fn manageable_profiles(&self) -> (names: Vec<String>)
        ensures
            texts(names@) == texts(self.profiles@).filter(|n: Seq<char>| n != "default"@),
    {
        let mut names: Vec<String> = Vec::new();
        let mut i: usize = 0;
        while i < self.profiles.len()
            invariant
                i <= self.profiles@.len(),
                texts(names@) == texts(self.profiles@).take(i as int).filter(|n: Seq<char>| n != "default"@),
            decreases self.profiles@.len() - i,
        {
            let ghost t = texts(self.profiles@);
            proof {
                assert(t.take(i + 1).drop_last() =~= t.take(i as int));
                assert(t.take(i + 1).last() == self.profiles@[i as int]@);
                reveal_with_fuel(Seq::<_>::filter, 1);
            }
            let ghost before = names@;
            if !str_eq(self.profiles[i].as_str(), "default") {
                names.push(self.profiles[i].clone());
                assert(texts(names@) =~= texts(before).push(self.profiles@[i as int]@));
            }
            i = i + 1;
        }
        assert(texts(self.profiles@).take(i as int) =~= texts(self.profiles@));
        names
    }

    /// The active profile the last status named.
    fn status_profile_ref(&self) -> (r: Option<String>)
        ensures
            opt_text(r) == status_profile(self.status),
    {
        match &self.status {
            Some(st) => match &st.profile {
                Some(p) => Some(p.clone()),
                None => None,
            },
            None => None,
        }
    }
}

} // verus!
