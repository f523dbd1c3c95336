//! GUI-side logic: where the daemon is reached, how a failed exchange is
//! answered, and how the edited profile changes when a button is mapped or
//! cleared.

use vstd::prelude::*;

use crate::config::{join_path, joined};
use crate::dto::{ButtonMappingDto, MappingView, ProfileDto, Response};
use crate::text::{occurs_at, starts_with};

verus! {

/// Prefix of the message of an exchange with the daemon that failed.
pub const DAEMON_UNREACHABLE: &'static str = "daemon unreachable";

/// JSON lines client of the daemon: one request per connection.
#[derive(Debug, Clone, PartialEq, Eq)]
pub struct DaemonClient {
    socket: String,
}

impl DaemonClient {
    /// The socket path.
    pub closed spec fn socket_view(&self) -> Seq<char> {
        self.socket@
    }

    pub fn new(socket: &str) -> (c: DaemonClient)
        ensures
            c.socket_view() == socket@,
    {
        DaemonClient { socket: String::from_str(socket) }
    }

    /// The client of the daemon's default socket in a runtime directory.
    pub fn default_socket(runtime_dir: &str) -> (c: DaemonClient)
        ensures
            c.socket_view() == joined(runtime_dir@, "trinity-mapper.sock"@),
    {
        DaemonClient { socket: join_path(runtime_dir, "trinity-mapper.sock") }
    }

    pub fn socket(&self) -> (s: &str)
        ensures
            s@ == self.socket_view(),
    {
        self.socket.as_str()
    }

    /// The answer to a request: the daemon's response, or an error naming
    /// the failed exchange.
    pub fn response_of(result: Result<Response, String>) -> (r: Response)
        ensures
            result matches Ok(x) ==> r == x,
            result matches Err(e) ==> (r matches Response::Error { message } && message@ == DAEMON_UNREACHABLE@
                + " : "@ + e@),
    {
        match result {
            Ok(response) => response,
            Err(err) => {
                let mut message = String::from_str(DAEMON_UNREACHABLE);
                message.append(" : ");
                message.append(err.as_str());
                Response::Error { message }
            },
        }
    }
}

/// Whether an error message says the daemon could not be reached.
pub fn is_unreachable(message: &str) -> (r: bool)
    ensures
        r == occurs_at(message@, DAEMON_UNREACHABLE@, 0),
{
    starts_with(message, DAEMON_UNREACHABLE)
}

/// The mappings of a profile without those of a button, in order.
pub open spec fn without(ms: Seq<MappingView>, button: u8) -> Seq<MappingView> {
    ms.filter(|m: MappingView| m.0 != button)
}

/// A copy of a mapping.
fn clone_mapping(m: &ButtonMappingDto) -> (r: ButtonMappingDto)
    ensures
        r@ == m@,
{
    let mut modifiers: Vec<String> = Vec::new();
    let mut i: usize = 0;
    while i < m.modifiers.len()
        invariant
            i <= m.modifiers@.len(),
            modifiers@.len() == i,
            forall|j: int| 0 <= j < i ==> (#[trigger] modifiers@[j])@ == m.modifiers@[j]@,
        decreases m.modifiers@.len() - i,
    {
        modifiers.push(m.modifiers[i].clone());
        i = i + 1;
    }
    assert(crate::order::texts(modifiers@) =~= crate::order::texts(m.modifiers@));
    ButtonMappingDto { button: m.button, key: m.key.clone(), modifiers }
}

/// A copy of a profile.
pub fn clone_profile(profile: &ProfileDto) -> (r: ProfileDto)
    ensures
        r@ == profile@,
{
    let mut buttons: Vec<ButtonMappingDto> = Vec::new();
    let mut i: usize = 0;
    while i < profile.buttons.len()
        invariant
            i <= profile.buttons@.len(),
            buttons@.len() == i,
            forall|j: int| 0 <= j < i ==> (#[trigger] buttons@[j])@ == profile.buttons@[j]@,
        decreases profile.buttons@.len() - i,
    {
        buttons.push(clone_mapping(&profile.buttons[i]));
        i = i + 1;
    }
    assert(buttons@.map_values(|m: ButtonMappingDto| m@) =~= profile.buttons@.map_values(
        |m: ButtonMappingDto| m@,
    ));
    ProfileDto { name: profile.name.clone(), buttons }
}

/// The mappings other than those of a button, in order.
fn keep_others(profile: &ProfileDto, button: u8) -> (kept: Vec<ButtonMappingDto>)
    ensures
        kept@.map_values(|m: ButtonMappingDto| m@) == without(profile@.1, button),
{
    let ghost ms = profile@.1;
    let mut kept: Vec<ButtonMappingDto> = Vec::new();
    let mut i: usize = 0;
    while i < profile.buttons.len()
        invariant
            ms == profile@.1,
            ms.len() == profile.buttons@.len(),
            i <= profile.buttons@.len(),
            kept@.map_values(|m: ButtonMappingDto| m@) == without(ms.take(i as int), button),
        decreases profile.buttons@.len() - i,
    {
        proof {
            assert(ms.take(i + 1).drop_last() =~= ms.take(i as int));
            assert(ms.take(i + 1).last() == profile.buttons@[i as int]@);
            reveal_with_fuel(Seq::<_>::filter, 1);
        }
        let ghost before = kept@.map_values(|m: ButtonMappingDto| m@);
        if profile.buttons[i].button != button {
            let copy = clone_mapping(&profile.buttons[i]);
            kept.push(copy);
            assert(kept@.map_values(|m: ButtonMappingDto| m@) =~= before.push(copy@));
        } else {
            assert(kept@.map_values(|m: ButtonMappingDto| m@) =~= before);
        }
        i = i + 1;
    }
    assert(ms.take(i as int) =~= ms);
    kept
}

/// The profile with a button cleared; `None` when the button had no
/// mapping (nothing to save).
pub fn without_button(profile: &ProfileDto, button: u8) -> (r: Option<ProfileDto>)
    ensures
        without(profile@.1, button).len() == profile@.1.len() ==> r is None,
        without(profile@.1, button).len() != profile@.1.len() ==> (r matches Some(p) && p@ == (
            profile@.0,
            without(profile@.1, button),
        )),
{
    let kept = keep_others(profile, button);
    if kept.len() == profile.buttons.len() {
        return None;
    }
    let p = ProfileDto { name: profile.name.clone(), buttons: kept };
    assert(p@.1 =~= without(profile@.1, button));
    Some(p)
}

/// The profile with a button mapped anew: its previous mapping removed,
/// the new one last.
pub fn with_mapping(profile: &ProfileDto, mapping: ButtonMappingDto) -> (p: ProfileDto)
    ensures
        p@ == (profile@.0, without(profile@.1, mapping.button).push(mapping@)),
{
    let mut kept = keep_others(profile, mapping.button);
    let ghost before = kept@.map_values(|m: ButtonMappingDto| m@);
    let ghost added = mapping@;
    kept.push(mapping);
    let p = ProfileDto { name: profile.name.clone(), buttons: kept };
    assert(p@.1 =~= before.push(added));
    p
}

} // verus!
