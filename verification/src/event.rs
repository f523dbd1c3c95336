//! Raw input events and the actions the engine injects.

use vstd::prelude::*;

use crate::key::KeyCode;
use crate::node::NodeId;

verus! {

pub const EV_SYN: u16 = 0x00;

pub const EV_KEY: u16 = 0x01;

pub const EV_REL: u16 = 0x02;

pub const EV_ABS: u16 = 0x03;

pub const EV_MSC: u16 = 0x04;

pub const KEY_RELEASE: i32 = 0;

pub const KEY_PRESS: i32 = 1;

pub const KEY_REPEAT: i32 = 2;

pub const BTN_LEFT: u16 = 0x110;

pub const BTN_RIGHT: u16 = 0x111;

pub const BTN_MIDDLE: u16 = 0x112;

pub const BTN_SIDE: u16 = 0x113;

pub const BTN_EXTRA: u16 = 0x114;

/// View of an event: node name, type, code and value.
pub type EventView = (Seq<char>, u16, u16, i32);

/// Raw event read from a grabbed input node.
#[derive(Debug, PartialEq, Eq)]
pub struct InputEvent {
    pub node: NodeId,
    pub event_type: u16,
    pub code: u16,
    pub value: i32,
}

impl View for InputEvent {
    type V = EventView;

    open spec fn view(&self) -> EventView {
        (self.node@, self.event_type, self.code, self.value)
    }
}

/// A key press: a key event with the press value.
pub open spec fn is_press(e: EventView) -> bool {
    e.1 == EV_KEY && e.3 == KEY_PRESS
}

impl InputEvent {
    /// A key event.
    pub fn key(node: NodeId, code: u16, value: i32) -> (e: InputEvent)
        ensures
            e@ == (node@, EV_KEY, code, value),
    {
        InputEvent { node, event_type: EV_KEY, code, value }
    }

    pub fn is_key(&self) -> (r: bool)
        ensures
            r == (self.event_type == EV_KEY),
    {
        self.event_type == EV_KEY
    }

    pub fn is_key_press(&self) -> (r: bool)
        ensures
            r == is_press(self@),
    {
        self.is_key() && self.value == KEY_PRESS
    }

    pub fn is_key_release(&self) -> (r: bool)
        ensures
            r == (self.event_type == EV_KEY && self.value == KEY_RELEASE),
    {
        self.is_key() && self.value == KEY_RELEASE
    }

    pub fn is_key_repeat(&self) -> (r: bool)
        ensures
            r == (self.event_type == EV_KEY && self.value == KEY_REPEAT),
    {
        self.is_key() && self.value == KEY_REPEAT
    }
}

impl Clone for InputEvent {
    fn clone(&self) -> (e: Self)
        ensures
            e@ == self@,
    {
        InputEvent {
            node: self.node.clone(),
            event_type: self.event_type,
            code: self.code,
            value: self.value,
        }
    }
}

/// Translator output: passthrough or key injection.
#[derive(Debug, Clone, Copy, PartialEq, Eq, Structural)]
pub enum Action {
    Forward { event_type: u16, code: u16, value: i32 },
    Key { key: KeyCode, pressed: bool },
}

/// The passthrough of an event.
pub open spec fn forward_of(e: EventView) -> Action {
    Action::Forward { event_type: e.1, code: e.2, value: e.3 }
}

/// Passes an event through unchanged.
pub fn forwarded(event: &InputEvent) -> (a: Action)
    ensures
        a == forward_of(event@),
{
    Action::Forward { event_type: event.event_type, code: event.code, value: event.value }
}

} // verus!
