//! Guided calibration sessions.

use vstd::prelude::*;

use crate::button::Button;
use crate::calibration::{owner_of, Calibration, CodeView, PhysicalCode};
use crate::error::{AppError, DomainError};
use crate::ports::clone_codes;
use crate::event::{is_press, EventView, InputEvent, BTN_LEFT, BTN_MIDDLE, BTN_RIGHT};
use crate::slots::empty_slots;

verus! {

/// View of a session: the codes captured so far (slot per button), how
/// many buttons are captured, and the ignored codes.
pub type SessionView = (Seq<Option<CodeView>>, int, Seq<u16>);

/// Views of a batch of events.
pub open spec fn event_views(events: Seq<InputEvent>) -> Seq<EventView> {
    events.map_values(|e: InputEvent| e@)
}

/// A press whose code is not ignored.
pub open spec fn is_capturable(ignored: Seq<u16>, e: EventView) -> bool {
    is_press(e) && !ignored.contains(e.2)
}

/// The first capturable press of its code in the batch.
pub open spec fn is_candidate(ignored: Seq<u16>, events: Seq<EventView>, i: int) -> bool {
    &&& 0 <= i < events.len()
    &&& is_capturable(ignored, events[i])
    &&& forall|j: int| 0 <= j < i && is_capturable(ignored, #[trigger] events[j]) ==> events[j].2 != events[i].2
}

/// The physical code of an event.
pub open spec fn code_of(e: EventView) -> CodeView {
    (e.0, e.2)
}

/// No button other than slot `current` holds the code.
pub open spec fn is_free(captured: Seq<Option<CodeView>>, current: int, p: CodeView) -> bool {
    forall|j: int| owner_of(captured, p, j) ==> j == current
}

/// Event `i` is the one the batch captures: the first candidate whose code is free.
pub open spec fn captures_at(s: SessionView, events: Seq<EventView>, i: int) -> bool {
    &&& is_candidate(s.2, events, i)
    &&& is_free(s.0, s.1, code_of(events[i]))
    &&& forall|j: int| 0 <= j < i && is_candidate(s.2, events, j) ==> !is_free(s.0, s.1, code_of(events[j]))
}

/// Event `i` is the last candidate of the batch.
pub open spec fn last_candidate_at(s: SessionView, events: Seq<EventView>, i: int) -> bool {
    &&& is_candidate(s.2, events, i)
    &&& forall|j: int| i < j < events.len() ==> !is_candidate(s.2, events, j)
}

/// What a batch does to a session: the new session, how many buttons it
/// captured (at most one), and whether it succeeded.
pub open spec fn feed_outcome(s: SessionView, evs: Seq<EventView>) -> (SessionView, int, bool) {
    if s.1 < 12 && exists|i: int| captures_at(s, evs, i) {
        let i = choose|i: int| captures_at(s, evs, i);
        ((s.0.update(s.1, Some(code_of(evs[i]))), s.1 + 1, s.2), 1, true)
    } else if s.1 < 12 && exists|i: int| last_candidate_at(s, evs, i) {
        (s, 0, false)
    } else {
        (s, 0, true)
    }
}

/// Codes always ignored during calibration: the three main mouse buttons.
pub open spec fn default_ignored() -> Seq<u16> {
    seq![BTN_LEFT, BTN_RIGHT, BTN_MIDDLE]
}

/// Guided calibration session: buttons are captured in order 1 to 12;
/// every non-ignored key press captures the current button.
pub struct CalibrationSession {
    captured: Calibration,
    next: u8,
    ignored: Vec<u16>,
}

impl View for CalibrationSession {
    type V = SessionView;

    closed spec fn view(&self) -> SessionView {
        (self.captured@, self.next as int, self.ignored@)
    }
}

/// Buttons 1..=next are captured, the others are not.
pub open spec fn captured_in_order(captured: Seq<Option<CodeView>>, next: int) -> bool {
    &&& 0 <= next <= 12
    &&& captured.len() == 12
    &&& forall|i: int| 0 <= i < 12 ==> ((#[trigger] captured[i]) is Some <==> i < next)
}

impl CalibrationSession {
    #[verifier::type_invariant]
    spec fn in_order(self) -> bool {
        captured_in_order(self.captured@, self.next as int)
    }

    /// Buttons are captured in order: exactly the first `captured_count` ones.
    pub fn check_in_order(&self)
        ensures
            captured_in_order(self@.0, self@.1),
    {
        proof {
            use_type_invariant(self);
        }
    }

    /// View of a fresh session.
    pub open spec fn initial_view() -> SessionView {
        (empty_slots::<CodeView>(), 0int, default_ignored())
    }

    pub fn new() -> (s: CalibrationSession)
        ensures
            s@ == Self::initial_view(),
    {
        let s = Self::with_extra_ignored(&[]);
        assert(default_ignored() + Seq::<u16>::empty() =~= default_ignored());
        s
    }

    /// Additional codes to ignore (besides mouse buttons).
    pub fn with_extra_ignored(extra: &[u16]) -> (s: CalibrationSession)
        ensures
            s@ == (empty_slots::<CodeView>(), 0int, default_ignored() + extra@),
    {
        let mut ignored: Vec<u16> = vec![BTN_LEFT, BTN_RIGHT, BTN_MIDDLE];
        let mut i: usize = 0;
        while i < extra.len()
            invariant
                i <= extra@.len(),
                ignored@ == default_ignored() + extra@.take(i as int),
            decreases extra@.len() - i,
        {
            ignored.push(extra[i]);
            assert(default_ignored() + extra@.take(i + 1) =~= (default_ignored() + extra@.take(i as int)).push(extra@[i as int]));
            i = i + 1;
        }
        assert(extra@.take(i as int) =~= extra@);
        CalibrationSession { captured: Calibration::new(), next: 0, ignored }
    }

    /// The button expected next, if any remains.
    pub fn current_button(&self) -> (b: Option<Button>)
        ensures
            b is Some <==> self@.1 < 12,
            b matches Some(b) ==> b@ == self@.1 + 1,
    {
        proof {
            use_type_invariant(self);
        }
        if self.next < 12 {
            Some(Button::from_index(self.next as usize))
        } else {
            None
        }
    }

    pub fn captured_count(&self) -> (n: usize)
        ensures
            n == self@.1,
    {
        self.next as usize
    }

    pub fn total_buttons(&self) -> (n: usize)
        ensures
            n == 12,
    {
        12
    }

    pub fn is_complete(&self) -> (r: bool)
        ensures
            r == (self@.1 == 12),
    {
        proof {
            use_type_invariant(self);
        }
        self.next == 12
    }

    /// Buttons still to capture, in order.
    pub fn remaining_buttons(&self) -> (remaining: Vec<Button>)
        ensures
            remaining@.len() == 12 - self@.1,
            forall|i: int| 0 <= i < remaining@.len() ==> (#[trigger] remaining@[i])@ == self@.1 + 1 + i,
    {
        proof {
            use_type_invariant(self);
        }
        let mut remaining: Vec<Button> = Vec::new();
        let mut i: usize = self.next as usize;
        while i < 12
            invariant
                self.next <= i <= 12,
                remaining@.len() == i - self.next,
                forall|j: int| 0 <= j < remaining@.len() ==> (#[trigger] remaining@[j])@ == self.next + 1 + j,
            decreases 12 - i,
        {
            remaining.push(Button::from_index(i));
            i = i + 1;
        }
        remaining
    }

    /// Feeds a single event; returns the captured button, if any.
    pub fn feed(&mut self, event: &InputEvent) -> (r: Result<Option<Button>, AppError>)
        ensures
            ({
                let events = seq![event@];
                let s = old(self)@;
                if s.1 < 12 && exists|i: int| captures_at(s, events, i) {
                    &&& r matches Ok(Some(b)) && b@ == s.1 + 1
                    &&& final(self)@ == (s.0.update(s.1, Some(code_of(event@))), s.1 + 1, s.2)
                } else if s.1 < 12 && is_candidate(s.2, events, 0) {
                    &&& r matches Err(AppError::Domain(DomainError::PhysicalCodeConflict { node, code, first, second }))
                    &&& node@ == event@.0 && code == event@.2 && second == s.1 + 1
                    &&& owner_of(s.0, code_of(event@), first - 1)
                    &&& final(self)@ == s
                } else {
                    r matches Ok(None) && final(self)@ == s
                }
            }),
    {
        let events = vec![event.clone()];
        let ghost views = seq![event@];
        assert(event_views(events@) =~= views);
        let mut captured = self.feed_batch(events.as_slice())?;
        proof {
            if exists|i: int| captures_at(old(self)@, views, i) {
                let i = choose|i: int| captures_at(old(self)@, views, i);
                assert(i == 0);
            } else if old(self)@.1 < 12 && is_candidate(old(self)@.2, views, 0) {
                assert(last_candidate_at(old(self)@, views, 0));
            }
        }
        match captured.pop() {
            Some((button, _)) => Ok(Some(button)),
            None => Ok(None),
        }
    }

    /// Processes a batch of events atomically.
    ///
    /// A batch maps to a single human gesture: at most one capture per
    /// batch (the first non-conflicting code fills the expected button,
    /// remaining codes are swallowed). The firmware may emit several codes
    /// for a single press, including a code already owned by another
    /// button, tolerated within the batch. The same code reappearing in a
    /// later batch is still an error (a true button-to-button collision).
    pub fn feed_batch(&mut self, events: &[InputEvent]) -> (r: Result<Vec<(Button, u16)>, AppError>)
        ensures
            final(self)@ == feed_outcome(old(self)@, event_views(events@)).0,
            r is Ok <==> feed_outcome(old(self)@, event_views(events@)).2,
            r matches Ok(c) ==> c@.len() == feed_outcome(old(self)@, event_views(events@)).1,
            ({
                let evs = event_views(events@);
                let s = old(self)@;
                if s.1 < 12 && exists|i: int| captures_at(s, evs, i) {
                    let i = choose|i: int| captures_at(s, evs, i);
                    &&& r matches Ok(c) && c@.len() == 1 && c@[0].0@ == s.1 + 1 && c@[0].1 == evs[i].2
                    &&& final(self)@ == (s.0.update(s.1, Some(code_of(evs[i]))), s.1 + 1, s.2)
                } else if s.1 < 12 && exists|i: int| last_candidate_at(s, evs, i) {
                    let i = choose|i: int| last_candidate_at(s, evs, i);
                    &&& r matches Err(AppError::Domain(DomainError::PhysicalCodeConflict { node, code, first, second }))
                    &&& node@ == evs[i].0 && code == evs[i].2 && second == s.1 + 1
                    &&& owner_of(s.0, code_of(evs[i]), first - 1)
                    &&& final(self)@ == s
                } else {
                    r matches Ok(c) && c@.len() == 0 && final(self)@ == s
                }
            }),
    {
        proof {
            use_type_invariant(&*self);
        }
        let ghost evs = event_views(events@);
        let ghost s = self@;
        if self.next >= 12 {
            return Ok(Vec::new());
        }
        let button = Button::from_index(self.next as usize);
        let current = self.next as usize;
        let mut seen: Vec<u16> = Vec::new();
        let mut conflict: Option<(usize, DomainError)> = None;
        let mut i: usize = 0;
        while i < events.len()
            invariant
                s == self@,
                s == old(self)@,
                evs == event_views(events@),
                captured_in_order(self@.0, self@.1),
                current == self@.1,
                current < 12,
                button@ == current + 1,
                i <= events@.len(),
                forall|x: u16| seen@.contains(x) <==> exists|j: int| 0 <= j < i && is_capturable(s.2, #[trigger] evs[j]) && evs[j].2 == x,
                forall|j: int| 0 <= j < i && is_candidate(s.2, evs, j) ==> !is_free(s.0, s.1, code_of(evs[j])),
                match conflict {
                    Some((k, err)) => {
                        &&& is_candidate(s.2, evs, k as int)
                        &&& k < i
                        &&& forall|j: int| k < j < i ==> !is_candidate(s.2, evs, j)
                        &&& err matches DomainError::PhysicalCodeConflict { node, code, first, second } && {
                            &&& node@ == evs[k as int].0 && code == evs[k as int].2 && second == s.1 + 1
                            &&& owner_of(s.0, code_of(evs[k as int]), first - 1)
                        }
                    },
                    None => forall|j: int| 0 <= j < i ==> !is_candidate(s.2, evs, j),
                },
            decreases events@.len() - i,
        {
            let event = &events[i];
            assert(evs[i as int] == event@);
            let pressed = event.is_key_press();
            let ignored = contains_code(&self.ignored, event.code);
            if pressed && !ignored {
                let fresh = !contains_code(&seen, event.code);
                if fresh {
                    proof {
                        assert(is_candidate(s.2, evs, i as int)) by {
                            assert forall|j: int| 0 <= j < i && is_capturable(s.2, #[trigger] evs[j]) implies evs[j].2 != evs[i as int].2 by {
                                if evs[j].2 == evs[i as int].2 {
                                    assert(seen@.contains(evs[j].2));
                                }
                            }
                        }
                    }
                    let physical = PhysicalCode::new(event.node.clone(), event.code);
                    let mut attempt = self.captured.clone();
                    match attempt.record(button, physical) {
                        Ok(()) => {
                            let ignored_codes = clone_codes(&self.ignored);
                            proof {
                                assert(is_free(s.0, s.1, code_of(evs[i as int]))) by {
                                    assert forall|j: int| owner_of(s.0, code_of(evs[i as int]), j) implies j == s.1 by {}
                                }
                                assert(captures_at(s, evs, i as int));
                                let c = choose|c: int| captures_at(s, evs, c);
                                if c < i {
                                    assert(!is_free(s.0, s.1, code_of(evs[c])));
                                } else if c > i {
                                    assert(is_candidate(s.2, evs, i as int));
                                }
                                assert(c == i);
                                assert(attempt@ == s.0.update(s.1, Some(code_of(evs[i as int]))));
                                assert(captured_in_order(attempt@, s.1 + 1));
                            }
                            *self = CalibrationSession { captured: attempt, next: self.next + 1, ignored: ignored_codes };
                            let mut captured: Vec<(Button, u16)> = Vec::new();
                            captured.push((button, event.code));
                            return Ok(captured);
                        },
                        Err(err) => {
                            proof {
                                assert(!is_free(s.0, s.1, code_of(evs[i as int])));
                            }
                            conflict = Some((i, err));
                        },
                    }
                }
                let ghost before_seen = seen@;
                seen.push(event.code);
                proof {
                    assert forall|x: u16| seen@.contains(x) <==> exists|j: int| 0 <= j < i + 1 && is_capturable(s.2, #[trigger] evs[j]) && evs[j].2 == x by {
                        if seen@.contains(x) {
                            let a = choose|a: int| 0 <= a < seen@.len() && seen@[a] == x;
                            if a < before_seen.len() {
                                assert(before_seen.contains(x));
                            } else {
                                assert(is_capturable(s.2, evs[i as int]));
                            }
                        }
                        if exists|j: int| 0 <= j < i + 1 && is_capturable(s.2, #[trigger] evs[j]) && evs[j].2 == x {
                            let j = choose|j: int| 0 <= j < i + 1 && is_capturable(s.2, #[trigger] evs[j]) && evs[j].2 == x;
                            if j < i {
                                assert(before_seen.contains(x));
                                let a = choose|a: int| 0 <= a < before_seen.len() && before_seen[a] == x;
                                assert(seen@[a] == x);
                            } else {
                                assert(seen@[before_seen.len() as int] == x);
                            }
                        }
                    }
                }
            } else {
                proof {
                    assert(!is_candidate(s.2, evs, i as int));
                    assert forall|x: u16| seen@.contains(x) <==> exists|j: int| 0 <= j < i + 1 && is_capturable(s.2, #[trigger] evs[j]) && evs[j].2 == x by {
                        if exists|j: int| 0 <= j < i + 1 && is_capturable(s.2, #[trigger] evs[j]) && evs[j].2 == x {
                            let j = choose|j: int| 0 <= j < i + 1 && is_capturable(s.2, #[trigger] evs[j]) && evs[j].2 == x;
                            assert(j < i);
                        }
                    }
                }
            }
            i = i + 1;
        }
        proof {
            if exists|c: int| captures_at(s, evs, c) {
                let c = choose|c: int| captures_at(s, evs, c);
                assert(!is_free(s.0, s.1, code_of(evs[c])));
            }
        }
        match conflict {
            Some((k, err)) => {
                proof {
                    assert(last_candidate_at(s, evs, k as int));
                    let c = choose|c: int| last_candidate_at(s, evs, c);
                    if c < k {
                        assert(!is_candidate(s.2, evs, k as int));
                    } else if c > k {
                        assert(!is_candidate(s.2, evs, c));
                    }
                }
                Err(AppError::Domain(err))
            },
            None => {
                proof {
                    if exists|c: int| last_candidate_at(s, evs, c) {
                        let c = choose|c: int| last_candidate_at(s, evs, c);
                        assert(!is_candidate(s.2, evs, c));
                    }
                }
                Ok(Vec::new())
            },
        }
    }

    /// Partial calibration being built.
    pub fn captured(&self) -> (c: &Calibration)
        ensures
            c@ == self@.0,
    {
        &self.captured
    }

    /// Ends the session; the calibration must be complete.
    pub fn finish(self) -> (r: Result<Calibration, AppError>)
        ensures
            self@.1 == 12 ==> (r matches Ok(c) && c@ == self@.0),
            self@.1 < 12 ==> (r matches Err(AppError::Domain(DomainError::IncompleteCalibration { missing }))
                && missing@.len() == 12 - self@.1 && forall|i: int|
                0 <= i < missing@.len() ==> #[trigger] missing@[i] == self@.1 + 1 + i),
    {
        proof {
            use_type_invariant(&self);
        }
        if self.is_complete() {
            Ok(self.captured)
        } else {
            let remaining = self.remaining_buttons();
            let mut missing: Vec<u8> = Vec::new();
            let mut k: usize = 0;
            while k < remaining.len()
                invariant
                    k <= remaining@.len(),
                    missing@.len() == k,
                    forall|j: int| 0 <= j < k ==> #[trigger] missing@[j] == remaining@[j]@,
                decreases remaining@.len() - k,
            {
                missing.push(remaining[k].number());
                k = k + 1;
            }
            Err(AppError::Domain(DomainError::IncompleteCalibration { missing }))
        }
    }
}

/// Whether `code` is in `codes`.
pub fn contains_code(codes: &Vec<u16>, code: u16) -> (r: bool)
    ensures
        r == codes@.contains(code),
{
    let mut i: usize = 0;
    while i < codes.len()
        invariant
            i <= codes@.len(),
            forall|j: int| 0 <= j < i ==> codes@[j] != code,
        decreases codes@.len() - i,
    {
        if codes[i] == code {
            return true;
        }
        i = i + 1;
    }
    false
}

impl Default for CalibrationSession {
    fn default() -> (s: CalibrationSession)
        ensures
            s@ == (empty_slots::<CodeView>(), 0int, default_ignored()),
    {
        CalibrationSession::new()
    }
}

} // verus!
