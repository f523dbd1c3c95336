//! Button to physical code table, produced by guided calibration.

use vstd::prelude::*;

use crate::button::Button;
use crate::error::DomainError;
use crate::node::NodeId;
use crate::slots::{absent, all_some, count_some, empty_slots, lemma_absent, lemma_all_some_count, lemma_take_step, present};

verus! {

/// View of a physical code: the node name and the code.
pub type CodeView = (Seq<char>, u16);

/// Physical code emitted by the firmware on a given node.
#[derive(Debug, PartialEq, Eq, Hash, PartialOrd, Ord)]
pub struct PhysicalCode {
    node: NodeId,
    code: u16,
}

impl View for PhysicalCode {
    type V = CodeView;

    closed spec fn view(&self) -> CodeView {
        (self.node@, self.code)
    }
}

impl PhysicalCode {
    pub fn new(node: NodeId, code: u16) -> (p: PhysicalCode)
        ensures
            p@ == (node@, code),
    {
        PhysicalCode { node, code }
    }

    pub fn node(&self) -> (n: &NodeId)
        ensures
            n@ == self@.0,
    {
        &self.node
    }

    pub fn code(&self) -> (c: u16)
        ensures
            c == self@.1,
    {
        self.code
    }

    /// Whether both name the same code on the same node.
    pub fn same_as(&self, other: &PhysicalCode) -> (r: bool)
        ensures
            r == (self@ == other@),
    {
        self.code == other.code && self.node.same_as(&other.node)
    }
}

impl Clone for PhysicalCode {
    fn clone(&self) -> (r: Self)
        ensures
            r@ == self@,
    {
        PhysicalCode { node: self.node.clone(), code: self.code }
    }
}

/// No physical code is held by two buttons.
pub open spec fn codes_distinct(s: Seq<Option<CodeView>>) -> bool {
    forall|i: int, j: int|
        0 <= i < s.len() && 0 <= j < s.len() && i != j && s[i] is Some ==> s[i] != s[j]
}

/// The button (slot index) holding a physical code, if any.
pub open spec fn owner_of(s: Seq<Option<CodeView>>, code: CodeView, i: int) -> bool {
    0 <= i < s.len() && s[i] == Some(code)
}

/// A calibration is complete exactly when all twelve buttons are recorded
/// and none is missing; recorded and missing buttons make twelve, and a
/// button is missing exactly when it has no code.
pub proof fn lemma_completeness(c: Seq<Option<CodeView>>)
    requires
        c.len() == 12,
    ensures
        all_some(c) <==> count_some(c) == 12,
        all_some(c) <==> absent(c).len() == 0,
        count_some(c) + absent(c).len() == 12,
        forall|b: int| 1 <= b <= 12 ==> (absent(c).contains(b) <==> c[b - 1] is None),
{
    lemma_all_some_count(c);
    lemma_absent(c);
}

/// Button to physical code table, produced by guided calibration.
#[derive(Debug, PartialEq, Eq)]
pub struct Calibration {
    entries: Vec<Option<PhysicalCode>>,
}

impl View for Calibration {
    type V = Seq<Option<CodeView>>;

    /// Slot `i` holds the code of button `i + 1`.
    closed spec fn view(&self) -> Seq<Option<CodeView>> {
        slots_view(self.entries@)
    }
}

spec fn slots_view(v: Seq<Option<PhysicalCode>>) -> Seq<Option<CodeView>> {
    v.map_values(|e: Option<PhysicalCode>| match e {
        Some(p) => Some(p@),
        None => None,
    })
}

impl Calibration {
    #[verifier::type_invariant]
    spec fn well_formed(self) -> bool {
        &&& self.entries@.len() == 12
        &&& codes_distinct(self@)
    }

    /// Twelve slots and no code shared between two buttons.
    pub fn check_well_formed(&self)
        ensures
            self@.len() == 12,
            codes_distinct(self@),
    {
        proof {
            use_type_invariant(self);
        }
    }

    pub fn new() -> (c: Calibration)
        ensures
            c@ == empty_slots::<CodeView>(),
    {
        let mut entries: Vec<Option<PhysicalCode>> = Vec::new();
        let mut i: usize = 0;
        while i < 12
            invariant
                i <= 12,
                entries@.len() == i,
                forall|j: int| 0 <= j < i ==> (#[trigger] entries@[j]) is None,
            decreases 12 - i,
        {
            entries.push(None);
            i = i + 1;
        }
        let c = Calibration { entries };
        assert(c@ =~= empty_slots::<CodeView>());
        c
    }

    /// Records the physical code of a button. Replacing the code of the
    /// same button is allowed; sharing a code between buttons is not.
    pub fn record(&mut self, button: Button, code: PhysicalCode) -> (r: Result<(), DomainError>)
        ensures
            ({
                let b = button@ - 1;
                if exists|i: int| owner_of(old(self)@, code@, i) && i != b {
                    &&& final(self)@ == old(self)@
                    &&& r matches Err(DomainError::PhysicalCodeConflict { node, code: c, first, second }) && {
                        &&& node@ == code@.0
                        &&& c == code@.1
                        &&& second == button@
                        &&& owner_of(old(self)@, code@, first - 1)
                        &&& first != second
                    }
                } else {
                    &&& r is Ok
                    &&& final(self)@ == old(self)@.update(b, Some(code@))
                }
            }),
    {
        proof {
            use_type_invariant(&*self);
        }
        let number = button.number();
        let b = (number - 1) as usize;
        let mut i: usize = 0;
        while i < 12
            invariant
                self.entries@.len() == 12,
                i <= 12,
                b == button@ - 1,
                number == button@,
                forall|j: int| 0 <= j < i && j != b ==> !owner_of(self@, code@, j),
            decreases 12 - i,
        {
            let same = match &self.entries[i] {
                Some(existing) => existing.same_as(&code),
                None => false,
            };
            assert(same == owner_of(self@, code@, i as int));
            if same {
                if i != b {
                    assert(owner_of(old(self)@, code@, i as int) && i != b);
                    return Err(
                        DomainError::PhysicalCodeConflict {
                            node: code.node.to_string(),
                            code: code.code,
                            first: (i + 1) as u8,
                            second: number,
                        },
                    );
                }
            }
            i = i + 1;
        }
        let ghost before = self@;
        let mut entries = self.clone_entries();
        entries.set(b, Some(code));
        proof {
            assert(slots_view(entries@) =~= before.update(b as int, Some(code@)));
            assert forall|x: int, y: int|
                0 <= x < 12 && 0 <= y < 12 && x != y && slots_view(entries@)[x] is Some implies slots_view(entries@)[x] != slots_view(entries@)[y] by {
                if x != b && y != b {
                    assert(before[x] != before[y]);
                } else if x == b {
                    assert(!owner_of(before, code@, y));
                } else {
                    assert(!owner_of(before, code@, x));
                }
            }
        }
        *self = Calibration { entries };
        Ok(())
    }

    pub fn get(&self, button: Button) -> (r: Option<&PhysicalCode>)
        ensures
            r is Some <==> self@[button@ - 1] is Some,
            r matches Some(p) ==> self@[button@ - 1] == Some(p@),
    {
        proof {
            use_type_invariant(self);
        }
        let b = (button.number() - 1) as usize;
        match &self.entries[b] {
            Some(p) => Some(p),
            None => None,
        }
    }

    /// Every one of the 12 buttons has its code.
    pub fn is_complete(&self) -> (r: bool)
        ensures
            r == all_some(self@),
    {
        proof {
            use_type_invariant(self);
        }
        let mut i: usize = 0;
        while i < 12
            invariant
                self@.len() == 12,
                i <= 12,
                forall|j: int| 0 <= j < i ==> (#[trigger] self@[j]) is Some,
            decreases 12 - i,
        {
            if self.entries[i].is_none() {
                assert(self@[i as int] is None);
                return false;
            }
            i = i + 1;
        }
        true
    }

    /// Buttons without a code, in button order.
    pub fn missing_buttons(&self) -> (missing: Vec<Button>)
        ensures
            missing@.map_values(|b: Button| b@ as int) == absent(self@),
    {
        proof {
            use_type_invariant(self);
        }
        let mut missing: Vec<Button> = Vec::new();
        let mut i: usize = 0;
        while i < 12
            invariant
                self@.len() == 12,
                i <= 12,
                missing@.map_values(|b: Button| b@ as int) == absent(self@.take(i as int)),
            decreases 12 - i,
        {
            proof {
                lemma_take_step(self@, i as int);
            }
            if self.entries[i].is_none() {
                missing.push(Button::from_index(i));
            }
            assert(missing@.map_values(|b: Button| b@ as int) =~= absent(self@.take(i + 1)));
            i = i + 1;
        }
        assert(self@.take(12) =~= self@);
        missing
    }

    /// (button, code) pairs, in button order.
    pub fn buttons(&self) -> (pairs: Vec<(Button, PhysicalCode)>)
        ensures
            pairs@.map_values(|e: (Button, PhysicalCode)| (e.0@ as int, e.1@)) == present(self@),
    {
        proof {
            use_type_invariant(self);
        }
        let mut pairs: Vec<(Button, PhysicalCode)> = Vec::new();
        let mut i: usize = 0;
        while i < 12
            invariant
                self@.len() == 12,
                i <= 12,
                pairs@.map_values(|e: (Button, PhysicalCode)| (e.0@ as int, e.1@)) == present(
                    self@.take(i as int),
                ),
            decreases 12 - i,
        {
            proof {
                lemma_take_step(self@, i as int);
            }
            match &self.entries[i] {
                Some(p) => {
                    pairs.push((Button::from_index(i), p.clone()));
                },
                None => {},
            }
            assert(pairs@.map_values(|e: (Button, PhysicalCode)| (e.0@ as int, e.1@)) =~= present(
                self@.take(i + 1),
            ));
            i = i + 1;
        }
        assert(self@.take(12) =~= self@);
        pairs
    }

    /// Number of buttons with a code.
    pub fn len(&self) -> (n: usize)
        ensures
            n == count_some(self@),
    {
        proof {
            use_type_invariant(self);
        }
        let mut n: usize = 0;
        let mut i: usize = 0;
        while i < 12
            invariant
                self@.len() == 12,
                i <= 12,
                n == count_some(self@.take(i as int)),
                n <= i,
            decreases 12 - i,
        {
            proof {
                lemma_take_step(self@, i as int);
            }
            if self.entries[i].is_some() {
                n = n + 1;
            }
            i = i + 1;
        }
        assert(self@.take(12) =~= self@);
        n
    }

    pub fn is_empty(&self) -> (r: bool)
        ensures
            r == (count_some(self@) == 0),
    {
        self.len() == 0
    }
}

impl Default for Calibration {
    fn default() -> (c: Calibration)
        ensures
            c@ == empty_slots::<CodeView>(),
    {
        Calibration::new()
    }
}

impl Calibration {
    fn clone_entries(&self) -> (entries: Vec<Option<PhysicalCode>>)
        ensures
            entries@.len() == 12,
            slots_view(entries@) == self@,
    {
        proof {
            use_type_invariant(self);
        }
        let mut entries: Vec<Option<PhysicalCode>> = Vec::new();
        let mut i: usize = 0;
        while i < 12
            invariant
                self.entries@.len() == 12,
                i <= 12,
                entries@.len() == i,
                forall|j: int|
                    0 <= j < i ==> match #[trigger] entries@[j] {
                        Some(a) => self@[j] == Some(a@),
                        None => self@[j] is None,
                    },
            decreases 12 - i,
        {
            match &self.entries[i] {
                Some(p) => entries.push(Some(p.clone())),
                None => entries.push(None),
            }
            i = i + 1;
        }
        assert(slots_view(entries@) =~= self@);
        entries
    }
}

impl Clone for Calibration {
    fn clone(&self) -> (c: Self)
        ensures
            c@ == self@,
    {
        proof {
            use_type_invariant(self);
        }
        let entries = self.clone_entries();
        Calibration { entries }
    }
}

} // verus!
