//! Side buttons of the 12-button plate.

use vstd::prelude::*;

use crate::error::DomainError;

verus! {

/// Side button of the 12-button plate, numbered 1 to 12.
#[derive(Debug, Clone, Copy, PartialEq, Eq, Structural, Hash, PartialOrd, Ord)]
pub struct Button(u8);

impl View for Button {
    type V = u8;

    closed spec fn view(&self) -> u8 {
        self.0
    }
}

/// Number of side buttons.
pub const BUTTON_COUNT: usize = 12;

impl Button {
    pub const MIN: u8 = 1;

    pub const MAX: u8 = 12;

    #[verifier::type_invariant]
    spec fn in_range(self) -> bool {
        1 <= self.0 <= 12
    }

    pub fn new(number: u8) -> (r: Result<Button, DomainError>)
        ensures
            r is Ok <==> 1 <= number <= 12,
            r matches Ok(b) ==> b@ == number,
            r matches Err(e) ==> e == DomainError::InvalidButton(number),
    {
        if number >= Self::MIN && number <= Self::MAX {
            Ok(Button(number))
        } else {
            Err(DomainError::InvalidButton(number))
        }
    }

    pub fn number(self) -> (n: u8)
        ensures
            n == self@,
            1 <= n <= 12,
    {
        proof {
            use_type_invariant(&self);
        }
        self.0
    }

    /// Button from a zero-based plate index.
    pub fn from_index(index: usize) -> (b: Button)
        requires
            index < 12,
        ensures
            b@ == index + 1,
    {
        Button((index + 1) as u8)
    }

    /// The 12 side buttons, in order.
    pub fn all() -> (buttons: Vec<Button>)
        ensures
            buttons@.len() == 12,
            forall|i: int| 0 <= i < 12 ==> (#[trigger] buttons@[i])@ == i + 1,
    {
        let mut buttons: Vec<Button> = Vec::new();
        let mut i: usize = 0;
        while i < 12
            invariant
                i <= 12,
                buttons@.len() == i,
                forall|j: int| 0 <= j < i ==> (#[trigger] buttons@[j])@ == j + 1,
            decreases 12 - i,
        {
            buttons.push(Button::from_index(i));
            i = i + 1;
        }
        buttons
    }

    /// Two buttons with the same number are the same button.
    pub proof fn lemma_view_injective(a: Button, b: Button)
        ensures
            a@ == b@ ==> a == b,
    {
    }
}

} // verus!
