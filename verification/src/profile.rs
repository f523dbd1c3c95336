//! Remapping profiles: a name and the key combination of each mapped button.

use vstd::prelude::*;

use crate::button::Button;
use crate::combo::KeyCombination;
use crate::error::DomainError;
use crate::slots::{count_some, empty_slots, lemma_take_step, present};
use crate::text::{is_blank, str_is_blank};

verus! {

/// View of a key combination: its modifiers (canonical order) and its key.
pub type ComboView = (Seq<crate::modifier::Modifier>, u16);

/// View of a profile: its name and one optional combination per button.
pub type ProfileView = (Seq<char>, Seq<Option<ComboView>>);

spec fn mappings_view(v: Seq<Option<KeyCombination>>) -> Seq<Option<ComboView>> {
    v.map_values(|e: Option<KeyCombination>| match e {
        Some(c) => Some(c@),
        None => None,
    })
}

/// Remapping profile: a subset of the 12 buttons, each mapped to a combination.
#[derive(Debug, PartialEq, Eq)]
pub struct Profile {
    name: String,
    mappings: Vec<Option<KeyCombination>>,
}

impl View for Profile {
    type V = ProfileView;

    /// Slot `i` holds the combination of button `i + 1`.
    closed spec fn view(&self) -> ProfileView {
        (self.name@, mappings_view(self.mappings@))
    }
}

impl Profile {
    #[verifier::type_invariant]
    spec fn well_formed(self) -> bool {
        &&& !is_blank(self.name@)
        &&& self.mappings@.len() == 12
    }

    /// A non-blank name and twelve slots.
    pub fn check_well_formed(&self)
        ensures
            !is_blank(self@.0),
            self@.1.len() == 12,
    {
        proof {
            use_type_invariant(self);
        }
    }

    /// An empty profile; the name must not be blank.
    pub fn new(name: &str) -> (r: Result<Profile, DomainError>)
        ensures
            r is Ok <==> !is_blank(name@),
            r matches Ok(p) ==> p@ == (name@, empty_slots::<ComboView>()),
            r matches Err(e) ==> e == DomainError::EmptyProfileName,
    {
        if str_is_blank(name) {
            return Err(DomainError::EmptyProfileName);
        }
        let mut mappings: Vec<Option<KeyCombination>> = Vec::new();
        let mut i: usize = 0;
        while i < 12
            invariant
                i <= 12,
                mappings@.len() == i,
                forall|j: int| 0 <= j < i ==> (#[trigger] mappings@[j]) is None,
            decreases 12 - i,
        {
            mappings.push(None);
            i = i + 1;
        }
        assert(mappings_view(mappings@) =~= empty_slots::<ComboView>());
        Ok(Profile { name: name.to_owned(), mappings })
    }

    pub fn name(&self) -> (n: &str)
        ensures
            n@ == self@.0,
    {
        self.name.as_str()
    }

    pub fn mapping(&self, button: Button) -> (r: Option<&KeyCombination>)
        ensures
            r is Some <==> self@.1[button@ - 1] is Some,
            r matches Some(c) ==> self@.1[button@ - 1] == Some(c@),
    {
        proof {
            use_type_invariant(self);
        }
        let b = (button.number() - 1) as usize;
        match &self.mappings[b] {
            Some(c) => Some(c),
            None => None,
        }
    }

    fn clone_mappings(&self) -> (m: Vec<Option<KeyCombination>>)
        ensures
            m@.len() == 12,
            mappings_view(m@) == self@.1,
    {
        proof {
            use_type_invariant(self);
        }
        let mut m: Vec<Option<KeyCombination>> = Vec::new();
        let mut i: usize = 0;
        while i < 12
            invariant
                self.mappings@.len() == 12,
                i <= 12,
                m@.len() == i,
                forall|j: int|
                    0 <= j < i ==> match #[trigger] m@[j] {
                        Some(a) => self@.1[j] == Some(a@),
                        None => self@.1[j] is None,
                    },
            decreases 12 - i,
        {
            match &self.mappings[i] {
                Some(c) => m.push(Some(c.clone())),
                None => m.push(None),
            }
            i = i + 1;
        }
        assert(mappings_view(m@) =~= self@.1);
        m
    }

    /// The same mappings under another name, which must not be blank.
    pub fn renamed(&self, name: &str) -> (r: Result<Profile, DomainError>)
        ensures
            r is Ok <==> !is_blank(name@),
            r matches Ok(p) ==> p@ == (name@, self@.1),
            r matches Err(e) ==> e == DomainError::EmptyProfileName,
    {
        if str_is_blank(name) {
            return Err(DomainError::EmptyProfileName);
        }
        let mappings = self.clone_mappings();
        Ok(Profile { name: name.to_owned(), mappings })
    }

    /// Maps a button, replacing any previous combination.
    pub fn set_mapping(&mut self, button: Button, combination: KeyCombination)
        ensures
            final(self)@ == (old(self)@.0, old(self)@.1.update(button@ - 1, Some(combination@))),
    {
        proof {
            use_type_invariant(&*self);
        }
        let b = (button.number() - 1) as usize;
        let ghost before = self@;
        let mut mappings = self.clone_mappings();
        mappings.set(b, Some(combination));
        assert(mappings_view(mappings@) =~= before.1.update(b as int, Some(combination@)));
        let name = self.name.clone();
        *self = Profile { name, mappings };
    }

    /// Unmaps a button; tells whether it was mapped.
    pub fn remove_mapping(&mut self, button: Button) -> (removed: bool)
        ensures
            removed == old(self)@.1[button@ - 1] is Some,
            final(self)@ == (old(self)@.0, old(self)@.1.update(button@ - 1, None)),
    {
        proof {
            use_type_invariant(&*self);
        }
        let b = (button.number() - 1) as usize;
        let ghost before = self@;
        let removed = self.mappings[b].is_some();
        let mut mappings = self.clone_mappings();
        mappings.set(b, None);
        assert(mappings_view(mappings@) =~= before.1.update(b as int, None));
        let name = self.name.clone();
        *self = Profile { name, mappings };
        removed
    }

    /// (button, combination) pairs, in button order.
    pub fn mappings(&self) -> (pairs: Vec<(Button, KeyCombination)>)
        ensures
            pairs@.map_values(|e: (Button, KeyCombination)| (e.0@ as int, e.1@)) == present(self@.1),
    {
        proof {
            use_type_invariant(self);
        }
        let mut pairs: Vec<(Button, KeyCombination)> = Vec::new();
        let mut i: usize = 0;
        while i < 12
            invariant
                self@.1.len() == 12,
                self.mappings@.len() == 12,
                i <= 12,
                pairs@.map_values(|e: (Button, KeyCombination)| (e.0@ as int, e.1@)) == present(
                    self@.1.take(i as int),
                ),
            decreases 12 - i,
        {
            proof {
                lemma_take_step(self@.1, i as int);
            }
            match &self.mappings[i] {
                Some(c) => {
                    pairs.push((Button::from_index(i), c.clone()));
                },
                None => {},
            }
            assert(pairs@.map_values(|e: (Button, KeyCombination)| (e.0@ as int, e.1@)) =~= present(
                self@.1.take(i + 1),
            ));
            i = i + 1;
        }
        assert(self@.1.take(12) =~= self@.1);
        pairs
    }

    /// Number of mapped buttons.
    pub fn mapping_count(&self) -> (n: usize)
        ensures
            n == count_some(self@.1),
    {
        proof {
            use_type_invariant(self);
        }
        let mut n: usize = 0;
        let mut i: usize = 0;
        while i < 12
            invariant
                self@.1.len() == 12,
                self.mappings@.len() == 12,
                i <= 12,
                n == count_some(self@.1.take(i as int)),
                n <= i,
            decreases 12 - i,
        {
            proof {
                lemma_take_step(self@.1, i as int);
            }
            if self.mappings[i].is_some() {
                n = n + 1;
            }
            i = i + 1;
        }
        assert(self@.1.take(12) =~= self@.1);
        n
    }

    pub fn is_empty(&self) -> (r: bool)
        ensures
            r == (count_some(self@.1) == 0),
    {
        self.mapping_count() == 0
    }
}

impl Clone for Profile {
    fn clone(&self) -> (p: Self)
        ensures
            p@ == self@,
    {
        proof {
            use_type_invariant(self);
        }
        let mappings = self.clone_mappings();
        Profile { name: self.name.clone(), mappings }
    }
}

} // verus!
