//! Runtime translation table: physical code to mapping.

use vstd::prelude::*;

use crate::button::Button;
use crate::calibration::{codes_distinct, Calibration, CodeView, PhysicalCode};
use crate::combo::KeyCombination;
use crate::error::DomainError;
use crate::node::NodeId;
use crate::profile::{ComboView, Profile};
use crate::slots::{absent, all_some, lemma_take_step};

verus! {

/// One table entry: the physical code, its button and the combination it injects.
pub type EntryView = (CodeView, int, ComboView);

/// The entries built from a calibration and a profile: every calibrated
/// button that the profile maps, in button order.
pub open spec fn table_of(cal: Seq<Option<CodeView>>, prof: Seq<Option<ComboView>>) -> Seq<EntryView>
    decreases cal.len(),
{
    if cal.len() == 0 {
        Seq::empty()
    } else {
        let i = cal.len() - 1;
        table_of(cal.drop_last(), prof) + match (cal[i], prof[i]) {
            (Some(code), Some(combo)) => seq![(code, i + 1, combo)],
            _ => Seq::empty(),
        }
    }
}

/// No physical code appears in two entries.
pub open spec fn entry_codes_distinct(t: Seq<EntryView>) -> bool {
    forall|i: int, j: int| 0 <= i < t.len() && 0 <= j < t.len() && i != j ==> t[i].0 != t[j].0
}

/// What the table holds for a physical code: its button and combination.
pub open spec fn table_lookup(t: Seq<EntryView>, key: CodeView) -> Option<(int, ComboView)> {
    if exists|i: int| 0 <= i < t.len() && t[i].0 == key {
        let i = choose|i: int| 0 <= i < t.len() && t[i].0 == key;
        Some((t[i].1, t[i].2))
    } else {
        None
    }
}

/// Runtime translation table: physical code to mapping.
///
/// Only contains buttons actually mapped by the profile; every other
/// event is forwarded as-is.
#[derive(Debug, PartialEq, Eq)]
pub struct TranslationTable {
    entries: Vec<(PhysicalCode, Button, KeyCombination)>,
}

spec fn entries_view(v: Seq<(PhysicalCode, Button, KeyCombination)>) -> Seq<EntryView> {
    v.map_values(|e: (PhysicalCode, Button, KeyCombination)| (e.0@, e.1@ as int, e.2@))
}

impl View for TranslationTable {
    type V = Seq<EntryView>;

    closed spec fn view(&self) -> Seq<EntryView> {
        entries_view(self.entries@)
    }
}

/// Entries of `table_of` come from distinct slots, in increasing button order.
proof fn lemma_table_of_members(cal: Seq<Option<CodeView>>, prof: Seq<Option<ComboView>>)
    ensures
        forall|k: int|
            0 <= k < table_of(cal, prof).len() ==> {
                let e = #[trigger] table_of(cal, prof)[k];
                1 <= e.1 <= cal.len() && cal[e.1 - 1] == Some(e.0) && prof[e.1 - 1] == Some(e.2)
            },
        forall|k: int, l: int|
            0 <= k < l < table_of(cal, prof).len() ==> table_of(cal, prof)[k].1 < table_of(cal, prof)[l].1,
    decreases cal.len(),
{
    if cal.len() > 0 {
        lemma_table_of_members(cal.drop_last(), prof);
    }
}

proof fn lemma_table_of_distinct(cal: Seq<Option<CodeView>>, prof: Seq<Option<ComboView>>)
    requires
        codes_distinct(cal),
    ensures
        entry_codes_distinct(table_of(cal, prof)),
{
    lemma_table_of_members(cal, prof);
    let t = table_of(cal, prof);
    assert forall|i: int, j: int| 0 <= i < t.len() && 0 <= j < t.len() && i != j implies t[i].0 != t[j].0 by {
        if i < j {
            assert(t[i].1 < t[j].1);
        } else {
            assert(t[j].1 < t[i].1);
        }
        assert(cal[t[i].1 - 1] != cal[t[j].1 - 1]);
    }
}

/// In a table without repeated codes, the entry found for a code is the chosen one.
pub proof fn lemma_lookup_at(t: Seq<EntryView>, i: int)
    requires
        entry_codes_distinct(t),
        0 <= i < t.len(),
    ensures
        table_lookup(t, t[i].0) == Some((t[i].1, t[i].2)),
{
    let j = choose|j: int| 0 <= j < t.len() && t[j].0 == t[i].0;
}

impl TranslationTable {
    #[verifier::type_invariant]
    spec fn well_formed(self) -> bool {
        entry_codes_distinct(self@)
    }

    /// No physical code appears twice.
    pub fn check_well_formed(&self)
        ensures
            entry_codes_distinct(self@),
    {
        proof {
            use_type_invariant(self);
        }
    }

    /// The empty table: everything is forwarded.
    pub fn empty() -> (t: TranslationTable)
        ensures
            t@ == Seq::<EntryView>::empty(),
    {
        let t = TranslationTable { entries: Vec::new() };
        assert(t@ =~= Seq::<EntryView>::empty());
        t
    }

    /// Builds the table of the mapped buttons; the calibration must be complete.
    pub fn build(calibration: &Calibration, profile: &Profile) -> (r: Result<TranslationTable, DomainError>)
        ensures
            r is Ok <==> all_some(calibration@),
            r matches Ok(t) ==> t@ == table_of(calibration@, profile@.1),
            r matches Err(e) ==> e matches DomainError::IncompleteCalibration { missing } && missing@.map_values(
                |b: u8| b as int,
            ) == absent(calibration@),
    {
        calibration.check_well_formed();
        profile.check_well_formed();
        if !calibration.is_complete() {
            let missing_buttons = calibration.missing_buttons();
            let mut missing: Vec<u8> = Vec::new();
            let mut k: usize = 0;
            while k < missing_buttons.len()
                invariant
                    k <= missing_buttons@.len(),
                    missing@.len() == k,
                    forall|j: int| 0 <= j < k ==> #[trigger] missing@[j] == missing_buttons@[j]@,
                decreases missing_buttons@.len() - k,
            {
                missing.push(missing_buttons[k].number());
                k = k + 1;
            }
            assert(missing@.map_values(|b: u8| b as int) =~= missing_buttons@.map_values(
                |b: Button| b@ as int,
            ));
            return Err(DomainError::IncompleteCalibration { missing });
        }
        let mut entries: Vec<(PhysicalCode, Button, KeyCombination)> = Vec::new();
        let mut i: usize = 0;
        while i < 12
            invariant
                calibration@.len() == 12,
                profile@.1.len() == 12,
                i <= 12,
                entries_view(entries@) == table_of(calibration@.take(i as int), profile@.1),
            decreases 12 - i,
        {
            proof {
                lemma_take_step(calibration@, i as int);
            }
            let button = Button::from_index(i);
            match (calibration.get(button), profile.mapping(button)) {
                (Some(code), Some(combo)) => {
                    entries.push((code.clone(), button, combo.clone()));
                },
                _ => {},
            }
            assert(entries_view(entries@) =~= table_of(calibration@.take(i + 1), profile@.1));
            i = i + 1;
        }
        assert(calibration@.take(12) =~= calibration@);
        proof {
            lemma_table_of_distinct(calibration@, profile@.1);
        }
        Ok(TranslationTable { entries })
    }

    /// Button and combination of a physical code, if mapped.
    pub fn lookup(&self, node: &NodeId, code: u16) -> (r: Option<(&Button, &KeyCombination)>)
        ensures
            r is Some <==> table_lookup(self@, (node@, code)) is Some,
            r matches Some((b, c)) ==> table_lookup(self@, (node@, code)) == Some((b@ as int, c@)),
    {
        proof {
            use_type_invariant(self);
        }
        let mut i: usize = 0;
        while i < self.entries.len()
            invariant
                i <= self.entries@.len(),
                entry_codes_distinct(self@),
                forall|j: int| 0 <= j < i ==> self@[j].0 != (node@, code),
            decreases self.entries@.len() - i,
        {
            let entry = &self.entries[i];
            if entry.0.code() == code && entry.0.node().same_as(node) {
                proof {
                    lemma_lookup_at(self@, i as int);
                }
                return Some((&entry.1, &entry.2));
            }
            i = i + 1;
        }
        None
    }

    /// (button, combination) of every entry, in button order.
    pub fn buttons(&self) -> (pairs: Vec<(Button, KeyCombination)>)
        ensures
            pairs@.map_values(|e: (Button, KeyCombination)| (e.0@ as int, e.1@)) == self@.map_values(
                |e: EntryView| (e.1, e.2),
            ),
    {
        let mut pairs: Vec<(Button, KeyCombination)> = Vec::new();
        let mut i: usize = 0;
        while i < self.entries.len()
            invariant
                i <= self.entries@.len(),
                pairs@.len() == i,
                forall|j: int|
                    0 <= j < i ==> (#[trigger] pairs@[j]).0@ == self.entries@[j].1@ && pairs@[j].1@
                        == self.entries@[j].2@,
            decreases self.entries@.len() - i,
        {
            let entry = &self.entries[i];
            pairs.push((entry.1, entry.2.clone()));
            i = i + 1;
        }
        assert(pairs@.map_values(|e: (Button, KeyCombination)| (e.0@ as int, e.1@)) =~= self@.map_values(
            |e: EntryView| (e.1, e.2),
        ));
        pairs
    }

    pub fn len(&self) -> (n: usize)
        ensures
            n == self@.len(),
    {
        self.entries.len()
    }

    pub fn is_empty(&self) -> (r: bool)
        ensures
            r == (self@.len() == 0),
    {
        self.entries.len() == 0
    }
}

impl Default for TranslationTable {
    fn default() -> (t: TranslationTable)
        ensures
            t@ == Seq::<EntryView>::empty(),
    {
        TranslationTable::empty()
    }
}

impl Clone for TranslationTable {
    fn clone(&self) -> (t: Self)
        ensures
            t@ == self@,
    {
        proof {
            use_type_invariant(self);
        }
        let mut entries: Vec<(PhysicalCode, Button, KeyCombination)> = Vec::new();
        let mut i: usize = 0;
        while i < self.entries.len()
            invariant
                i <= self.entries@.len(),
                entries@.len() == i,
                forall|j: int|
                    0 <= j < i ==> (#[trigger] entries@[j]).0@ == self.entries@[j].0@ && entries@[j].1
                        == self.entries@[j].1 && entries@[j].2@ == self.entries@[j].2@,
            decreases self.entries@.len() - i,
        {
            let entry = &self.entries[i];
            entries.push((entry.0.clone(), entry.1, entry.2.clone()));
            i = i + 1;
        }
        assert(entries_view(entries@) =~= self@);
        TranslationTable { entries }
    }
}

} // verus!
