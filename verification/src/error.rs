//! Domain and application errors.

use vstd::prelude::*;

use crate::text::{decimal, decimal_chars};

verus! {

/// Domain invariant violation.
#[derive(Debug, Clone, PartialEq, Eq)]
pub enum DomainError {
    InvalidButton(u8),
    EmptyProfileName,
    EmptyNode,
    DuplicateModifier,
    UnknownKeyName(String),
    IncompleteCalibration { missing: Vec<u8> },
    PhysicalCodeConflict { node: String, code: u16, first: u8, second: u8 },
}

/// Use case or adapter runtime error.
#[derive(Debug, Clone, PartialEq, Eq)]
pub enum AppError {
    Domain(DomainError),
    Port(String),
    NotFound(String),
    InvalidState(String),
}

/// A domain error with its texts and lists taken by their contents.
pub enum DomainErrorView {
    InvalidButton(u8),
    EmptyProfileName,
    EmptyNode,
    DuplicateModifier,
    UnknownKeyName(Seq<char>),
    IncompleteCalibration(Seq<u8>),
    PhysicalCodeConflict(Seq<char>, u16, u8, u8),
}

/// An application error with its texts taken by their contents.
pub enum AppErrorView {
    Domain(DomainErrorView),
    Port(Seq<char>),
    NotFound(Seq<char>),
    InvalidState(Seq<char>),
}

impl View for DomainError {
    type V = DomainErrorView;

    open spec fn view(&self) -> DomainErrorView {
        match self {
            DomainError::InvalidButton(n) => DomainErrorView::InvalidButton(*n),
            DomainError::EmptyProfileName => DomainErrorView::EmptyProfileName,
            DomainError::EmptyNode => DomainErrorView::EmptyNode,
            DomainError::DuplicateModifier => DomainErrorView::DuplicateModifier,
            DomainError::UnknownKeyName(name) => DomainErrorView::UnknownKeyName(name@),
            DomainError::IncompleteCalibration { missing } => DomainErrorView::IncompleteCalibration(missing@),
            DomainError::PhysicalCodeConflict { node, code, first, second } => DomainErrorView::PhysicalCodeConflict(
                node@,
                *code,
                *first,
                *second,
            ),
        }
    }
}

impl View for AppError {
    type V = AppErrorView;

    open spec fn view(&self) -> AppErrorView {
        match self {
            AppError::Domain(d) => AppErrorView::Domain(d@),
            AppError::Port(m) => AppErrorView::Port(m@),
            AppError::NotFound(m) => AppErrorView::NotFound(m@),
            AppError::InvalidState(m) => AppErrorView::InvalidState(m@),
        }
    }
}

/// The numbers of a list, written as `[a, b, c]`.
pub open spec fn list_chars(items: Seq<u8>) -> Seq<char> {
    "["@ + items_chars(items) + "]"@
}

/// The numbers of a list separated by `, `.
pub open spec fn items_chars(items: Seq<u8>) -> Seq<char>
    decreases items.len(),
{
    if items.len() == 0 {
        Seq::empty()
    } else if items.len() == 1 {
        decimal_chars(items[0] as nat)
    } else {
        items_chars(items.drop_last()) + ", "@ + decimal_chars(items.last() as nat)
    }
}

/// The message of a domain error.
pub open spec fn domain_message(e: DomainError) -> Seq<char> {
    match e {
        DomainError::InvalidButton(n) => "invalid side button number: "@ + decimal_chars(n as nat)
            + " (expected 1..=12)"@,
        DomainError::EmptyProfileName => "profile name must not be empty"@,
        DomainError::EmptyNode => "node id must not be empty"@,
        DomainError::DuplicateModifier => "duplicate modifier in key combination"@,
        DomainError::UnknownKeyName(name) => "unknown key name: "@ + name@,
        DomainError::IncompleteCalibration { missing } => "incomplete calibration, missing buttons: "@
            + list_chars(missing@),
        DomainError::PhysicalCodeConflict { node, code, first, second } => "physical code "@
            + decimal_chars(code as nat) + " on node '"@ + node@ + "' captured for both button "@
            + decimal_chars(first as nat) + " and button "@ + decimal_chars(second as nat),
    }
}

/// The message of an application error.
pub open spec fn app_message(e: AppError) -> Seq<char> {
    match e {
        AppError::Domain(d) => "domain error: "@ + domain_message(d),
        AppError::Port(m) => "adapter error: "@ + m@,
        AppError::NotFound(m) => "not found: "@ + m@,
        AppError::InvalidState(m) => "invalid state: "@ + m@,
    }
}

/// Writes a list of numbers as `[a, b, c]`.
pub fn list_text(items: &Vec<u8>) -> (s: String)
    ensures
        s@ == list_chars(items@),
{
    let mut s = String::from_str("[");
    let mut i: usize = 0;
    while i < items.len()
        invariant
            i <= items@.len(),
            s@ == "["@ + items_chars(items@.take(i as int)),
        decreases items@.len() - i,
    {
        let ghost before = s@;
        if i > 0 {
            s.append(", ");
        }
        let d = decimal(items[i] as u64);
        s.append(d.as_str());
        proof {
            let t = items@.take(i + 1);
            assert(t.drop_last() =~= items@.take(i as int));
            assert(t.last() == items@[i as int]);
            if i == 0 {
                assert(items@.take(0) =~= Seq::<u8>::empty());
                assert(s@ =~= "["@ + items_chars(t));
            } else {
                assert(s@ =~= "["@ + items_chars(t));
            }
        }
        i = i + 1;
    }
    assert(items@.take(i as int) =~= items@);
    s.append("]");
    s
}

impl DomainError {
    /// The message of the error.
    pub fn to_string(&self) -> (s: String)
        ensures
            s@ == domain_message(*self),
    {
        match self {
            DomainError::InvalidButton(n) => {
                let mut s = String::from_str("invalid side button number: ");
                s.append(decimal(*n as u64).as_str());
                s.append(" (expected 1..=12)");
                s
            },
            DomainError::EmptyProfileName => String::from_str("profile name must not be empty"),
            DomainError::EmptyNode => String::from_str("node id must not be empty"),
            DomainError::DuplicateModifier => String::from_str("duplicate modifier in key combination"),
            DomainError::UnknownKeyName(name) => {
                let mut s = String::from_str("unknown key name: ");
                s.append(name.as_str());
                s
            },
            DomainError::IncompleteCalibration { missing } => {
                let mut s = String::from_str("incomplete calibration, missing buttons: ");
                s.append(list_text(missing).as_str());
                s
            },
            DomainError::PhysicalCodeConflict { node, code, first, second } => {
                let mut s = String::from_str("physical code ");
                s.append(decimal(*code as u64).as_str());
                s.append(" on node '");
                s.append(node.as_str());
                s.append("' captured for both button ");
                s.append(decimal(*first as u64).as_str());
                s.append(" and button ");
                s.append(decimal(*second as u64).as_str());
                s
            },
        }
    }
}

impl AppError {
    /// The message of the error.
    pub fn to_string(&self) -> (s: String)
        ensures
            s@ == app_message(*self),
    {
        let (prefix, rest) = match self {
            AppError::Domain(d) => ("domain error: ", d.to_string()),
            AppError::Port(m) => ("adapter error: ", m.clone()),
            AppError::NotFound(m) => ("not found: ", m.clone()),
            AppError::InvalidState(m) => ("invalid state: ", m.clone()),
        };
        let mut s = String::from_str(prefix);
        s.append(rest.as_str());
        s
    }
}

impl From<DomainError> for AppError {
    fn from(err: DomainError) -> (r: AppError) {
        AppError::Domain(err)
    }
}

impl vstd::std_specs::convert::FromSpecImpl<DomainError> for AppError {
    open spec fn obeys_from_spec() -> bool {
        true
    }

    open spec fn from_spec(v: DomainError) -> AppError {
        AppError::Domain(v)
    }
}

} // verus!
