//! Why a command was refused.
use vstd::prelude::*;

verus! {

/// A caller-supplied input failed a precondition.
#[derive(Clone, Copy, Debug, PartialEq, Eq, Structural)]
pub enum Rejection {
    InvalidDate,
    InvalidNutrient,
    CountAlreadyZero,
    GoalAlreadyZero,
}

/// The outcome of a command that did not append.
#[derive(Clone, Copy, Debug, PartialEq, Eq, Structural)]
pub enum LedgerError {
    /// The input is at fault; nothing was appended.
    InvalidRequest(Rejection),
    /// The store could not take the event; nothing was appended.
    StoreFailure,
}

/// The fixed, human-readable reason of a rejection.
pub open spec fn reason_text(r: Rejection) -> Seq<char> {
    match r {
        Rejection::InvalidDate => "invalid date"@,
        Rejection::InvalidNutrient => "invalid nutrient"@,
        Rejection::CountAlreadyZero => "can't unconsume because the count is already 0"@,
        Rejection::GoalAlreadyZero => "can't decrease because the goal is already 0"@,
    }
}

impl Rejection {
    /// The reason reported to the caller.
    pub fn reason(&self) -> (r: &'static str)
        ensures
            r@ == reason_text(*self),
    {
        match self {
            Rejection::InvalidDate => "invalid date",
            Rejection::InvalidNutrient => "invalid nutrient",
            Rejection::CountAlreadyZero => "can't unconsume because the count is already 0",
            Rejection::GoalAlreadyZero => "can't decrease because the goal is already 0",
        }
    }
}

impl LedgerError {
    /// Whether the caller's input is at fault, as opposed to the store.
    pub fn is_invalid_request(&self) -> (r: bool)
        ensures
            r == (*self is InvalidRequest),
    {
        match self {
            LedgerError::InvalidRequest(_) => true,
            LedgerError::StoreFailure => false,
        }
    }
}

} // verus!
