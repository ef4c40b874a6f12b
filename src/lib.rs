//! An event-sourced ledger of daily nutrient portions and nutrient goals.
//!
//! Nothing is ever updated or removed: every command appends one signed
//! event, and every query recomputes the current totals from the log.
use vstd::prelude::*;

pub mod log;
pub mod day_ledger;
pub mod error;
pub mod goal_ledger;
pub mod nutrient;
pub mod totals;
pub mod validate;

use crate::day_ledger::{consume_outcome, unconsume_outcome};
use crate::error::{LedgerError, Rejection};
use crate::goal_ledger::{dec_outcome, inc_outcome};
use crate::log::Entry;
use crate::nutrient::nutrient_named;
use crate::validate::has_date_shape;

verus! {

/// A name outside the four nutrients is refused by every command, whatever
/// the log, and on an otherwise valid date.
pub proof fn law_unknown_nutrient_refused(log: Seq<Entry>, date: Seq<char>, name: Seq<char>)
    requires
        nutrient_named(name) is None,
        has_date_shape(date),
    ensures
        consume_outcome(log, date, name) == Err::<(), LedgerError>(
            LedgerError::InvalidRequest(Rejection::InvalidNutrient),
        ),
        unconsume_outcome(log, date, name) == Err::<(), LedgerError>(
            LedgerError::InvalidRequest(Rejection::InvalidNutrient),
        ),
        inc_outcome(log, name) == Err::<(), LedgerError>(
            LedgerError::InvalidRequest(Rejection::InvalidNutrient),
        ),
        dec_outcome(log, name) == Err::<(), LedgerError>(
            LedgerError::InvalidRequest(Rejection::InvalidNutrient),
        ),
{
}

/// A date without the `DDDD-DD-DD` shape is refused by both commands that
/// take one, whatever the log and the nutrient.
pub proof fn law_malformed_date_refused(log: Seq<Entry>, date: Seq<char>, name: Seq<char>)
    requires
        !has_date_shape(date),
    ensures
        consume_outcome(log, date, name) == Err::<(), LedgerError>(
            LedgerError::InvalidRequest(Rejection::InvalidDate),
        ),
        unconsume_outcome(log, date, name) == Err::<(), LedgerError>(
            LedgerError::InvalidRequest(Rejection::InvalidDate),
        ),
{
}

} // verus!
