//! The day since which a briefing reports.
//!
//! A briefing starts at the day that the user names, or else at the day of the
//! last briefing, which is kept from run to run, or else today.

use vstd::prelude::*;
use vstd::string::*;
use crate::date::{date_of_text, date_view, Date};
use crate::upgrade::DATE_FORMAT;

verus! {

/// Why there is no checkpoint.
#[derive(Clone, Copy, Debug, PartialEq, Eq, Structural)]
pub enum CheckpointError {
    /// The day that was named or kept is no date in the form `YYYY-MM-DD`.
    InvalidDate,
}

impl CheckpointError {
    /// What to tell the user.
    pub fn message(&self) -> (r: String)
        ensures
            r@ == "Invalid date format. Use YYYY-MM-DD"@,
    {
        String::from_str("Invalid date format. Use YYYY-MM-DD")
    }
}

/// The text that names the checkpoint: the one the user gave, or else the one
/// kept from the last run.
pub open spec fn checkpoint_text(requested: Option<Seq<char>>, kept: Option<Seq<char>>) -> Option<
    Seq<char>,
> {
    match requested {
        Some(text) => Some(text),
        None => kept,
    }
}

/// The checkpoint: the day that the naming text holds, `today` where no text
/// names one, and `None` where the text holds no day.
pub open spec fn checkpoint_of(
    requested: Option<Seq<char>>,
    kept: Option<Seq<char>>,
    today: (int, int, int),
) -> Option<(int, int, int)> {
    match checkpoint_text(requested, kept) {
        Some(text) => date_of_text(text, DATE_FORMAT@),
        None => Some(today),
    }
}

/// The view of the outcome of choosing a checkpoint.
pub open spec fn checkpoint_view(r: Result<Date, CheckpointError>) -> Option<(int, int, int)> {
    match r {
        Ok(day) => Some(day@),
        Err(_) => None,
    }
}

/// The checkpoint that `day` gives, where `day` is what the naming text
/// holds: an error where it holds nothing.
pub fn checkpoint_from(day: Option<Date>) -> (r: Result<Date, CheckpointError>)
    ensures
        checkpoint_view(r) == date_view(day),
{
    match day {
        Some(date) => Ok(date),
        None => Err(CheckpointError::InvalidDate),
    }
}

/// The day since which to report: the day `requested` on the command line,
/// or else the day `kept` from the last run, or else `today`. An error where
/// the text that names the day is no date.
pub fn since_time(requested: Option<&str>, kept: Option<&str>, today: Date) -> (r: Result<
    Date,
    CheckpointError,
>)
    ensures
        checkpoint_view(r) == checkpoint_of(requested.deep_view(), kept.deep_view(), today@),
{
    let text = match requested {
        Some(text) => Some(text),
        None => kept,
    };
    match text {
        Some(text) => checkpoint_from(Date::parse_from_str(text, DATE_FORMAT)),
        None => Ok(today),
    }
}

/// Whether a run records its day as the checkpoint of the next one: it does
/// unless the user named a day or asked not to.
pub fn updates_cache(since_requested: bool, no_cache: bool) -> (r: bool)
    ensures
        r == !(since_requested || no_cache),
{
    !(since_requested || no_cache)
}

} // verus!
