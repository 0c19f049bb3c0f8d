//! Why an edit was refused.

use vstd::prelude::*;
use crate::clock::{clock_text, minutes_to_string};

verus! {

/// An edit that was refused. The timeline is as it was before.
#[derive(Debug)]
pub enum EditError {
    /// No row is selected, or the row does not exist.
    NoSelection,
    /// The block is shorter than two minutes.
    CannotSplitFurther,
    /// No block follows.
    NothingToMerge,
    /// A block would start at midnight or after it, end before it starts,
    /// or last longer than a block can.
    OutsideDay,
    /// The text is no duration; the parser's message is kept.
    InvalidDuration(String),
    /// The duration is zero or holds a part of a minute.
    NotWholeMinutes,
    /// The text is no time of day; the parser's message is kept.
    InvalidTime(String),
    /// The time lies before the start of the block above, which is given.
    BeforePrevious(u32),
    /// The time lies after the start of the block below, which is given.
    AfterNext(u32),
}

pub enum EditErrorView {
    NoSelection,
    CannotSplitFurther,
    NothingToMerge,
    OutsideDay,
    InvalidDuration(Seq<char>),
    NotWholeMinutes,
    InvalidTime(Seq<char>),
    BeforePrevious(int),
    AfterNext(int),
}

impl View for EditError {
    type V = EditErrorView;

    open spec fn view(&self) -> EditErrorView {
        match self {
            EditError::NoSelection => EditErrorView::NoSelection,
            EditError::CannotSplitFurther => EditErrorView::CannotSplitFurther,
            EditError::NothingToMerge => EditErrorView::NothingToMerge,
            EditError::OutsideDay => EditErrorView::OutsideDay,
            EditError::InvalidDuration(msg) => EditErrorView::InvalidDuration(msg@),
            EditError::NotWholeMinutes => EditErrorView::NotWholeMinutes,
            EditError::InvalidTime(msg) => EditErrorView::InvalidTime(msg@),
            EditError::BeforePrevious(t) => EditErrorView::BeforePrevious(*t as int),
            EditError::AfterNext(t) => EditErrorView::AfterNext(*t as int),
        }
    }
}

/// Whole minutes or a refusal, as plain values.
pub open spec fn minutes_outcome(r: Result<u32, EditError>) -> Result<int, EditErrorView> {
    match r {
        Ok(minutes) => Ok(minutes as int),
        Err(e) => Err(e@),
    }
}

/// A time of day or a refusal, as plain values.
pub open spec fn time_outcome(r: Result<u32, EditError>) -> Result<int, EditErrorView> {
    match r {
        Ok(time) => Ok(time as int),
        Err(e) => Err(e@),
    }
}

impl EditErrorView {
    /// The line that tells the user of the refusal.
    pub open spec fn message(self) -> Seq<char> {
        match self {
            EditErrorView::NoSelection => "no item selected"@,
            EditErrorView::CannotSplitFurther => "cannot split further"@,
            EditErrorView::NothingToMerge => "no item to merge with"@,
            EditErrorView::OutsideDay => "does not fit into the day"@,
            EditErrorView::InvalidDuration(msg) => "Invalid: "@ + msg,
            EditErrorView::NotWholeMinutes => "Duration must be a whole number of minutes (e.g. 15m)"@,
            EditErrorView::InvalidTime(msg) => "invalid: "@ + msg,
            EditErrorView::BeforePrevious(t) => "cannot be before previous item's start ("@
                + clock_text(t as nat) + ":00)"@,
            EditErrorView::AfterNext(t) => "cannot be after next item's start ("@ + clock_text(
                t as nat,
            ) + ":00)"@,
        }
    }
}

impl EditError {
    /// The line that tells the user of the refusal.
    pub fn message(&self) -> (text: String)
        ensures
            text@ == self@.message(),
    {
        match self {
            EditError::NoSelection => "no item selected".to_owned(),
            EditError::CannotSplitFurther => "cannot split further".to_owned(),
            EditError::NothingToMerge => "no item to merge with".to_owned(),
            EditError::OutsideDay => "does not fit into the day".to_owned(),
            EditError::InvalidDuration(msg) => {
                let mut text = "Invalid: ".to_owned();
                text.append(msg.as_str());
                text
            },
            EditError::NotWholeMinutes => "Duration must be a whole number of minutes (e.g. 15m)".to_owned(),
            EditError::InvalidTime(msg) => {
                let mut text = "invalid: ".to_owned();
                text.append(msg.as_str());
                text
            },
            EditError::BeforePrevious(t) => {
                let mut text = "cannot be before previous item's start (".to_owned();
                text.append(minutes_to_string(*t).as_str());
                text.append(":00)");
                text
            },
            EditError::AfterNext(t) => {
                let mut text = "cannot be after next item's start (".to_owned();
                text.append(minutes_to_string(*t).as_str());
                text.append(":00)");
                text
            },
        }
    }
}

} // verus!
