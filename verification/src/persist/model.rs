//! Commands for the store, its answers, and the rows it keeps.

use vstd::prelude::*;
use crate::seqs::views;
use crate::shared::{DataVersionNumber, Day};
use crate::text::same_text;

verus! {

/// Version number in the answer to a save that stored nothing.
pub const NOTHING_STORED: DataVersionNumber = -1;

/// Start time of a row that was never filled in.
pub const DAY_START: &'static str = "00:00";

/// Header row of one day.
#[derive(Debug)]
pub struct Timesheet {
    pub day: String,
    pub status: String,
}

pub struct TimesheetView {
    pub day: Seq<char>,
    pub status: Seq<char>,
}

impl View for Timesheet {
    type V = TimesheetView;

    open spec fn view(&self) -> TimesheetView {
        TimesheetView { day: self.day@, status: self.status@ }
    }
}

impl Clone for Timesheet {
    fn clone(&self) -> (copy: Self)
        ensures
            copy == *self,
    {
        Timesheet { day: self.day.clone(), status: self.status.clone() }
    }
}

/// One stored entry of a day.
#[derive(Debug)]
pub struct TimeEntry {
    pub id: String,
    pub timesheet_day: String,
    pub project_key: String,
    pub ticket_key: Option<String>,
    pub duration_mins: i32,
    pub description: String,
    pub start_time: String,
}

pub struct TimeEntryView {
    pub id: Seq<char>,
    pub timesheet_day: Seq<char>,
    pub project_key: Seq<char>,
    pub ticket_key: Option<Seq<char>>,
    pub duration_mins: int,
    pub description: Seq<char>,
    pub start_time: Seq<char>,
}

impl TimeEntryView {
    /// An entry that nobody has filled in yet.
    pub open spec fn is_empty_default(self) -> bool {
        self.ticket_key.is_none() && self.duration_mins == 0 && self.description.len() == 0
            && self.start_time == DAY_START@
    }
}

impl View for TimeEntry {
    type V = TimeEntryView;

    open spec fn view(&self) -> TimeEntryView {
        TimeEntryView {
            id: self.id@,
            timesheet_day: self.timesheet_day@,
            project_key: self.project_key@,
            ticket_key: match self.ticket_key {
                Some(key) => Some(key@),
                None => None,
            },
            duration_mins: self.duration_mins as int,
            description: self.description@,
            start_time: self.start_time@,
        }
    }
}

impl Clone for TimeEntry {
    fn clone(&self) -> (copy: Self)
        ensures
            copy == *self,
    {
        TimeEntry {
            id: self.id.clone(),
            timesheet_day: self.timesheet_day.clone(),
            project_key: self.project_key.clone(),
            ticket_key: match &self.ticket_key {
                Some(key) => Some(key.clone()),
                None => None,
            },
            duration_mins: self.duration_mins,
            description: self.description.clone(),
            start_time: self.start_time.clone(),
        }
    }
}

impl TimeEntry {
    /// Whether the entry is still in the state in which rows are created:
    /// no ticket, no duration, no description, starting at midnight.
    pub fn is_empty_default(&self) -> (b: bool)
        ensures
            b == self@.is_empty_default(),
    {
        self.ticket_key.is_none() && self.duration_mins == 0 && self.description.as_str().is_empty()
            && same_text(self.start_time.as_str(), DAY_START)
    }
}

/// What the editor asks of the store.
#[derive(Debug)]
pub enum Command {
    StoreEntry { entry: TimeEntry, version: DataVersionNumber },
    DeleteEntry(String),
    LoadTimesheet { day: Day },
    LoadTimesheetsOfMonth { day: Day },
    SuggestTickets { query: String },
}

pub enum CommandView {
    StoreEntry { entry: TimeEntryView, version: DataVersionNumber },
    DeleteEntry(Seq<char>),
    LoadTimesheet { day: Day },
    LoadTimesheetsOfMonth { day: Day },
    SuggestTickets { query: Seq<char> },
}

impl View for Command {
    type V = CommandView;

    open spec fn view(&self) -> CommandView {
        match self {
            Command::StoreEntry { entry, version } => CommandView::StoreEntry {
                entry: entry@,
                version: *version,
            },
            Command::DeleteEntry(id) => CommandView::DeleteEntry(id@),
            Command::LoadTimesheet { day } => CommandView::LoadTimesheet { day: *day },
            Command::LoadTimesheetsOfMonth { day } => CommandView::LoadTimesheetsOfMonth {
                day: *day,
            },
            Command::SuggestTickets { query } => CommandView::SuggestTickets { query: query@ },
        }
    }
}

/// What the store answers.
#[derive(Debug)]
pub enum Event {
    Failure(String),
    Deleted,
    EntryStored { id: String, version: DataVersionNumber },
    TimesheetLoaded { day: Day, timesheet: Timesheet, entries: Vec<TimeEntry> },
    TimesheetsOfMonthLoaded { day: Day, timesheets: Vec<Timesheet> },
    TicketsSuggested { query: String, ticket_keys: Vec<String> },
}

pub enum EventView {
    Failure(Seq<char>),
    Deleted,
    EntryStored { id: Seq<char>, version: DataVersionNumber },
    TimesheetLoaded { day: Day, timesheet: TimesheetView, entries: Seq<TimeEntryView> },
    TimesheetsOfMonthLoaded { day: Day, timesheets: Seq<TimesheetView> },
    TicketsSuggested { query: Seq<char>, ticket_keys: Seq<Seq<char>> },
}

impl View for Event {
    type V = EventView;

    open spec fn view(&self) -> EventView {
        match self {
            Event::Failure(msg) => EventView::Failure(msg@),
            Event::Deleted => EventView::Deleted,
            Event::EntryStored { id, version } => EventView::EntryStored {
                id: id@,
                version: *version,
            },
            Event::TimesheetLoaded { day, timesheet, entries } => EventView::TimesheetLoaded {
                day: *day,
                timesheet: timesheet@,
                entries: views(entries@),
            },
            Event::TimesheetsOfMonthLoaded { day, timesheets } => {
                EventView::TimesheetsOfMonthLoaded { day: *day, timesheets: views(timesheets@) }
            },
            Event::TicketsSuggested { query, ticket_keys } => EventView::TicketsSuggested {
                query: query@,
                ticket_keys: views(ticket_keys@),
            },
        }
    }
}

} // verus!
