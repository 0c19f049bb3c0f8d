//! What the keeper of the store decides for each command, before and
//! after it touches the store.

use vstd::prelude::*;
use crate::ids::{entry_id_reading, read_entry_id};
use crate::persist::model::{
    Event, EventView, TimeEntry, TimeEntryView, Timesheet, TimesheetView,
};
use crate::shared::{day_shifted, Day};
use crate::persist::model::NOTHING_STORED;
use crate::seqs::views;
use crate::shared::DataVersionNumber;
use crate::text::option_text;

verus! {

/// The status of a sheet that is made for a day's first entry.
pub const OPEN_STATUS: &'static str = "OPEN";

/// What is to be done about a command that stores an entry.
#[derive(Debug)]
pub enum StorePlan {
    /// The entry's identifier is none: nothing is stored.
    Refuse,
    /// The entry was never filled in: nothing is stored, and the answer
    /// says so.
    Skip(Event),
    /// The entry's sheet is made sure of, the entry is written, and if
    /// both went well the answer is `then`.
    Write { then: Event },
}

pub enum StorePlanView {
    Refuse,
    Skip(EventView),
    Write { then: EventView },
}

impl View for StorePlan {
    type V = StorePlanView;

    open spec fn view(&self) -> StorePlanView {
        match self {
            StorePlan::Refuse => StorePlanView::Refuse,
            StorePlan::Skip(event) => StorePlanView::Skip(event@),
            StorePlan::Write { then } => StorePlanView::Write { then: then@ },
        }
    }
}

/// What is to be done about storing `entry` at `version`, given what its
/// identifier was read as.
pub open spec fn store_plan_of(
    entry: TimeEntryView,
    version: DataVersionNumber,
    id: Option<Seq<char>>,
) -> StorePlanView {
    match id {
        None => StorePlanView::Refuse,
        Some(id) => if entry.is_empty_default() {
            StorePlanView::Skip(EventView::EntryStored { id, version: NOTHING_STORED })
        } else {
            StorePlanView::Write { then: EventView::EntryStored { id, version } }
        },
    }
}

/// What is to be done about storing `entry` at `version`.
pub open spec fn store_plan(entry: TimeEntryView, version: DataVersionNumber) -> StorePlanView {
    store_plan_of(
        entry,
        version,
        if vstd::utf8::is_ascii_chars(entry.id) {
            entry_id_reading(entry.id)
        } else {
            None
        },
    )
}

/// Decides what to do about storing `entry`, given what its identifier was
/// read as.
pub fn plan_store_with(entry: &TimeEntry, version: DataVersionNumber, id: Option<String>) -> (plan:
    StorePlan)
    ensures
        plan@ == store_plan_of(entry@, version, option_text(id)),
{
    match id {
        None => StorePlan::Refuse,
        Some(id) => {
            if entry.is_empty_default() {
                StorePlan::Skip(Event::EntryStored { id, version: NOTHING_STORED })
            } else {
                StorePlan::Write { then: Event::EntryStored { id, version } }
            }
        },
    }
}

/// Decides what to do about storing `entry`.
pub fn plan_store(entry: &TimeEntry, version: DataVersionNumber) -> (plan: StorePlan)
    ensures
        plan@ == store_plan(entry@, version),
{
    plan_store_with(entry, version, read_entry_id(entry.id.as_str()))
}

/// The sheet of `day`: the one that the store holds, or an open one that
/// is not stored yet.
pub open spec fn sheet_of(loaded: Option<Timesheet>, day: Day) -> TimesheetView {
    match loaded {
        Some(sheet) => sheet@,
        None => TimesheetView { day: day.iso_text(), status: OPEN_STATUS@ },
    }
}

/// The sheet of `day`, given what the store holds of it.
pub fn timesheet_or_open(loaded: Option<Timesheet>, day: Day) -> (sheet: Timesheet)
    ensures
        sheet@ == sheet_of(loaded, day),
{
    match loaded {
        Some(sheet) => sheet,
        None => Timesheet { day: day.iso(), status: OPEN_STATUS.to_owned() },
    }
}

/// What is tidied up after a day was loaded.
#[derive(Debug)]
pub enum Cleanup {
    Nothing,
    /// The day has no entries: its sheet goes.
    DeleteTimesheet,
    /// The day's only entry was never filled in: it goes.
    DeleteEntry(String),
}

pub enum CleanupView {
    Nothing,
    DeleteTimesheet,
    DeleteEntry(Seq<char>),
}

impl View for Cleanup {
    type V = CleanupView;

    open spec fn view(&self) -> CleanupView {
        match self {
            Cleanup::Nothing => CleanupView::Nothing,
            Cleanup::DeleteTimesheet => CleanupView::DeleteTimesheet,
            Cleanup::DeleteEntry(id) => CleanupView::DeleteEntry(id@),
        }
    }
}

/// What is tidied up after a day with these entries was loaded.
pub open spec fn cleanup_of(entries: Seq<TimeEntryView>) -> CleanupView {
    if entries.len() == 0 {
        CleanupView::DeleteTimesheet
    } else if entries.len() == 1 && entries[0].is_empty_default() {
        CleanupView::DeleteEntry(entries[0].id)
    } else {
        CleanupView::Nothing
    }
}

/// Decides what to tidy up after a day was loaded. Doing it twice does no
/// harm: the day is loaded as it was either way.
pub fn cleanup_after_load(entries: &Vec<TimeEntry>) -> (cleanup: Cleanup)
    ensures
        cleanup@ == cleanup_of(views(entries@)),
{
    if entries.len() == 0 {
        Cleanup::DeleteTimesheet
    } else if entries.len() == 1 && entries[0].is_empty_default() {
        Cleanup::DeleteEntry(entries[0].id.clone())
    } else {
        Cleanup::Nothing
    }
}

/// What `str::to_lowercase` makes of `text`.
pub uninterp spec fn lowercase(text: Seq<char>) -> Seq<char>;

/// Calls `str::to_lowercase`. The contract only names what it returns.
#[verifier::external_body]
pub(crate) fn to_lowercase(text: &str) -> (lower: String)
    ensures
        lower@ == lowercase(text@),
{
    text.to_lowercase()
}

/// The patterns by which tickets are looked up: a ticket key matches if it
/// matches every pattern, where `%` stands for any run of characters.
#[derive(Debug)]
pub struct TicketPatterns {
    pub prefix: String,
    pub issue: Option<String>,
}

pub struct TicketPatternsView {
    pub prefix: Seq<char>,
    pub issue: Option<Seq<char>>,
}

impl View for TicketPatterns {
    type V = TicketPatternsView;

    open spec fn view(&self) -> TicketPatternsView {
        TicketPatternsView { prefix: self.prefix@, issue: option_text(self.issue) }
    }
}

/// Where the first `-` of `text` stands, from `from` on.
pub open spec fn first_dash(text: Seq<char>, from: int) -> Option<int>
    decreases text.len() - from,
{
    if 0 <= from < text.len() {
        if text[from] == '-' {
            Some(from)
        } else {
            first_dash(text, from + 1)
        }
    } else {
        None
    }
}

/// The patterns for a query that is already in lower case. A query with a
/// dash asks for a project and a part of an issue number: keys that start
/// with what stands before the first dash and hold, after a dash, what
/// stands after it. Any other query asks for keys that start with it.
pub open spec fn patterns_of(query: Seq<char>) -> TicketPatternsView {
    match first_dash(query, 0) {
        Some(at) => TicketPatternsView {
            prefix: query.take(at).push('%'),
            issue: Some(seq!['%', '-'] + query.skip(at + 1) + seq!['%']),
        },
        None => TicketPatternsView { prefix: query.push('%'), issue: None },
    }
}

/// Builds the patterns for a query that is already in lower case.
pub fn patterns_for(query: &str) -> (patterns: TicketPatterns)
    ensures
        patterns@ == patterns_of(query@),
{
    let len = query.unicode_len();
    let mut at: usize = 0;
    while at < len
        invariant
            len == query@.len(),
            at <= len,
            first_dash(query@, 0) == first_dash(query@, at as int),
        decreases len - at,
    {
        if query.get_char(at) == '-' {
            let mut prefix = query.substring_char(0, at).to_owned();
            prefix.push('%');
            let mut issue = "%-".to_owned();
            issue.append(query.substring_char(at + 1, len));
            issue.push('%');
            proof {
                reveal_strlit("%-");
                assert(issue@ =~= seq!['%', '-'] + query@.skip(at + 1) + seq!['%']);
            }
            return TicketPatterns { prefix, issue: Some(issue) };
        }
        at += 1;
    }
    let mut prefix = query.to_owned();
    prefix.push('%');
    TicketPatterns { prefix, issue: None }
}

/// Builds the patterns by which tickets are looked up for `query`, in
/// whatever case it was typed.
pub fn suggestion_patterns(query: &str) -> (patterns: TicketPatterns)
    ensures
        patterns@ == patterns_of(lowercase(query@)),
{
    let lower = to_lowercase(query);
    patterns_for(lower.as_str())
}

/// The answer to a query for tickets. It carries the query as it was
/// asked, in whatever case, so that the editor that asked knows its own
/// query again.
pub fn suggested(query: String, ticket_keys: Vec<String>) -> (event: Event)
    ensures
        event@ == (EventView::TicketsSuggested { query: query@, ticket_keys: views(ticket_keys@) }),
{
    Event::TicketsSuggested { query, ticket_keys }
}

/// How many days back the entries reach from which tickets are suggested:
/// six months of thirty days.
pub const SUGGESTION_DAYS: i32 = 180;

/// The day after which an entry counts for the suggestions made on
/// `today`: `SUGGESTION_DAYS` days before it, or `today` itself where the
/// calendar has no such day.
pub fn suggestions_since(today: Day) -> (since: Day)
    ensures
        since == match day_shifted(
            today.year as int,
            today.month as int,
            today.day as int,
            -SUGGESTION_DAYS,
        ) {
            Some(ymd) => Day { year: ymd.0 as i32, month: ymd.1 as u8, day: ymd.2 as u8 },
            None => today,
        },
{
    match today.shifted(-SUGGESTION_DAYS) {
        Some(day) => day,
        None => today,
    }
}

/// The answer to a command: what the store gave, or the failure.
pub open spec fn answer_of(outcome: Result<Event, String>) -> EventView {
    match outcome {
        Ok(event) => event@,
        Err(message) => EventView::Failure(message@),
    }
}

/// Turns the outcome of a command into the one answer that is sent for it.
pub fn answer(outcome: Result<Event, String>) -> (event: Event)
    ensures
        event@ == answer_of(outcome),
{
    match outcome {
        Ok(event) => event,
        Err(message) => Event::Failure(message),
    }
}

} // verus!
