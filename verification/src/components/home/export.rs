//! The day as rows of a spreadsheet.

use vstd::prelude::*;
use crate::clock::{
    clock_text, clock_text_seconds, format_duration_hms, minutes_to_string, MINUTES_PER_DAY,
};
use crate::config::{project_index, Config};
use crate::components::home::state::TimeItem;
use crate::components::home::timeline::TimeItemView;
use crate::seqs::views;
use crate::shared::BREAK_PROJECT_KEY;
use crate::text::{decimal, option_text, push_decimal, same_text};

verus! {

/// The name under which breaks are listed.
pub const BREAK_DISPLAY_NAME: &'static str = "Pause";

/// The project that a block belongs to: its own, or the configured one
/// where it names none.
pub open spec fn project_key_of(project: Seq<char>, default_project_key: Seq<char>) -> Seq<char> {
    if project.len() == 0 {
        default_project_key
    } else {
        project
    }
}

pub fn get_project_key(project: &str, default_project_key: &str) -> (key: String)
    ensures
        key@ == project_key_of(project@, default_project_key@),
{
    if project.is_empty() {
        default_project_key.to_owned()
    } else {
        project.to_owned()
    }
}

/// The head of the sheet: start, end, project, tracking code, and the
/// duration in three forms, with empty columns between them.
pub open spec fn csv_header_cells() -> Seq<Seq<char>> {
    seq![
        ""@,
        "start"@,
        ""@,
        ""@,
        ""@,
        "end"@,
        ""@,
        ""@,
        ""@,
        "proj"@,
        "tracking code"@,
        ""@,
        ""@,
        "duration"@,
        "min"@,
        "h"@,
    ]
}

pub fn csv_header() -> (cells: Vec<String>)
    ensures
        views(cells@) == csv_header_cells(),
{
    let mut cells: Vec<String> = Vec::new();
    cells.push("".to_owned());
    cells.push("start".to_owned());
    cells.push("".to_owned());
    cells.push("".to_owned());
    cells.push("".to_owned());
    cells.push("end".to_owned());
    cells.push("".to_owned());
    cells.push("".to_owned());
    cells.push("".to_owned());
    cells.push("proj".to_owned());
    cells.push("tracking code".to_owned());
    cells.push("".to_owned());
    cells.push("".to_owned());
    cells.push("duration".to_owned());
    cells.push("min".to_owned());
    cells.push("h".to_owned());
    cells
}

/// The cells of a block's row, but for the last one, which gives the
/// duration in hours: hour, minute and time of the start and of the end,
/// the project, the ticket, the description, and the duration as a time
/// and in minutes. The end is a time of day: midnight is written as 0.
pub open spec fn csv_cells(item: TimeItemView, default_project_key: Seq<char>) -> Seq<Seq<char>> {
    let end = (item.start_time + item.duration) % (MINUTES_PER_DAY as int);
    let project = project_key_of(item.project, default_project_key);
    seq![
        ""@,
        decimal((item.start_time / 60) as nat),
        decimal((item.start_time % 60) as nat),
        clock_text_seconds((item.start_time * 60) as nat),
        ""@,
        decimal((end / 60) as nat),
        decimal((end % 60) as nat),
        clock_text_seconds((end * 60) as nat),
        ""@,
        if project == BREAK_PROJECT_KEY@ {
            BREAK_DISPLAY_NAME@
        } else {
            project
        },
        item.ticket,
        ""@,
        item.description,
        clock_text_seconds((item.duration * 60) as nat),
        decimal(item.duration as nat),
    ]
}

/// A block's row: its cells but for the last, and the duration in seconds
/// from which the last one is written.
#[derive(Debug)]
pub struct CsvRecord {
    pub cells: Vec<String>,
    pub duration_secs: u64,
}

fn number(n: u32) -> (text: String)
    ensures
        text@ == decimal(n as nat),
{
    let mut text = String::new();
    push_decimal(&mut text, n as u64);
    text
}

/// The row of a block. A block without duration has none.
pub fn csv_record(item: &TimeItem, default_project_key: &str) -> (record: Option<CsvRecord>)
    ensures
        record.is_some() == (item.duration != 0),
        record matches Some(r) ==> views(r.cells@) == csv_cells(item@, default_project_key@)
            && r.duration_secs == item.duration * 60,
{
    if item.duration == 0 {
        return None;
    }
    let start = item.start_time;
    let end = ((item.start_time as u64 + item.duration as u64) % (MINUTES_PER_DAY as u64)) as u32;
    let project = get_project_key(item.project.as_str(), default_project_key);
    let shown = if same_text(project.as_str(), BREAK_PROJECT_KEY) {
        BREAK_DISPLAY_NAME.to_owned()
    } else {
        project
    };
    let duration_secs = item.duration as u64 * 60;
    let mut cells: Vec<String> = Vec::new();
    cells.push("".to_owned());
    cells.push(number(start / 60));
    cells.push(number(start % 60));
    cells.push(format_duration_hms(start as u64 * 60));
    cells.push("".to_owned());
    cells.push(number(end / 60));
    cells.push(number(end % 60));
    cells.push(format_duration_hms(end as u64 * 60));
    cells.push("".to_owned());
    cells.push(shown);
    cells.push(item.ticket.clone());
    cells.push("".to_owned());
    cells.push(item.description.clone());
    cells.push(format_duration_hms(duration_secs));
    cells.push(number(item.duration));
    Some(CsvRecord { cells, duration_secs })
}

/// The rows of the day's blocks, in their order.
pub open spec fn csv_rows(items: Seq<TimeItemView>, default_project_key: Seq<char>, upto: int) -> Seq<
    Seq<Seq<char>>,
>
    decreases upto,
{
    if upto <= 0 {
        Seq::empty()
    } else if items[upto - 1].duration != 0 {
        csv_rows(items, default_project_key, upto - 1).push(
            csv_cells(items[upto - 1], default_project_key),
        )
    } else {
        csv_rows(items, default_project_key, upto - 1)
    }
}

pub open spec fn record_cells(records: Seq<CsvRecord>) -> Seq<Seq<Seq<char>>> {
    Seq::new(records.len(), |i: int| views(records[i].cells@))
}

/// The rows of the day, one for each block that has a duration.
pub fn csv_records(items: &Vec<TimeItem>, default_project_key: &str) -> (records: Vec<CsvRecord>)
    ensures
        record_cells(records@) == csv_rows(
            views(items@),
            default_project_key@,
            items.len() as int,
        ),
{
    let mut records: Vec<CsvRecord> = Vec::new();
    let count = items.len();
    let mut i: usize = 0;
    while i < count
        invariant
            count == items.len(),
            i <= count,
            record_cells(records@) == csv_rows(views(items@), default_project_key@, i as int),
        decreases count - i,
    {
        match csv_record(&items[i], default_project_key) {
            Some(record) => {
                records.push(record);
            },
            None => {},
        }
        i += 1;
    }
    records
}

// ---------------------------------------------------------------- JSON

/// What kind of project a key names.
#[derive(Debug, Clone, Copy)]
pub enum ProjectKind {
    /// A project that is not configured.
    AdHoc,
    Configured,
    /// The project under which breaks are booked.
    SpecialBreak,
}

/// A project as the day's export lists it.
#[derive(Debug)]
pub struct JsonProject {
    pub key: String,
    pub internal_name: String,
    pub kind: ProjectKind,
}

pub struct JsonProjectView {
    pub key: Seq<char>,
    pub internal_name: Seq<char>,
    pub kind: ProjectKind,
}

impl View for JsonProject {
    type V = JsonProjectView;

    open spec fn view(&self) -> JsonProjectView {
        JsonProjectView { key: self.key@, internal_name: self.internal_name@, kind: self.kind }
    }
}

/// A block as the day's export lists it.
#[derive(Debug)]
pub struct JsonEntry {
    pub start: String,
    pub end: String,
    pub project_key: String,
    pub ticket: Option<String>,
    pub duration_mins: u64,
    pub description: String,
}

pub struct JsonEntryView {
    pub start: Seq<char>,
    pub end: Seq<char>,
    pub project_key: Seq<char>,
    pub ticket: Option<Seq<char>>,
    pub duration_mins: int,
    pub description: Seq<char>,
}

impl View for JsonEntry {
    type V = JsonEntryView;

    open spec fn view(&self) -> JsonEntryView {
        JsonEntryView {
            start: self.start@,
            end: self.end@,
            project_key: self.project_key@,
            ticket: option_text(self.ticket),
            duration_mins: self.duration_mins as int,
            description: self.description@,
        }
    }
}

/// What the export tells of the project `key`: its configured name, or
/// the key itself where it is not configured, and its kind.
pub open spec fn json_project_of(key: Seq<char>, config: Config) -> JsonProjectView {
    let known = project_index(config.projects@, key, 0);
    JsonProjectView {
        key,
        internal_name: match known {
            Some(at) => config.projects@[at].1.internal_name@,
            None => key,
        },
        kind: if key == BREAK_PROJECT_KEY@ {
            ProjectKind::SpecialBreak
        } else if known.is_some() {
            ProjectKind::Configured
        } else {
            ProjectKind::AdHoc
        },
    }
}

/// What the export tells of a block. The end is a time of day.
pub open spec fn json_entry_of(item: TimeItemView, default_project_key: Seq<char>) -> JsonEntryView {
    JsonEntryView {
        start: clock_text(item.start_time as nat),
        end: clock_text(
            ((item.start_time + item.duration) % (MINUTES_PER_DAY as int)) as nat,
        ),
        project_key: project_key_of(item.project, default_project_key),
        ticket: if item.ticket.len() == 0 {
            None
        } else {
            Some(item.ticket)
        },
        duration_mins: item.duration,
        description: item.description,
    }
}

/// The exported blocks before `upto`: those with a duration, in order.
pub open spec fn json_entries_of(
    items: Seq<TimeItemView>,
    default_project_key: Seq<char>,
    upto: int,
) -> Seq<JsonEntryView>
    decreases upto,
{
    if upto <= 0 {
        Seq::empty()
    } else if items[upto - 1].duration != 0 {
        json_entries_of(items, default_project_key, upto - 1).push(
            json_entry_of(items[upto - 1], default_project_key),
        )
    } else {
        json_entries_of(items, default_project_key, upto - 1)
    }
}

/// Where the project `key` stands among the projects, from `from` on.
pub open spec fn listed_at(projects: Seq<JsonProjectView>, key: Seq<char>, from: int) -> Option<
    int,
>
    decreases projects.len() - from,
{
    if 0 <= from < projects.len() {
        if projects[from].key == key {
            Some(from)
        } else {
            listed_at(projects, key, from + 1)
        }
    } else {
        None
    }
}

/// The projects of the blocks before `upto` that have a duration, each
/// once, in the order in which the blocks first name them.
pub open spec fn json_projects_of(
    items: Seq<TimeItemView>,
    default_project_key: Seq<char>,
    config: Config,
    upto: int,
) -> Seq<JsonProjectView>
    decreases upto,
{
    if upto <= 0 {
        Seq::empty()
    } else {
        let before = json_projects_of(items, default_project_key, config, upto - 1);
        let key = project_key_of(items[upto - 1].project, default_project_key);
        if items[upto - 1].duration != 0 && listed_at(before, key, 0).is_none() {
            before.push(json_project_of(key, config))
        } else {
            before
        }
    }
}

/// The blocks of the day as the export lists them.
pub fn json_entries(items: &Vec<TimeItem>, default_project_key: &str) -> (entries: Vec<JsonEntry>)
    ensures
        views(entries@) == json_entries_of(
            views(items@),
            default_project_key@,
            items.len() as int,
        ),
{
    let mut entries: Vec<JsonEntry> = Vec::new();
    let count = items.len();
    let mut i: usize = 0;
    while i < count
        invariant
            count == items.len(),
            i <= count,
            views(entries@) == json_entries_of(views(items@), default_project_key@, i as int),
        decreases count - i,
    {
        let item = &items[i];
        if item.duration != 0 {
            let end = ((item.start_time as u64 + item.duration as u64) % (MINUTES_PER_DAY as u64)) as u32;
            let entry = JsonEntry {
                start: minutes_to_string(item.start_time),
                end: minutes_to_string(end),
                project_key: get_project_key(item.project.as_str(), default_project_key),
                ticket: if item.ticket.as_str().is_empty() {
                    None
                } else {
                    Some(item.ticket.clone())
                },
                duration_mins: item.duration as u64,
                description: item.description.clone(),
            };
            entries.push(entry);
        }
        i += 1;
    }
    entries
}

fn is_listed(projects: &Vec<JsonProject>, key: &str) -> (listed: bool)
    ensures
        listed == listed_at(views(projects@), key@, 0).is_some(),
{
    let count = projects.len();
    let mut at: usize = 0;
    while at < count
        invariant
            count == projects.len(),
            at <= count,
            listed_at(views(projects@), key@, 0) == listed_at(views(projects@), key@, at as int),
        decreases count - at,
    {
        if same_text(projects[at].key.as_str(), key) {
            return true;
        }
        at += 1;
    }
    false
}

/// The projects that the day's blocks name, as the export lists them.
pub fn json_projects(items: &Vec<TimeItem>, default_project_key: &str, config: &Config) -> (projects:
    Vec<JsonProject>)
    ensures
        views(projects@) == json_projects_of(
            views(items@),
            default_project_key@,
            *config,
            items.len() as int,
        ),
{
    let mut projects: Vec<JsonProject> = Vec::new();
    let count = items.len();
    let mut i: usize = 0;
    while i < count
        invariant
            count == items.len(),
            i <= count,
            views(projects@) == json_projects_of(
                views(items@),
                default_project_key@,
                *config,
                i as int,
            ),
        decreases count - i,
    {
        let item = &items[i];
        let key = get_project_key(item.project.as_str(), default_project_key);
        if item.duration != 0 && !is_listed(&projects, key.as_str()) {
            let known = config.project(key.as_str());
            let is_break = same_text(key.as_str(), BREAK_PROJECT_KEY);
            let project = JsonProject {
                internal_name: match known {
                    Some(project) => project.internal_name.clone(),
                    None => key.clone(),
                },
                kind: if is_break {
                    ProjectKind::SpecialBreak
                } else if known.is_some() {
                    ProjectKind::Configured
                } else {
                    ProjectKind::AdHoc
                },
                key,
            };
            projects.push(project);
        }
        i += 1;
    }
    projects
}

} // verus!
