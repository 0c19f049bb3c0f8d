//! A day summed up: the time on each ticket of each project, the breaks,
//! and when work started and ended.

use vstd::prelude::*;
use crate::clock::{clock_text, minutes_to_string};
use crate::config::{project_index, Config, ProjectConfig};
use crate::persist::model::{TimeEntry, TimeEntryView};
use crate::seqs::views;
use crate::shared::defrag::{parse_time_to_minutes, time_to_minutes};
use crate::shared::BREAK_PROJECT_KEY;
use crate::text::{is_text_le, option_text, same_text, text_le};

verus! {

/// The ticket under which time without a ticket is summed.
pub const NO_TICKET: &'static str = "-";

/// The name shown for a project that is not configured.
pub const UNKNOWN_PROJECT_NAME: &'static str = "\u{2754}";

/// The time on each ticket of one project, in minutes. No ticket stands
/// twice.
#[derive(Debug)]
pub struct ProjectSummary {
    pub config: Option<ProjectConfig>,
    pub ticket_sums: Vec<(String, i64)>,
    /// The earliest start among the project's entries.
    pub first_start: Option<String>,
}

pub struct ProjectSummaryView {
    pub config: Option<ProjectConfig>,
    pub ticket_sums: Seq<(Seq<char>, int)>,
    pub first_start: Option<Seq<char>>,
}

pub open spec fn sums_view(sums: Seq<(String, i64)>) -> Seq<(Seq<char>, int)> {
    Seq::new(sums.len(), |i: int| (sums[i].0@, sums[i].1 as int))
}

impl View for ProjectSummary {
    type V = ProjectSummaryView;

    open spec fn view(&self) -> ProjectSummaryView {
        ProjectSummaryView {
            config: self.config,
            ticket_sums: sums_view(self.ticket_sums@),
            first_start: option_text(self.first_start),
        }
    }
}

/// A break as it was entered.
#[derive(Debug)]
pub struct BreakSummary {
    pub start_time: String,
    pub duration_mins: u32,
}

pub struct BreakSummaryView {
    pub start_time: Seq<char>,
    pub duration_mins: u32,
}

impl View for BreakSummary {
    type V = BreakSummaryView;

    open spec fn view(&self) -> BreakSummaryView {
        BreakSummaryView { start_time: self.start_time@, duration_mins: self.duration_mins }
    }
}

/// The summary of a day. No project stands twice; the projects stand in
/// the order in which the day's entries first name them.
#[derive(Debug)]
pub struct TimesheetSummary {
    pub projects: Vec<(String, ProjectSummary)>,
    pub start_time: Option<String>,
    pub end_time: Option<String>,
    pub breaks: Vec<BreakSummary>,
}

pub type Projects = Seq<(Seq<char>, ProjectSummaryView)>;

pub open spec fn projects_view(projects: Seq<(String, ProjectSummary)>) -> Projects {
    Seq::new(projects.len(), |i: int| (projects[i].0@, projects[i].1@))
}

pub struct TimesheetSummaryView {
    pub projects: Projects,
    pub start_time: Option<Seq<char>>,
    pub end_time: Option<Seq<char>>,
    pub breaks: Seq<BreakSummaryView>,
}

impl View for TimesheetSummary {
    type V = TimesheetSummaryView;

    open spec fn view(&self) -> TimesheetSummaryView {
        TimesheetSummaryView {
            projects: projects_view(self.projects@),
            start_time: option_text(self.start_time),
            end_time: option_text(self.end_time),
            breaks: views(self.breaks@),
        }
    }
}

/// Where the ticket `ticket` stands among the sums, from `from` on.
pub open spec fn ticket_index(sums: Seq<(Seq<char>, int)>, ticket: Seq<char>, from: int) -> Option<
    int,
>
    decreases sums.len() - from,
{
    if 0 <= from < sums.len() {
        if sums[from].0 == ticket {
            Some(from)
        } else {
            ticket_index(sums, ticket, from + 1)
        }
    } else {
        None
    }
}

/// Where the project `key` stands among the projects, from `from` on.
pub open spec fn summary_index(projects: Projects, key: Seq<char>, from: int) -> Option<int>
    decreases projects.len() - from,
{
    if 0 <= from < projects.len() {
        if projects[from].0 == key {
            Some(from)
        } else {
            summary_index(projects, key, from + 1)
        }
    } else {
        None
    }
}

/// The sums with `minutes` more on `ticket`.
pub open spec fn with_minutes(sums: Seq<(Seq<char>, int)>, ticket: Seq<char>, minutes: int) -> Seq<
    (Seq<char>, int),
> {
    match ticket_index(sums, ticket, 0) {
        Some(at) => sums.update(at, (ticket, sums[at].1 + minutes)),
        None => sums.push((ticket, minutes)),
    }
}

/// The earlier of two start times, by the order of the dictionary.
pub open spec fn earlier(first: Option<Seq<char>>, start: Seq<char>) -> Option<Seq<char>> {
    match first {
        Some(known) => if text_le(known, start, 0) {
            Some(known)
        } else {
            Some(start)
        },
        None => Some(start),
    }
}

/// The later of two end times, by the order of the dictionary.
pub open spec fn later(last: Option<Seq<char>>, end: Seq<char>) -> Option<Seq<char>> {
    match last {
        Some(known) => if text_le(end, known, 0) {
            Some(known)
        } else {
            Some(end)
        },
        None => Some(end),
    }
}

/// What is configured for the project `key`.
pub open spec fn configured(config: Config, key: Seq<char>) -> Option<ProjectConfig> {
    match project_index(config.projects@, key, 0) {
        Some(at) => Some(config.projects@[at].1),
        None => None,
    }
}

/// The ticket that an entry counts for.
pub open spec fn ticket_of(entry: TimeEntryView) -> Seq<char> {
    match entry.ticket_key {
        Some(key) => key,
        None => NO_TICKET@,
    }
}

/// The projects with one more entry counted. An entry without duration
/// counts for nothing.
pub open spec fn with_entry(projects: Projects, entry: TimeEntryView, config: Config) -> Projects {
    if entry.duration_mins == 0 {
        projects
    } else {
        match summary_index(projects, entry.project_key, 0) {
            Some(at) => projects.update(
                at,
                (
                    entry.project_key,
                    ProjectSummaryView {
                        ticket_sums: with_minutes(
                            projects[at].1.ticket_sums,
                            ticket_of(entry),
                            entry.duration_mins,
                        ),
                        first_start: earlier(projects[at].1.first_start, entry.start_time),
                        ..projects[at].1
                    },
                ),
            ),
            None => projects.push(
                (
                    entry.project_key,
                    ProjectSummaryView {
                        config: configured(config, entry.project_key),
                        ticket_sums: seq![(ticket_of(entry), entry.duration_mins)],
                        first_start: Some(entry.start_time),
                    },
                ),
            ),
        }
    }
}

/// The projects of the entries before `upto`.
pub open spec fn summed(entries: Seq<TimeEntryView>, upto: int, config: Config) -> Projects
    decreases upto,
{
    if upto <= 0 {
        Seq::empty()
    } else {
        with_entry(summed(entries, upto - 1, config), entries[upto - 1], config)
    }
}

/// The earliest start among the entries before `upto` that have a
/// duration.
pub open spec fn first_start(entries: Seq<TimeEntryView>, upto: int) -> Option<Seq<char>>
    decreases upto,
{
    if upto <= 0 {
        None
    } else if entries[upto - 1].duration_mins > 0 {
        earlier(first_start(entries, upto - 1), entries[upto - 1].start_time)
    } else {
        first_start(entries, upto - 1)
    }
}

/// When an entry ends, as a text, if its start can be read and its end
/// can be counted.
pub open spec fn end_of(entry: TimeEntryView) -> Option<Seq<char>> {
    match time_to_minutes(entry.start_time) {
        Some(start) => if entry.duration_mins > 0 && start + entry.duration_mins <= u32::MAX {
            Some(clock_text((start + entry.duration_mins) as nat))
        } else {
            None
        },
        None => None,
    }
}

/// The latest end among the entries before `upto` that have a duration.
pub open spec fn last_end(entries: Seq<TimeEntryView>, upto: int) -> Option<Seq<char>>
    decreases upto,
{
    if upto <= 0 {
        None
    } else {
        match end_of(entries[upto - 1]) {
            Some(end) => later(last_end(entries, upto - 1), end),
            None => last_end(entries, upto - 1),
        }
    }
}

/// The breaks among the entries before `upto`, in their order.
pub open spec fn breaks_of(entries: Seq<TimeEntryView>, upto: int) -> Seq<BreakSummaryView>
    decreases upto,
{
    if upto <= 0 {
        Seq::empty()
    } else {
        let entry = entries[upto - 1];
        if entry.project_key == BREAK_PROJECT_KEY@ && entry.duration_mins > 0 {
            breaks_of(entries, upto - 1).push(
                BreakSummaryView {
                    start_time: entry.start_time,
                    duration_mins: entry.duration_mins as u32,
                },
            )
        } else {
            breaks_of(entries, upto - 1)
        }
    }
}

/// The summary of a day with these entries.
pub open spec fn summary_of(entries: Seq<TimeEntryView>, config: Config) -> TimesheetSummaryView {
    TimesheetSummaryView {
        projects: summed(entries, entries.len() as int, config),
        start_time: first_start(entries, entries.len() as int),
        end_time: last_end(entries, entries.len() as int),
        breaks: breaks_of(entries, entries.len() as int),
    }
}

/// All the minutes of the entries before `upto`, each taken without its
/// sign.
pub open spec fn minutes_in_all(entries: Seq<TimeEntryView>, upto: int) -> int
    decreases upto,
{
    if upto <= 0 {
        0
    } else {
        minutes_in_all(entries, upto - 1) + if entries[upto - 1].duration_mins < 0 {
            -entries[upto - 1].duration_mins
        } else {
            entries[upto - 1].duration_mins
        }
    }
}

/// No sum of the projects is beyond `bound`, either way.
pub open spec fn sums_within(projects: Projects, bound: int) -> bool {
    forall|p: int, t: int|
        0 <= p < projects.len() && 0 <= t < projects[p].1.ticket_sums.len() ==> -bound <= (
        #[trigger] projects[p].1.ticket_sums[t]).1 <= bound
}

/// The minutes on the tickets before `upto`, added up.
pub open spec fn ticket_total(sums: Seq<(Seq<char>, int)>, upto: int) -> int
    decreases upto,
{
    if upto <= 0 {
        0
    } else {
        ticket_total(sums, upto - 1) + sums[upto - 1].1
    }
}

/// The same, each sum taken without its sign.
pub open spec fn ticket_weight(sums: Seq<(Seq<char>, int)>, upto: int) -> int
    decreases upto,
{
    if upto <= 0 {
        0
    } else {
        ticket_weight(sums, upto - 1) + if sums[upto - 1].1 < 0 {
            -sums[upto - 1].1
        } else {
            sums[upto - 1].1
        }
    }
}

/// The minutes of work in the projects before `upto`: breaks do not count.
pub open spec fn work_total(projects: Projects, upto: int) -> int
    decreases upto,
{
    if upto <= 0 {
        0
    } else {
        work_total(projects, upto - 1) + if projects[upto - 1].0 == BREAK_PROJECT_KEY@ {
            0
        } else {
            ticket_total(
                projects[upto - 1].1.ticket_sums,
                projects[upto - 1].1.ticket_sums.len() as int,
            )
        }
    }
}

/// All minutes of the projects before `upto`, each sum taken without its
/// sign.
pub open spec fn weight(projects: Projects, upto: int) -> int
    decreases upto,
{
    if upto <= 0 {
        0
    } else {
        weight(projects, upto - 1) + ticket_weight(
            projects[upto - 1].1.ticket_sums,
            projects[upto - 1].1.ticket_sums.len() as int,
        )
    }
}

/// The minutes of the breaks.
pub open spec fn break_total(projects: Projects) -> int {
    match summary_index(projects, BREAK_PROJECT_KEY@, 0) {
        Some(at) => ticket_total(
            projects[at].1.ticket_sums,
            projects[at].1.ticket_sums.len() as int,
        ),
        None => 0,
    }
}

/// The weight of the sums grows with every ticket, and bounds their total
/// from both sides.
pub proof fn lemma_ticket_weight(sums: Seq<(Seq<char>, int)>, from: int, to: int)
    requires
        0 <= from <= to,
    ensures
        0 <= ticket_weight(sums, from) <= ticket_weight(sums, to),
        -ticket_weight(sums, from) <= ticket_total(sums, from) <= ticket_weight(sums, from),
    decreases to,
{
    if from < to {
        lemma_ticket_weight(sums, from, to - 1);
    } else if from > 0 {
        lemma_ticket_weight(sums, from - 1, from - 1);
    }
}

/// The weight of the projects grows with every project, and bounds the
/// working time from both sides.
pub proof fn lemma_weight(projects: Projects, from: int, to: int)
    requires
        0 <= from <= to,
    ensures
        0 <= weight(projects, from) <= weight(projects, to),
        -weight(projects, from) <= work_total(projects, from) <= weight(projects, from),
    decreases to,
{
    if from < to {
        lemma_weight(projects, from, to - 1);
        let sums = projects[to - 1].1.ticket_sums;
        lemma_ticket_weight(sums, sums.len() as int, sums.len() as int);
    } else if from > 0 {
        lemma_weight(projects, from - 1, from - 1);
        let sums = projects[from - 1].1.ticket_sums;
        lemma_ticket_weight(sums, sums.len() as int, sums.len() as int);
    }
}

/// Adds up the minutes on the tickets.
fn sum_tickets(sums: &Vec<(String, i64)>) -> (total: i64)
    requires
        ticket_weight(sums_view(sums@), sums.len() as int) <= i64::MAX,
    ensures
        total == ticket_total(sums_view(sums@), sums.len() as int),
{
    let count = sums.len();
    let mut total: i64 = 0;
    let mut t: usize = 0;
    while t < count
        invariant
            count == sums.len(),
            t <= count,
            ticket_weight(sums_view(sums@), count as int) <= i64::MAX,
            total == ticket_total(sums_view(sums@), t as int),
        decreases count - t,
    {
        proof {
            lemma_ticket_weight(sums_view(sums@), t + 1, count as int);
        }
        total = total + sums[t].1;
        t += 1;
    }
    total
}

impl TimesheetSummary {
    /// The minutes of work in the day: all that was summed up, but for the
    /// breaks.
    pub fn calculate_total_duration(&self) -> (minutes: i64)
        requires
            weight(self@.projects, self.projects.len() as int) <= i64::MAX,
        ensures
            minutes == work_total(self@.projects, self.projects.len() as int),
    {
        let ghost projects = self@.projects;
        let count = self.projects.len();
        let mut total: i64 = 0;
        let mut p: usize = 0;
        while p < count
            invariant
                count == self.projects.len(),
                projects == self@.projects,
                p <= count,
                weight(projects, count as int) <= i64::MAX,
                total == work_total(projects, p as int),
            decreases count - p,
        {
            proof {
                lemma_weight(projects, p + 1, count as int);
                lemma_weight(projects, p as int, p as int);
            }
            if !same_text(self.projects[p].0.as_str(), BREAK_PROJECT_KEY) {
                total = total + sum_tickets(&self.projects[p].1.ticket_sums);
            }
            p += 1;
        }
        total
    }

    /// The minutes of the day's breaks.
    pub fn calculate_break_duration(&self) -> (minutes: i64)
        requires
            weight(self@.projects, self.projects.len() as int) <= i64::MAX,
        ensures
            minutes == break_total(self@.projects),
    {
        match find_project(&self.projects, BREAK_PROJECT_KEY) {
            Some(at) => {
                proof {
                    let projects = self@.projects;
                    lemma_weight(projects, at + 1, self.projects.len() as int);
                    lemma_weight(projects, at as int, at as int);
                }
                sum_tickets(&self.projects[at].1.ticket_sums)
            },
            None => 0,
        }
    }
}

impl ProjectSummary {
    /// The name of the project as it is shown.
    pub fn display_name(&self) -> (name: &str)
        ensures
            name@ == match self.config {
                Some(config) => config.internal_name@,
                None => UNKNOWN_PROJECT_NAME@,
            },
    {
        match &self.config {
            Some(config) => config.internal_name.as_str(),
            None => UNKNOWN_PROJECT_NAME,
        }
    }
}

fn find_ticket(sums: &Vec<(String, i64)>, ticket: &str) -> (found: Option<usize>)
    ensures
        match found {
            Some(at) => ticket_index(sums_view(sums@), ticket@, 0) == Some(at as int) && at
                < sums.len() && sums@[at as int].0@ == ticket@,
            None => ticket_index(sums_view(sums@), ticket@, 0).is_none(),
        },
{
    let count = sums.len();
    let mut at: usize = 0;
    while at < count
        invariant
            count == sums.len(),
            at <= count,
            ticket_index(sums_view(sums@), ticket@, 0) == ticket_index(
                sums_view(sums@),
                ticket@,
                at as int,
            ),
        decreases count - at,
    {
        if same_text(sums[at].0.as_str(), ticket) {
            return Some(at);
        }
        at += 1;
    }
    None
}

fn find_project(projects: &Vec<(String, ProjectSummary)>, key: &str) -> (found: Option<usize>)
    ensures
        match found {
            Some(at) => summary_index(projects_view(projects@), key@, 0) == Some(at as int) && at
                < projects.len() && projects@[at as int].0@ == key@,
            None => summary_index(projects_view(projects@), key@, 0).is_none(),
        },
{
    let count = projects.len();
    let mut at: usize = 0;
    while at < count
        invariant
            count == projects.len(),
            at <= count,
            summary_index(projects_view(projects@), key@, 0) == summary_index(
                projects_view(projects@),
                key@,
                at as int,
            ),
        decreases count - at,
    {
        if same_text(projects[at].0.as_str(), key) {
            return Some(at);
        }
        at += 1;
    }
    None
}

/// Counts `minutes` more on `ticket`.
fn add_minutes(sums: &mut Vec<(String, i64)>, ticket: &str, minutes: i64, bound: Ghost<int>)
    requires
        forall|t: int| 0 <= t < old(sums).len() ==> -bound@ <= (#[trigger] old(sums)@[t]).1 <= bound@,
        bound@ >= 0,
        bound@ + (if minutes < 0 {
            -minutes
        } else {
            minutes as int
        }) <= i64::MAX,
    ensures
        sums_view(final(sums)@) == with_minutes(sums_view(old(sums)@), ticket@, minutes as int),
        forall|t: int|
            0 <= t < final(sums).len() ==> -(bound@ + (if minutes < 0 {
                -minutes
            } else {
                minutes as int
            })) <= (#[trigger] final(sums)@[t]).1 <= bound@ + (if minutes < 0 {
                -minutes
            } else {
                minutes as int
            }),
{
    match find_ticket(sums, ticket) {
        Some(at) => {
            let sum = sums[at].1 + minutes;
            sums[at].1 = sum;
        },
        None => {
            sums.push((ticket.to_owned(), minutes));
        },
    }
}

/// The earlier of a known start and another one.
fn take_earlier(first: &mut Option<String>, start: &str)
    ensures
        option_text(*final(first)) == earlier(option_text(*old(first)), start@),
{
    let keep = match first {
        Some(known) => is_text_le(known.as_str(), start),
        None => false,
    };
    if !keep {
        *first = Some(start.to_owned());
    }
}

/// The later of a known end and another one.
fn take_later(last: &mut Option<String>, end: String)
    ensures
        option_text(*final(last)) == later(option_text(*old(last)), end@),
{
    let keep = match last {
        Some(known) => is_text_le(end.as_str(), known.as_str()),
        None => false,
    };
    if !keep {
        *last = Some(end);
    }
}

/// When the entry ends, as a text.
fn entry_end(entry: &TimeEntry) -> (end: Option<String>)
    ensures
        option_text(end) == end_of(entry@),
{
    match parse_time_to_minutes(entry.start_time.as_str()) {
        Some(start) => {
            if entry.duration_mins > 0 && start as u64 + entry.duration_mins as u64 <= 0xffff_ffff {
                Some(minutes_to_string(start + entry.duration_mins as u32))
            } else {
                None
            }
        },
        None => None,
    }
}

/// Whether the minutes of the entries can be added up, which a summary
/// needs.
pub fn can_be_summed(entries: &Vec<TimeEntry>) -> (fits: bool)
    ensures
        fits == (minutes_in_all(views(entries@), entries.len() as int) <= i64::MAX),
{
    let ghost all = views(entries@);
    let count = entries.len();
    let mut total: u64 = 0;
    let mut i: usize = 0;
    while i < count
        invariant
            count == entries.len(),
            all == views(entries@),
            i <= count,
            total == minutes_in_all(all, i as int),
            total <= i64::MAX,
        decreases count - i,
    {
        let minutes = entries[i].duration_mins;
        let size: u64 = if minutes < 0 {
            (-(minutes as i64)) as u64
        } else {
            minutes as u64
        };
        if size > 0x7fff_ffff_ffff_ffff - total {
            proof {
                lemma_minutes_in_all_grow(all, i + 1, count as int);
            }
            return false;
        }
        total = total + size;
        i += 1;
    }
    true
}

impl TimesheetSummary {
    /// Sums up the day's entries. `config` tells what is known of the
    /// projects.
    pub fn new(entries: Vec<TimeEntry>, config: &Config) -> (summary: Self)
        requires
            minutes_in_all(views(entries@), entries.len() as int) <= i64::MAX,
        ensures
            summary@ == summary_of(views(entries@), *config),
            names_distinct(summary@.projects),
    {
        let ghost all = views(entries@);
        proof {
            lemma_summary_names_are_distinct(all, all.len() as int, *config);
        }
        let count = entries.len();
        let mut projects: Vec<(String, ProjectSummary)> = Vec::new();
        let mut start_time: Option<String> = None;
        let mut end_time: Option<String> = None;
        let mut breaks: Vec<BreakSummary> = Vec::new();
        let mut i: usize = 0;
        proof {
            lemma_minutes_in_all_grow(all, 0, count as int);
        }
        while i < count
            invariant
                count == entries.len(),
                all == views(entries@),
                i <= count,
                minutes_in_all(all, count as int) <= i64::MAX,
                0 <= minutes_in_all(all, i as int) <= minutes_in_all(all, count as int),
                projects_view(projects@) == summed(all, i as int, *config),
                sums_within(projects_view(projects@), minutes_in_all(all, i as int)),
                option_text(start_time) == first_start(all, i as int),
                option_text(end_time) == last_end(all, i as int),
                views(breaks@) == breaks_of(all, i as int),
            decreases count - i,
        {
            let entry = &entries[i];
            let ghost bound = minutes_in_all(all, i as int);
            let ghost before = projects@;
            proof {
                lemma_minutes_in_all_grow(all, i + 1, count as int);
            }
            if entry.duration_mins != 0 {
                let ticket: &str = match &entry.ticket_key {
                    Some(key) => key.as_str(),
                    None => NO_TICKET,
                };
                match find_project(&projects, entry.project_key.as_str()) {
                    Some(at) => {
                        assert forall|t: int|
                            0 <= t < projects@[at as int].1.ticket_sums.len() implies -bound <= (
                        #[trigger] projects@[at as int].1.ticket_sums@[t]).1 <= bound by {
                            assert(projects_view(projects@)[at as int].1.ticket_sums[t].1
                                == projects@[at as int].1.ticket_sums@[t].1);
                        }
                        add_minutes(
                            &mut projects[at].1.ticket_sums,
                            ticket,
                            entry.duration_mins as i64,
                            Ghost(bound),
                        );
                        take_earlier(&mut projects[at].1.first_start, entry.start_time.as_str());
                    },
                    None => {
                        let mut ticket_sums: Vec<(String, i64)> = Vec::new();
                        ticket_sums.push((ticket.to_owned(), entry.duration_mins as i64));
                        let known = match config.project(entry.project_key.as_str()) {
                            Some(project) => Some(project.clone()),
                            None => None,
                        };
                        let summary = ProjectSummary {
                            config: known,
                            ticket_sums,
                            first_start: Some(entry.start_time.clone()),
                        };
                        projects.push((entry.project_key.clone(), summary));
                        proof {
                            assert(summary@.ticket_sums =~= seq![
                                (ticket_of(entry@), entry.duration_mins as int),
                            ]);
                        }
                    },
                }
            }
            proof {
                let next_bound = minutes_in_all(all, i + 1);
                let now = projects_view(projects@);
                assert forall|p: int, t: int|
                    0 <= p < now.len() && 0 <= t < now[p].1.ticket_sums.len() implies -next_bound
                    <= (#[trigger] now[p].1.ticket_sums[t]).1 <= next_bound by {
                    let was = projects_view(before);
                    if entry.duration_mins != 0 && summary_index(
                        was,
                        entry@.project_key,
                        0,
                    ).is_none() && p < was.len() {
                        assert(-bound <= was[p].1.ticket_sums[t].1 <= bound);
                    }
                }
            }
            if entry.duration_mins > 0 {
                take_earlier(&mut start_time, entry.start_time.as_str());
            }
            match entry_end(entry) {
                Some(end) => {
                    take_later(&mut end_time, end);
                },
                None => {},
            }
            if entry.duration_mins > 0 && same_text(entry.project_key.as_str(), BREAK_PROJECT_KEY) {
                let taken = BreakSummary {
                    start_time: entry.start_time.clone(),
                    duration_mins: entry.duration_mins as u32,
                };
                breaks.push(taken);
            }
            i += 1;
        }
        TimesheetSummary { projects, start_time, end_time, breaks }
    }
}

/// No ticket stands twice among the sums.
pub open spec fn tickets_distinct(sums: Seq<(Seq<char>, int)>) -> bool {
    forall|i: int, j: int| 0 <= i < j < sums.len() ==> (#[trigger] sums[i]).0 != (#[trigger] sums[j]).0
}

/// No project stands twice, and no ticket stands twice within a project.
pub open spec fn names_distinct(projects: Projects) -> bool {
    &&& forall|i: int, j: int|
        0 <= i < j < projects.len() ==> (#[trigger] projects[i]).0 != (#[trigger] projects[j]).0
    &&& forall|p: int| 0 <= p < projects.len() ==> tickets_distinct((#[trigger] projects[p]).1.ticket_sums)
}

/// A ticket that is not found stands nowhere; one that is found stands
/// where it was found.
pub proof fn lemma_ticket_index(sums: Seq<(Seq<char>, int)>, ticket: Seq<char>, from: int)
    requires
        0 <= from <= sums.len(),
    ensures
        match ticket_index(sums, ticket, from) {
            Some(at) => from <= at < sums.len() && sums[at].0 == ticket,
            None => forall|i: int| from <= i < sums.len() ==> (#[trigger] sums[i]).0 != ticket,
        },
    decreases sums.len() - from,
{
    if from < sums.len() && sums[from].0 != ticket {
        lemma_ticket_index(sums, ticket, from + 1);
    }
}

/// A project that is not found stands nowhere; one that is found stands
/// where it was found.
pub proof fn lemma_summary_index(projects: Projects, key: Seq<char>, from: int)
    requires
        0 <= from <= projects.len(),
    ensures
        match summary_index(projects, key, from) {
            Some(at) => from <= at < projects.len() && projects[at].0 == key,
            None => forall|i: int| from <= i < projects.len() ==> (#[trigger] projects[i]).0 != key,
        },
    decreases projects.len() - from,
{
    if from < projects.len() && projects[from].0 != key {
        lemma_summary_index(projects, key, from + 1);
    }
}

/// Counting minutes on a ticket keeps the tickets distinct.
pub proof fn lemma_with_minutes_distinct(sums: Seq<(Seq<char>, int)>, ticket: Seq<char>, minutes: int)
    requires
        tickets_distinct(sums),
    ensures
        tickets_distinct(with_minutes(sums, ticket, minutes)),
{
    lemma_ticket_index(sums, ticket, 0);
}

/// A summary names every project once, and every ticket once within its
/// project.
pub proof fn lemma_summary_names_are_distinct(entries: Seq<TimeEntryView>, upto: int, config: Config)
    requires
        0 <= upto <= entries.len(),
    ensures
        names_distinct(summed(entries, upto, config)),
    decreases upto,
{
    if upto > 0 {
        lemma_summary_names_are_distinct(entries, upto - 1, config);
        let before = summed(entries, upto - 1, config);
        let entry = entries[upto - 1];
        if entry.duration_mins != 0 {
            lemma_summary_index(before, entry.project_key, 0);
            match summary_index(before, entry.project_key, 0) {
                Some(at) => {
                    lemma_with_minutes_distinct(
                        before[at].1.ticket_sums,
                        ticket_of(entry),
                        entry.duration_mins,
                    );
                },
                None => {},
            }
        }
    }
}

/// The minutes of the entries, taken without their signs, grow with every
/// entry.
pub proof fn lemma_minutes_in_all_grow(entries: Seq<TimeEntryView>, from: int, to: int)
    requires
        0 <= from <= to,
    ensures
        0 <= minutes_in_all(entries, from) <= minutes_in_all(entries, to),
    decreases to - from,
{
    if from < to {
        lemma_minutes_in_all_grow(entries, from, to - 1);
    } else {
        lemma_minutes_in_all_nonnegative(entries, from);
    }
}

/// The minutes of the entries, taken without their signs, are never less
/// than nothing.
pub proof fn lemma_minutes_in_all_nonnegative(entries: Seq<TimeEntryView>, upto: int)
    ensures
        0 <= minutes_in_all(entries, upto),
    decreases upto,
{
    if upto > 0 {
        lemma_minutes_in_all_nonnegative(entries, upto - 1);
    }
}

} // verus!
