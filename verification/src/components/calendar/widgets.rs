//! The texts of the summary panel: one row for each ticket, and a line of
//! totals.

use vstd::prelude::*;
use crate::seqs::views;
use crate::shared::summary::{
    break_total, lemma_ticket_weight, lemma_weight, sums_view, ticket_weight, weight, work_total,
    ProjectSummary, ProjectSummaryView, Projects, TimesheetSummary, TimesheetSummaryView,
    NO_TICKET, UNKNOWN_PROJECT_NAME,
};
use crate::shared::BREAK_PROJECT_KEY;
use crate::text::{digit_char, digit_of, push_decimal, same_text, signed_decimal};

verus! {

/// What is shown in place of the project where the row is a break.
pub const BREAK_LABEL: &'static str = "\u{1f3d6}\u{fe0f} Break";

/// What is shown in place of the ticket where time was booked without one
/// on a project that wants tickets.
pub const NO_TICKET_WARNING: &'static str = "\u{203c}\u{fe0f} no ticket \u{203c}\u{fe0f}";

/// The whole hours in a number of minutes, rounded towards nought.
pub open spec fn whole_hours(minutes: int) -> int {
    if minutes >= 0 {
        minutes / 60
    } else {
        -((-minutes) / 60)
    }
}

/// The minutes beyond the whole hours, with the sign of the whole.
pub open spec fn odd_minutes(minutes: int) -> int {
    if minutes >= 0 {
        minutes % 60
    } else {
        -((-minutes) % 60)
    }
}

/// A number at least two characters wide.
pub open spec fn two_wide(n: int) -> Seq<char> {
    if 0 <= n < 10 {
        seq!['0', digit_char(n)]
    } else {
        signed_decimal(n)
    }
}

/// A duration as the panel shows it: hours and minutes, each only where
/// there are any, and a dash for no time at all.
pub open spec fn duration_display(minutes: int) -> Seq<char> {
    let hours = whole_hours(minutes);
    let mins = odd_minutes(minutes);
    if hours == 0 && mins == 0 {
        seq!['-']
    } else if hours == 0 {
        signed_decimal(mins) + seq!['m']
    } else if mins == 0 {
        signed_decimal(hours) + seq!['h']
    } else {
        signed_decimal(hours) + seq!['h', ' '] + two_wide(mins) + seq!['m']
    }
}

/// Appends a number of the given sign and size.
fn push_signed(out: &mut String, negative: bool, size: u64)
    ensures
        final(out)@ == old(out)@ + signed_decimal(
            if negative {
                -(size as int)
            } else {
                size as int
            },
        ),
{
    if negative && size > 0 {
        out.push('-');
        push_decimal(out, size);
    } else {
        push_decimal(out, size);
    }
}

pub fn format_duration_display(minutes: i64) -> (text: String)
    ensures
        text@ == duration_display(minutes as int),
{
    let negative = minutes < 0;
    let size: u64 = if negative {
        (-(minutes as i128)) as u64
    } else {
        minutes as u64
    };
    let hours = size / 60;
    let mins = size % 60;
    let mut text = String::new();
    if hours == 0 && mins == 0 {
        text.push('-');
    } else if hours == 0 {
        push_signed(&mut text, negative, mins);
        text.push('m');
    } else if mins == 0 {
        push_signed(&mut text, negative, hours);
        text.push('h');
    } else {
        push_signed(&mut text, negative, hours);
        text.push('h');
        text.push(' ');
        if !negative && mins < 10 {
            text.push('0');
            text.push(digit_of(mins as u8));
        } else {
            push_signed(&mut text, negative, mins);
        }
        text.push('m');
    }
    text
}

/// The name under which a project is shown.
pub open spec fn display_name_of(project: ProjectSummaryView) -> Seq<char> {
    match project.config {
        Some(config) => config.internal_name@,
        None => UNKNOWN_PROJECT_NAME@,
    }
}

/// A project as the panel shows it: its name and its key, or the label of
/// the breaks.
pub open spec fn project_display(key: Seq<char>, project: ProjectSummaryView) -> Seq<char> {
    if key == BREAK_PROJECT_KEY@ {
        BREAK_LABEL@
    } else {
        display_name_of(project) + seq![' ', '('] + key + seq![')', ' ']
    }
}

pub fn format_project_display(project_key: &str, project_summary: &ProjectSummary) -> (text: String)
    ensures
        text@ == project_display(project_key@, project_summary@),
{
    if same_text(project_key, BREAK_PROJECT_KEY) {
        return BREAK_LABEL.to_owned();
    }
    let mut text = project_summary.display_name().to_owned();
    text.push(' ');
    text.push('(');
    text.append(project_key);
    text.push(')');
    text.push(' ');
    text
}

/// Whether tickets of the project are booked somewhere.
pub open spec fn wants_tickets(project: ProjectSummaryView) -> bool {
    project.config matches Some(config) && config.jira_url.is_some()
}

/// A ticket as the panel shows it: time without a ticket is flagged where
/// the project wants tickets.
pub open spec fn ticket_display(ticket: Seq<char>, project: ProjectSummaryView) -> Seq<char> {
    if ticket == NO_TICKET@ && wants_tickets(project) {
        NO_TICKET_WARNING@
    } else {
        ticket
    }
}

pub fn format_ticket_display(ticket: &str, project_summary: &ProjectSummary) -> (text: String)
    ensures
        text@ == ticket_display(ticket@, project_summary@),
{
    let booked = match &project_summary.config {
        Some(config) => config.jira_url.is_some(),
        None => false,
    };
    if same_text(ticket, NO_TICKET) && booked {
        NO_TICKET_WARNING.to_owned()
    } else {
        ticket.to_owned()
    }
}

/// A row of the panel: project, ticket and duration.
#[derive(Debug)]
pub struct SummaryRow {
    pub project: String,
    pub ticket: String,
    pub duration: String,
}

pub struct SummaryRowView {
    pub project: Seq<char>,
    pub ticket: Seq<char>,
    pub duration: Seq<char>,
}

impl View for SummaryRow {
    type V = SummaryRowView;

    open spec fn view(&self) -> SummaryRowView {
        SummaryRowView { project: self.project@, ticket: self.ticket@, duration: self.duration@ }
    }
}

/// The rows for the tickets of one project before `upto`.
pub open spec fn project_rows(key: Seq<char>, project: ProjectSummaryView, upto: int) -> Seq<
    SummaryRowView,
>
    decreases upto,
{
    if upto <= 0 {
        Seq::empty()
    } else {
        project_rows(key, project, upto - 1).push(
            SummaryRowView {
                project: project_display(key, project),
                ticket: ticket_display(project.ticket_sums[upto - 1].0, project),
                duration: duration_display(project.ticket_sums[upto - 1].1),
            },
        )
    }
}

/// The rows for the projects before `upto`: one for each ticket, the
/// breaks left out.
pub open spec fn data_rows(projects: Projects, upto: int) -> Seq<SummaryRowView>
    decreases upto,
{
    if upto <= 0 {
        Seq::empty()
    } else if projects[upto - 1].0 == BREAK_PROJECT_KEY@ {
        data_rows(projects, upto - 1)
    } else {
        data_rows(projects, upto - 1) + project_rows(
            projects[upto - 1].0,
            projects[upto - 1].1,
            projects[upto - 1].1.ticket_sums.len() as int,
        )
    }
}

/// The rows of the panel.
pub fn create_data_rows(summary: &TimesheetSummary) -> (rows: Vec<SummaryRow>)
    ensures
        views(rows@) == data_rows(summary@.projects, summary.projects.len() as int),
{
    let ghost projects = summary@.projects;
    let mut rows: Vec<SummaryRow> = Vec::new();
    let count = summary.projects.len();
    let mut p: usize = 0;
    while p < count
        invariant
            count == summary.projects.len(),
            projects == summary@.projects,
            p <= count,
            views(rows@) == data_rows(projects, p as int),
        decreases count - p,
    {
        let project_key = &summary.projects[p].0;
        let project_summary = &summary.projects[p].1;
        if !same_text(project_key.as_str(), BREAK_PROJECT_KEY) {
            let ghost so_far = views(rows@);
            let tickets = project_summary.ticket_sums.len();
            let mut t: usize = 0;
            while t < tickets
                invariant
                    tickets == project_summary.ticket_sums.len(),
                    t <= tickets,
                    views(rows@) == so_far + project_rows(
                        project_key@,
                        project_summary@,
                        t as int,
                    ),
                decreases tickets - t,
            {
                let ghost before = views(rows@);
                let ticket = &project_summary.ticket_sums[t].0;
                let minutes = project_summary.ticket_sums[t].1;
                let row = SummaryRow {
                    project: format_project_display(project_key.as_str(), project_summary),
                    ticket: format_ticket_display(ticket.as_str(), project_summary),
                    duration: format_duration_display(minutes),
                };
                rows.push(row);
                proof {
                    assert(views(rows@) =~= before.push(row@));
                }
                t += 1;
            }
        }
        p += 1;
    }
    rows
}

/// The line of totals: the day's start and end where both are known, the
/// working time and the breaks.
pub open spec fn total_line(summary: TimesheetSummaryView) -> Seq<char> {
    let span = match (summary.start_time, summary.end_time) {
        (Some(start), Some(end)) => start + " - "@ + end + " | "@,
        _ => Seq::empty(),
    };
    span + "Working time: "@ + duration_display(
        work_total(summary.projects, summary.projects.len() as int),
    ) + " | Break: "@ + duration_display(break_total(summary.projects))
}

pub fn create_total_line(summary: &TimesheetSummary) -> (text: String)
    requires
        weight(summary@.projects, summary.projects.len() as int) <= i64::MAX,
    ensures
        text@ == total_line(summary@),
{
    let formatted_duration = format_duration_display(summary.calculate_total_duration());
    let formatted_break_duration = format_duration_display(summary.calculate_break_duration());
    let mut text = String::new();
    match &summary.start_time {
        Some(start) => match &summary.end_time {
            Some(end) => {
                text.append(start.as_str());
                text.append(" - ");
                text.append(end.as_str());
                text.append(" | ");
            },
            None => {},
        },
        None => {},
    }
    text.append("Working time: ");
    text.append(formatted_duration.as_str());
    text.append(" | Break: ");
    text.append(formatted_break_duration.as_str());
    text
}

/// Whether the summary's minutes can be added up, which the totals need.
pub fn can_be_totalled(summary: &TimesheetSummary) -> (fits: bool)
    ensures
        fits == (weight(summary@.projects, summary.projects.len() as int) <= i64::MAX),
{
    let ghost projects = summary@.projects;
    let count = summary.projects.len();
    let mut total: u64 = 0;
    let mut p: usize = 0;
    while p < count
        invariant
            count == summary.projects.len(),
            projects == summary@.projects,
            p <= count,
            total == weight(projects, p as int),
            total <= i64::MAX,
        decreases count - p,
    {
        let sums = &summary.projects[p].1.ticket_sums;
        let ghost plain = projects[p as int].1.ticket_sums;
        let tickets = sums.len();
        let mut here: u64 = 0;
        let mut t: usize = 0;
        while t < tickets
            invariant
                tickets == sums.len(),
                plain == sums_view(sums@),
                count == summary.projects.len(),
                projects == summary@.projects,
                p < count,
                plain == projects[p as int].1.ticket_sums,
                total == weight(projects, p as int),
                t <= tickets,
                here == ticket_weight(plain, t as int),
                here <= i64::MAX,
            decreases tickets - t,
        {
            let minutes = sums[t].1;
            let size: u64 = if minutes < 0 {
                (-(minutes as i128)) as u64
            } else {
                minutes as u64
            };
            if size > 0x7fff_ffff_ffff_ffff - here {
                proof {
                    lemma_ticket_weight(plain, t + 1, tickets as int);
                    lemma_weight(projects, p + 1, count as int);
                }
                return false;
            }
            here = here + size;
            t += 1;
        }
        if here > 0x7fff_ffff_ffff_ffff - total {
            proof {
                lemma_weight(projects, p + 1, count as int);
            }
            return false;
        }
        total = total + here;
        p += 1;
    }
    true
}

} // verus!
