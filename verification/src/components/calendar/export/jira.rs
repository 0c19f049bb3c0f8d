//! The address under which a booking is entered.

use vstd::prelude::*;
use crate::seqs::views;
use crate::shared::summary::{
    ProjectSummary, ProjectSummaryView, Projects, TimesheetSummary, TimesheetSummaryView,
    NO_TICKET,
};
use crate::shared::{Day, BREAK_PROJECT_KEY};
use crate::text::{decimal2, push_decimal2, push_signed_decimal64, same_text, signed_decimal};

verus! {

/// `text` without the slashes at its end.
pub open spec fn without_trailing_slashes(text: Seq<char>) -> Seq<char>
    decreases text.len(),
{
    if text.len() > 0 && text.last() == '/' {
        without_trailing_slashes(text.drop_last())
    } else {
        text
    }
}

/// The address that books `minutes` on a ticket, starting at the given
/// date and time.
pub open spec fn booking_url(
    jira_base_url: Seq<char>,
    ticket_key: Seq<char>,
    minutes: int,
    date_str: Seq<char>,
    time_str: Seq<char>,
) -> Seq<char> {
    without_trailing_slashes(jira_base_url) + "/browse/"@ + ticket_key + "?xxLogTime="@
        + signed_decimal(minutes) + "m&xxLogDate="@ + date_str + "%20"@ + time_str
}

/// How many characters of `text` are left without the slashes at its end.
fn trimmed_len(text: &str) -> (len: usize)
    ensures
        len <= text@.len(),
        text@.take(len as int) == without_trailing_slashes(text@),
{
    let mut len = text.unicode_len();
    assert(text@.take(len as int) =~= text@);
    while len > 0 && text.get_char(len - 1) == '/'
        invariant
            len <= text@.len(),
            without_trailing_slashes(text@) == without_trailing_slashes(text@.take(len as int)),
        decreases len,
    {
        assert(text@.take(len as int).drop_last() =~= text@.take(len - 1));
        len -= 1;
    }
    len
}

pub fn format_booking_url(
    jira_base_url: &str,
    ticket_key: &str,
    minutes: i64,
    date_str: &str,
    time_str: &str,
) -> (url: String)
    ensures
        url@ == booking_url(jira_base_url@, ticket_key@, minutes as int, date_str@, time_str@),
{
    let keep = trimmed_len(jira_base_url);
    let mut url = jira_base_url.substring_char(0, keep).to_owned();
    url.append("/browse/");
    url.append(ticket_key);
    url.append("?xxLogTime=");
    push_signed_decimal64(&mut url, minutes);
    url.append("m&xxLogDate=");
    url.append(date_str);
    url.append("%20");
    url.append(time_str);
    url
}

/// The time at which bookings start where the day's start is not known.
pub const DEFAULT_START_TIME: &'static str = "09:00";

/// The day as bookings name it: day, month and the last two digits of the
/// year, with dots between them.
pub open spec fn date_text(day: Day) -> Seq<char> {
    decimal2(day.day as nat) + seq!['.'] + decimal2(day.month as nat) + seq!['.'] + decimal2(
        (day.year % 100) as nat,
    )
}

pub fn format_date(day: Day) -> (text: String)
    ensures
        text@ == date_text(day),
{
    let mut text = String::new();
    push_decimal2(&mut text, day.day as u64);
    text.push('.');
    push_decimal2(&mut text, day.month as u64);
    text.push('.');
    // a multiple of a hundred that lifts every year above zero
    let lifted = (day.year as i64 + 2_147_483_700) as u64;
    let last_two = lifted % 100;
    assert(last_two == day.year % 100) by {
        assert((day.year + 2_147_483_700) % 100 == day.year % 100) by (nonlinear_arith);
    }
    push_decimal2(&mut text, last_two);
    text
}

/// The time at which the day's bookings start.
pub open spec fn start_time_of(summary: TimesheetSummaryView) -> Seq<char> {
    match summary.start_time {
        Some(time) => time,
        None => DEFAULT_START_TIME@,
    }
}

pub fn get_start_time(summary: &TimesheetSummary) -> (time: String)
    ensures
        time@ == start_time_of(summary@),
{
    match &summary.start_time {
        Some(time) => time.clone(),
        None => DEFAULT_START_TIME.to_owned(),
    }
}

/// The addresses for the tickets of one project before `upto`. A project
/// without a configured address has none; time without a ticket and
/// tickets without time are left out.
pub open spec fn project_urls(
    project: ProjectSummaryView,
    date_str: Seq<char>,
    time_str: Seq<char>,
    upto: int,
) -> Seq<Seq<char>>
    decreases upto,
{
    match project.config {
        Some(config) => match config.jira_url {
            Some(jira_base_url) => if upto <= 0 {
                Seq::empty()
            } else {
                let before = project_urls(project, date_str, time_str, upto - 1);
                let sum = project.ticket_sums[upto - 1];
                if sum.0 == NO_TICKET@ || sum.1 == 0 {
                    before
                } else {
                    before.push(booking_url(jira_base_url@, sum.0, sum.1, date_str, time_str))
                }
            },
            None => Seq::empty(),
        },
        None => Seq::empty(),
    }
}

/// The addresses for all projects before `upto`, but for the breaks.
pub open spec fn summary_urls(
    projects: Projects,
    date_str: Seq<char>,
    time_str: Seq<char>,
    upto: int,
) -> Seq<Seq<char>>
    decreases upto,
{
    if upto <= 0 {
        Seq::empty()
    } else {
        let before = summary_urls(projects, date_str, time_str, upto - 1);
        if projects[upto - 1].0 == BREAK_PROJECT_KEY@ {
            before
        } else {
            before + project_urls(
                projects[upto - 1].1,
                date_str,
                time_str,
                projects[upto - 1].1.ticket_sums.len() as int,
            )
        }
    }
}

/// The addresses under which the time on a project's tickets is booked.
pub fn export_project_tickets(project_summary: &ProjectSummary, date_str: &str, time_str: &str) -> (urls:
    Vec<String>)
    ensures
        views(urls@) == project_urls(
            project_summary@,
            date_str@,
            time_str@,
            project_summary.ticket_sums.len() as int,
        ),
{
    let mut urls: Vec<String> = Vec::new();
    let project_config = match &project_summary.config {
        Some(config) => config,
        None => {
            return urls;
        },
    };
    let jira_base_url = match &project_config.jira_url {
        Some(url) => url,
        None => {
            return urls;
        },
    };
    let count = project_summary.ticket_sums.len();
    let mut t: usize = 0;
    while t < count
        invariant
            count == project_summary.ticket_sums.len(),
            t <= count,
            project_summary.config == Some(*project_config),
            project_config.jira_url == Some(*jira_base_url),
            views(urls@) == project_urls(project_summary@, date_str@, time_str@, t as int),
        decreases count - t,
    {
        let ticket_key = &project_summary.ticket_sums[t].0;
        let minutes = project_summary.ticket_sums[t].1;
        if !same_text(ticket_key.as_str(), NO_TICKET) && minutes != 0 {
            let url = format_booking_url(
                jira_base_url.as_str(),
                ticket_key.as_str(),
                minutes,
                date_str,
                time_str,
            );
            urls.push(url);
        }
        t += 1;
    }
    urls
}

/// The addresses under which a day's work is booked: one for each ticket
/// with time on it, of each project that has an address of its own.
pub fn export_to_jira(day: Day, summary: &TimesheetSummary) -> (urls: Vec<String>)
    ensures
        views(urls@) == summary_urls(
            summary@.projects,
            date_text(day),
            start_time_of(summary@),
            summary.projects.len() as int,
        ),
{
    let date_str = format_date(day);
    let time_str = get_start_time(summary);
    let mut urls: Vec<String> = Vec::new();
    let count = summary.projects.len();
    let mut p: usize = 0;
    while p < count
        invariant
            count == summary.projects.len(),
            p <= count,
            date_str@ == date_text(day),
            time_str@ == start_time_of(summary@),
            views(urls@) == summary_urls(summary@.projects, date_str@, time_str@, p as int),
        decreases count - p,
    {
        if !same_text(summary.projects[p].0.as_str(), BREAK_PROJECT_KEY) {
            let more = export_project_tickets(
                &summary.projects[p].1,
                date_str.as_str(),
                time_str.as_str(),
            );
            let mut more = more;
            urls.append(&mut more);
        }
        p += 1;
    }
    urls
}

} // verus!
