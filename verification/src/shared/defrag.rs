//! A day's work laid out anew: each ticket's time in one run from the start
//! of the day, broken only by the breaks.

use vstd::prelude::*;
use crate::clock::{
    clock_text, is_plain, lemma_decimal2_reads_back, minutes_to_string, number_reading, parse_u32,
};
use crate::text::decimal2;
use crate::seqs::views;
use crate::shared::summary::{
    sums_view, BreakSummaryView, Projects, TimesheetSummary, TimesheetSummaryView,
};
use crate::shared::BREAK_PROJECT_KEY;
use crate::text::{is_text_le, option_text, same_text, text_le};

verus! {

/// A stretch of work on one ticket.
#[derive(Debug)]
pub struct DefragmentedEntry {
    pub project_key: String,
    pub ticket_key: String,
    pub start_time: String,
    pub end_time: String,
}

pub struct DefragmentedEntryView {
    pub project_key: Seq<char>,
    pub ticket_key: Seq<char>,
    pub start_time: Seq<char>,
    pub end_time: Seq<char>,
}

impl View for DefragmentedEntry {
    type V = DefragmentedEntryView;

    open spec fn view(&self) -> DefragmentedEntryView {
        DefragmentedEntryView {
            project_key: self.project_key@,
            ticket_key: self.ticket_key@,
            start_time: self.start_time@,
            end_time: self.end_time@,
        }
    }
}

/// The time that was spent on one ticket, all in all.
#[derive(Debug)]
pub struct ProjectTicket {
    pub project_key: String,
    pub ticket_key: String,
    pub duration_mins: u32,
}

pub struct ProjectTicketView {
    pub project_key: Seq<char>,
    pub ticket_key: Seq<char>,
    pub duration_mins: int,
}

impl View for ProjectTicket {
    type V = ProjectTicketView;

    open spec fn view(&self) -> ProjectTicketView {
        ProjectTicketView {
            project_key: self.project_key@,
            ticket_key: self.ticket_key@,
            duration_mins: self.duration_mins as int,
        }
    }
}

/// A break: when it starts, in minutes since midnight, and how long it is.
#[derive(Debug, Clone, Copy)]
pub struct Break {
    pub start_mins: u32,
    pub duration_mins: u32,
}

impl Break {
    pub open spec fn started_at(self, ref_time_minutes: int) -> bool {
        self.start_mins <= ref_time_minutes
    }

    /// Whether the break has started at the given time.
    pub fn has_started_at(&self, ref_time_minutes: u32) -> (b: bool)
        ensures
            b == self.started_at(ref_time_minutes as int),
    {
        self.start_mins <= ref_time_minutes
    }
}

/// Where the first colon of `text` stands, from `from` on.
pub open spec fn first_colon(text: Seq<char>, from: int) -> Option<int>
    decreases text.len() - from,
{
    if 0 <= from < text.len() {
        if text[from] == ':' {
            Some(from)
        } else {
            first_colon(text, from + 1)
        }
    } else {
        None
    }
}

/// The minutes since midnight that "H:M" stands for: two numbers with one
/// colon between them. There are none where the text has another form or
/// the minutes do not fit in thirty-two bits.
pub open spec fn time_to_minutes(text: Seq<char>) -> Option<u32> {
    match first_colon(text, 0) {
        Some(at) => if first_colon(text, at + 1).is_some() {
            None
        } else {
            match (
                number_reading(text.take(at), u32::MAX as nat),
                number_reading(text.skip(at + 1), u32::MAX as nat),
            ) {
                (Some(hours), Some(minutes)) => if hours * 60 + minutes <= u32::MAX {
                    Some((hours * 60 + minutes) as u32)
                } else {
                    None
                },
                _ => None,
            }
        },
        None => None,
    }
}

/// The first colon of a text is the one that follows a stretch without
/// any.
pub proof fn lemma_first_colon(head: Seq<char>, tail: Seq<char>, from: int)
    requires
        is_plain(head),
        0 <= from <= head.len(),
    ensures
        first_colon(head + seq![':'] + tail, from) == Some(head.len() as int),
    decreases head.len() - from,
{
    let text = head + seq![':'] + tail;
    if from < head.len() {
        assert(text[from] == head[from]);
        lemma_first_colon(head, tail, from + 1);
    } else {
        assert(text[from] == ':');
    }
}

/// After that colon there is none if the rest holds none.
pub proof fn lemma_no_colon(head: Seq<char>, tail: Seq<char>, from: int)
    requires
        is_plain(tail),
        0 <= from <= tail.len(),
    ensures
        first_colon(head + seq![':'] + tail, head.len() + 1 + from) == None::<int>,
    decreases tail.len() - from,
{
    let text = head + seq![':'] + tail;
    if from < tail.len() {
        assert(text[head.len() + 1 + from] == tail[from]);
        lemma_no_colon(head, tail, from + 1);
    }
}

/// A time of day written as "HH:MM" is read back as the minutes it was
/// written from.
pub proof fn lemma_clock_text_reads_back(minutes: nat)
    requires
        minutes <= u32::MAX,
    ensures
        time_to_minutes(clock_text(minutes)) == Some(minutes as u32),
{
    let head = decimal2(minutes / 60);
    let tail = decimal2(minutes % 60);
    let text = clock_text(minutes);
    lemma_decimal2_reads_back(minutes / 60, u32::MAX as nat);
    lemma_decimal2_reads_back(minutes % 60, u32::MAX as nat);
    lemma_first_colon(head, tail, 0);
    lemma_no_colon(head, tail, 0);
    assert(text =~= head + seq![':'] + tail);
    assert(text.take(head.len() as int) =~= head);
    assert(text.skip(head.len() as int + 1) =~= tail);
}

fn find_colon(text: &str, from: usize) -> (found: Option<usize>)
    requires
        from <= text@.len(),
    ensures
        match found {
            Some(at) => first_colon(text@, from as int) == Some(at as int) && from <= at
                < text@.len(),
            None => first_colon(text@, from as int).is_none(),
        },
{
    let len = text.unicode_len();
    let mut at = from;
    while at < len
        invariant
            len == text@.len(),
            from <= at <= len,
            first_colon(text@, from as int) == first_colon(text@, at as int),
        decreases len - at,
    {
        if text.get_char(at) == ':' {
            return Some(at);
        }
        at += 1;
    }
    None
}

pub fn parse_time_to_minutes(time: &str) -> (minutes: Option<u32>)
    ensures
        minutes == time_to_minutes(time@),
{
    let len = time.unicode_len();
    let at = match find_colon(time, 0) {
        Some(at) => at,
        None => {
            return None;
        },
    };
    if find_colon(time, at + 1).is_some() {
        return None;
    }
    let hours = parse_u32(time.substring_char(0, at));
    let minutes = parse_u32(time.substring_char(at + 1, len));
    match (hours, minutes) {
        (Some(hours), Some(minutes)) => {
            let total = hours as u64 * 60 + minutes as u64;
            if total <= 0xffff_ffff {
                Some(total as u32)
            } else {
                None
            }
        },
        _ => None,
    }
}

/// Past the breaks from `from` on that have started at `current`: each of
/// them moves the time on by its length. Gives the first break that is
/// left and the time reached.
pub open spec fn after_breaks(breaks: Seq<Break>, from: int, current: int) -> (int, int)
    decreases breaks.len() - from,
{
    if 0 <= from < breaks.len() && breaks[from].started_at(current) {
        after_breaks(breaks, from + 1, current + breaks[from].duration_mins)
    } else {
        (from, current)
    }
}

/// The stretches in which `remaining` minutes of a ticket are worked off
/// from `current` on, the first break that is left, and the time reached.
/// Work stops where the next break starts and goes on after it.
pub open spec fn stretches(
    ticket: ProjectTicketView,
    remaining: int,
    breaks: Seq<Break>,
    from: int,
    current: int,
) -> (Seq<DefragmentedEntryView>, int, int)
    decreases remaining,
{
    if remaining <= 0 {
        (Seq::empty(), from, current)
    } else {
        let (next, begin) = after_breaks(breaks, from, current);
        let full_end = begin + remaining;
        let end = if 0 <= next < breaks.len() && breaks[next].started_at(full_end) {
            breaks[next].start_mins as int
        } else {
            full_end
        };
        let worked = if end > begin {
            end - begin
        } else {
            remaining
        };
        let stretch = DefragmentedEntryView {
            project_key: ticket.project_key,
            ticket_key: ticket.ticket_key,
            start_time: clock_text(begin as nat),
            end_time: clock_text((begin + worked) as nat),
        };
        let (rest, left, reached) = stretches(
            ticket,
            remaining - worked,
            breaks,
            next,
            begin + worked,
        );
        (seq![stretch] + rest, left, reached)
    }
}

/// The stretches for the tickets from `k` on, one ticket after the other.
pub open spec fn allocation(
    tickets: Seq<ProjectTicketView>,
    k: int,
    breaks: Seq<Break>,
    from: int,
    current: int,
) -> Seq<DefragmentedEntryView>
    decreases tickets.len() - k,
{
    if 0 <= k < tickets.len() {
        let (first, next, reached) = stretches(
            tickets[k],
            tickets[k].duration_mins,
            breaks,
            from,
            current,
        );
        first + allocation(tickets, k + 1, breaks, next, reached)
    } else {
        Seq::empty()
    }
}

/// All the minutes of the breaks from `from` on.
pub open spec fn break_minutes(breaks: Seq<Break>, from: int) -> int
    decreases breaks.len() - from,
{
    if 0 <= from < breaks.len() {
        breaks[from].duration_mins + break_minutes(breaks, from + 1)
    } else {
        0
    }
}

/// All the minutes of the tickets from `k` on.
pub open spec fn ticket_minutes(tickets: Seq<ProjectTicketView>, k: int) -> int
    decreases tickets.len() - k,
{
    if 0 <= k < tickets.len() {
        tickets[k].duration_mins + ticket_minutes(tickets, k + 1)
    } else {
        0
    }
}

/// The day's work and breaks, laid end to end from the start, stay within
/// the range of the minute counter.
pub open spec fn fits_counter(
    tickets: Seq<ProjectTicketView>,
    breaks: Seq<Break>,
    start_minutes: int,
) -> bool {
    start_minutes + ticket_minutes(tickets, 0) + break_minutes(breaks, 0) <= u32::MAX
}

/// Breaks never add up to less than nothing.
pub proof fn lemma_break_minutes_nonnegative(breaks: Seq<Break>, from: int)
    ensures
        break_minutes(breaks, from) >= 0,
    decreases breaks.len() - from,
{
    if 0 <= from < breaks.len() {
        lemma_break_minutes_nonnegative(breaks, from + 1);
    }
}

/// Tickets without negative minutes never add up to less than nothing.
pub proof fn lemma_ticket_minutes_nonnegative(tickets: Seq<ProjectTicketView>, k: int)
    requires
        forall|i: int| 0 <= i < tickets.len() ==> (#[trigger] tickets[i]).duration_mins >= 0,
    ensures
        ticket_minutes(tickets, k) >= 0,
    decreases tickets.len() - k,
{
    if 0 <= k < tickets.len() {
        lemma_ticket_minutes_nonnegative(tickets, k + 1);
    }
}

/// Passing the breaks that have started moves the time on by their
/// length, and stops before a break that has not started.
pub proof fn lemma_after_breaks(breaks: Seq<Break>, from: int, current: int)
    requires
        0 <= from <= breaks.len(),
    ensures
        ({
            let (next, begin) = after_breaks(breaks, from, current);
            &&& from <= next <= breaks.len()
            &&& current <= begin
            &&& begin + break_minutes(breaks, next) == current + break_minutes(breaks, from)
            &&& next < breaks.len() ==> !breaks[next].started_at(begin)
        }),
    decreases breaks.len() - from,
{
    if from < breaks.len() && breaks[from].started_at(current) {
        lemma_after_breaks(breaks, from + 1, current + breaks[from].duration_mins);
    }
}

/// How long a stretch lasts, as its two times are read.
pub open spec fn stretch_minutes(stretch: DefragmentedEntryView) -> int {
    match (time_to_minutes(stretch.start_time), time_to_minutes(stretch.end_time)) {
        (Some(start), Some(end)) => end - start,
        _ => 0,
    }
}

/// How long the stretches last together.
pub open spec fn worked_minutes(out: Seq<DefragmentedEntryView>) -> int
    decreases out.len(),
{
    if out.len() == 0 {
        0
    } else {
        stretch_minutes(out[0]) + worked_minutes(out.skip(1))
    }
}

/// The stretches follow one another between `from_time` and `to_time`:
/// each starts no earlier than the one before it ends, and ends after it
/// starts.
pub open spec fn in_order_between(
    out: Seq<DefragmentedEntryView>,
    from_time: int,
    to_time: int,
) -> bool
    decreases out.len(),
{
    if out.len() == 0 {
        from_time <= to_time
    } else {
        match (time_to_minutes(out[0].start_time), time_to_minutes(out[0].end_time)) {
            (Some(start), Some(end)) => from_time <= start < end && in_order_between(
                out.skip(1),
                end as int,
                to_time,
            ),
            _ => false,
        }
    }
}

/// The stretches of one ticket last together as long as the ticket asks.
/// They follow one another from the time at which work began to the time
/// reached, and that time is the beginning moved on by the work and by the
/// breaks that were passed.
pub proof fn lemma_stretches_account_for_the_ticket(
    ticket: ProjectTicketView,
    remaining: int,
    breaks: Seq<Break>,
    from: int,
    current: int,
)
    requires
        0 <= remaining,
        0 <= current,
        0 <= from <= breaks.len(),
        current + remaining + break_minutes(breaks, from) <= u32::MAX,
    ensures
        ({
            let (out, left, reached) = stretches(ticket, remaining, breaks, from, current);
            &&& worked_minutes(out) == remaining
            &&& in_order_between(out, current, reached)
            &&& current <= reached
            &&& from <= left <= breaks.len()
            &&& reached + break_minutes(breaks, left) == current + remaining + break_minutes(
                breaks,
                from,
            )
        }),
    decreases remaining,
{
    if remaining > 0 {
        let (next, begin) = after_breaks(breaks, from, current);
        lemma_after_breaks(breaks, from, current);
        lemma_break_minutes_nonnegative(breaks, next);
        lemma_break_minutes_nonnegative(breaks, next + 1);
        let full_end = begin + remaining;
        let end = if 0 <= next < breaks.len() && breaks[next].started_at(full_end) {
            breaks[next].start_mins as int
        } else {
            full_end
        };
        let worked = end - begin;
        let (out, left, reached) = stretches(ticket, remaining, breaks, from, current);
        let (rest, _, _) = stretches(ticket, remaining - worked, breaks, next, begin + worked);
        lemma_stretches_account_for_the_ticket(
            ticket,
            remaining - worked,
            breaks,
            next,
            begin + worked,
        );
        lemma_clock_text_reads_back(begin as nat);
        lemma_clock_text_reads_back((begin + worked) as nat);
        assert(out[0].start_time == clock_text(begin as nat));
        assert(out.skip(1) =~= rest);
    }
}

/// Two runs of stretches in order, the second from where the first ends,
/// are in order together.
pub proof fn lemma_in_order_joined(
    first: Seq<DefragmentedEntryView>,
    second: Seq<DefragmentedEntryView>,
    from_time: int,
    between: int,
    to_time: int,
)
    requires
        in_order_between(first, from_time, between),
        in_order_between(second, between, to_time),
    ensures
        in_order_between(first + second, from_time, to_time),
        worked_minutes(first + second) == worked_minutes(first) + worked_minutes(second),
    decreases first.len(),
{
    if first.len() == 0 {
        assert(first + second =~= second);
    } else {
        let end = time_to_minutes(first[0].end_time).unwrap() as int;
        lemma_in_order_joined(first.skip(1), second, end, between, to_time);
        assert((first + second).skip(1) =~= first.skip(1) + second);
        assert((first + second)[0] == first[0]);
    }
}

/// The stretches of a whole day last together as long as all its tickets
/// ask, and follow one another from the start of the day: no two of them
/// overlap.
pub proof fn lemma_allocation_accounts_for_the_day(
    tickets: Seq<ProjectTicketView>,
    k: int,
    breaks: Seq<Break>,
    from: int,
    current: int,
)
    requires
        forall|i: int| 0 <= i < tickets.len() ==> (#[trigger] tickets[i]).duration_mins >= 0,
        0 <= k <= tickets.len(),
        0 <= current,
        0 <= from <= breaks.len(),
        current + ticket_minutes(tickets, k) + break_minutes(breaks, from) <= u32::MAX,
    ensures
        worked_minutes(allocation(tickets, k, breaks, from, current)) == ticket_minutes(tickets, k),
        in_order_between(
            allocation(tickets, k, breaks, from, current),
            current,
            current + ticket_minutes(tickets, k) + break_minutes(breaks, from),
        ),
    decreases tickets.len() - k,
{
    lemma_ticket_minutes_nonnegative(tickets, k);
    lemma_ticket_minutes_nonnegative(tickets, k + 1);
    lemma_break_minutes_nonnegative(breaks, from);
    if k < tickets.len() {
        let (first, next, reached) = stretches(
            tickets[k],
            tickets[k].duration_mins,
            breaks,
            from,
            current,
        );
        lemma_stretches_account_for_the_ticket(
            tickets[k],
            tickets[k].duration_mins,
            breaks,
            from,
            current,
        );
        lemma_break_minutes_nonnegative(breaks, next);
        lemma_allocation_accounts_for_the_day(tickets, k + 1, breaks, next, reached);
        let rest = allocation(tickets, k + 1, breaks, next, reached);
        let to_time = current + ticket_minutes(tickets, k) + break_minutes(breaks, from);
        lemma_in_order_joined(first, rest, current, reached, to_time);
    }
}

/// Skips the breaks that have started.
fn skip_breaks(breaks: &Vec<Break>, from: usize, current: u32) -> (r: (usize, u32))
    requires
        from <= breaks.len(),
        current + break_minutes(breaks@, from as int) <= u32::MAX,
    ensures
        (r.0 as int, r.1 as int) == after_breaks(breaks@, from as int, current as int),
        from <= r.0 <= breaks.len(),
        r.1 + break_minutes(breaks@, r.0 as int) == current + break_minutes(breaks@, from as int),
        r.0 < breaks.len() ==> !breaks@[r.0 as int].started_at(r.1 as int),
{
    let mut next = from;
    let mut begin = current;
    while next < breaks.len() && breaks[next].has_started_at(begin)
        invariant
            from <= next <= breaks.len(),
            begin + break_minutes(breaks@, next as int) == current + break_minutes(
                breaks@,
                from as int,
            ),
            current + break_minutes(breaks@, from as int) <= u32::MAX,
            after_breaks(breaks@, from as int, current as int) == after_breaks(
                breaks@,
                next as int,
                begin as int,
            ),
        decreases breaks.len() - next,
    {
        proof {
            lemma_break_minutes_nonnegative(breaks@, next + 1);
        }
        begin = begin + breaks[next].duration_mins;
        next += 1;
    }
    (next, begin)
}

/// Lays the tickets out from `start_minutes` on, in their order, each in
/// one run that stops for the breaks. The breaks are taken in the order
/// given.
pub fn allocate_project_tickets_with_breaks(
    project_tickets: Vec<ProjectTicket>,
    breaks: Vec<Break>,
    start_minutes: u32,
) -> (result: Vec<DefragmentedEntry>)
    requires
        fits_counter(views(project_tickets@), breaks@, start_minutes as int),
    ensures
        views(result@) == allocation(views(project_tickets@), 0, breaks@, 0, start_minutes as int),
{
    let mut result: Vec<DefragmentedEntry> = Vec::new();
    let mut next: usize = 0;
    let mut current = start_minutes;
    let ghost tickets = views(project_tickets@);
    let ghost total = allocation(tickets, 0, breaks@, 0, start_minutes as int);
    let count = project_tickets.len();
    let mut k: usize = 0;
    while k < count
        invariant
            count == project_tickets.len(),
            tickets == views(project_tickets@),
            k <= count,
            next <= breaks.len(),
            current + ticket_minutes(tickets, k as int) + break_minutes(breaks@, next as int)
                <= u32::MAX,
            total == views(result@) + allocation(
                tickets,
                k as int,
                breaks@,
                next as int,
                current as int,
            ),
        decreases count - k,
    {
        let project_ticket = &project_tickets[k];
        let mut remaining = project_ticket.duration_mins;
        let ghost done_before = views(result@);
        let ghost whole = stretches(
            tickets[k as int],
            remaining as int,
            breaks@,
            next as int,
            current as int,
        );
        proof {
            lemma_ticket_minutes_nonnegative(tickets, k + 1);
        }
        while remaining > 0
            invariant
                k < count,
                count == project_tickets.len(),
                tickets == views(project_tickets@),
                tickets[k as int] == project_ticket@,
                next <= breaks.len(),
                ticket_minutes(tickets, k + 1) >= 0,
                current + remaining + ticket_minutes(tickets, k + 1) + break_minutes(
                    breaks@,
                    next as int,
                ) <= u32::MAX,
                ({
                    let rest = stretches(
                        tickets[k as int],
                        remaining as int,
                        breaks@,
                        next as int,
                        current as int,
                    );
                    whole == (views(result@).skip(done_before.len() as int) + rest.0, rest.1, rest.2)
                        && views(result@).take(done_before.len() as int) == done_before
                        && views(result@).len() >= done_before.len()
                }),
            decreases remaining,
        {
            let skipped = skip_breaks(&breaks, next, current);
            next = skipped.0;
            current = skipped.1;
            proof {
                lemma_break_minutes_nonnegative(breaks@, next + 1);
            }
            // now `current` is not within a break
            let mut next_end = current + remaining;
            if next < breaks.len() && breaks[next].has_started_at(next_end) {
                next_end = breaks[next].start_mins;
            }
            let next_duration = next_end - current;
            let entry = DefragmentedEntry {
                project_key: project_ticket.project_key.clone(),
                ticket_key: project_ticket.ticket_key.clone(),
                start_time: minutes_to_string(current),
                end_time: minutes_to_string(current + next_duration),
            };
            result.push(entry);
            remaining -= next_duration;
            current += next_duration;
        }
        k += 1;
    }
    result
}

// ------------------------------------------------------------- breaks

/// The breaks before `upto` whose start can be read, in their order.
pub open spec fn read_breaks(breaks: Seq<BreakSummaryView>, upto: int) -> Seq<Break>
    decreases upto,
{
    if upto <= 0 {
        Seq::empty()
    } else {
        match time_to_minutes(breaks[upto - 1].start_time) {
            Some(start_mins) => read_breaks(breaks, upto - 1).push(
                Break { start_mins, duration_mins: breaks[upto - 1].duration_mins },
            ),
            None => read_breaks(breaks, upto - 1),
        }
    }
}

/// Where a break that starts at `start_mins` goes among breaks in rising
/// order: before the first one that starts later.
pub open spec fn break_place(sorted: Seq<Break>, start_mins: u32, from: int) -> int
    decreases sorted.len() - from,
{
    if 0 <= from < sorted.len() && sorted[from].start_mins <= start_mins {
        break_place(sorted, start_mins, from + 1)
    } else {
        from
    }
}

/// The breaks before `upto` by their start, earliest first; breaks with
/// the same start keep their order.
pub open spec fn sorted_breaks(breaks: Seq<Break>, upto: int) -> Seq<Break>
    decreases upto,
{
    if upto <= 0 {
        Seq::empty()
    } else {
        let sorted = sorted_breaks(breaks, upto - 1);
        sorted.insert(break_place(sorted, breaks[upto - 1].start_mins, 0), breaks[upto - 1])
    }
}

/// A break's place lies within the breaks that are sorted already.
pub proof fn lemma_break_place(sorted: Seq<Break>, start_mins: u32, from: int)
    requires
        0 <= from <= sorted.len(),
    ensures
        from <= break_place(sorted, start_mins, from) <= sorted.len(),
    decreases sorted.len() - from,
{
    if from < sorted.len() && sorted[from].start_mins <= start_mins {
        lemma_break_place(sorted, start_mins, from + 1);
    }
}

/// Sorting breaks gives them in rising order of their start.
pub proof fn lemma_sorted_breaks_rise(breaks: Seq<Break>, upto: int)
    requires
        0 <= upto,
    ensures
        forall|i: int, j: int|
            0 <= i < j < sorted_breaks(breaks, upto).len() ==> (#[trigger] sorted_breaks(
                breaks,
                upto,
            )[i]).start_mins <= (#[trigger] sorted_breaks(breaks, upto)[j]).start_mins,
    decreases upto,
{
    if upto > 0 {
        let before = sorted_breaks(breaks, upto - 1);
        let b = breaks[upto - 1];
        lemma_sorted_breaks_rise(breaks, upto - 1);
        lemma_break_place(before, b.start_mins, 0);
        lemma_place_splits(before, b.start_mins, 0);
    }
}

/// Before its place a break finds only breaks that start no later, and at
/// its place, if any, one that starts later.
pub proof fn lemma_place_splits(sorted: Seq<Break>, start_mins: u32, from: int)
    requires
        0 <= from <= sorted.len(),
    ensures
        forall|k: int|
            from <= k < break_place(sorted, start_mins, from) ==> (#[trigger] sorted[k]).start_mins
                <= start_mins,
        break_place(sorted, start_mins, from) < sorted.len() ==> sorted[break_place(
            sorted,
            start_mins,
            from,
        )].start_mins > start_mins,
    decreases sorted.len() - from,
{
    if from < sorted.len() && sorted[from].start_mins <= start_mins {
        lemma_place_splits(sorted, start_mins, from + 1);
    }
}

/// Reads the breaks of the summary and puts them in the order of their
/// start.
pub fn parse_breaks(summary: &TimesheetSummary) -> (breaks: Vec<Break>)
    ensures
        breaks@ == sorted_breaks(
            read_breaks(summary@.breaks, summary.breaks.len() as int),
            read_breaks(summary@.breaks, summary.breaks.len() as int).len() as int,
        ),
{
    let ghost given = summary@.breaks;
    let mut read: Vec<Break> = Vec::new();
    let count = summary.breaks.len();
    let mut i: usize = 0;
    while i < count
        invariant
            count == summary.breaks.len(),
            given == summary@.breaks,
            i <= count,
            read@ == read_breaks(given, i as int),
        decreases count - i,
    {
        match parse_time_to_minutes(summary.breaks[i].start_time.as_str()) {
            Some(start_mins) => {
                read.push(Break { start_mins, duration_mins: summary.breaks[i].duration_mins });
            },
            None => {},
        }
        i += 1;
    }
    let mut sorted: Vec<Break> = Vec::new();
    let total = read.len();
    let mut k: usize = 0;
    while k < total
        invariant
            total == read.len(),
            k <= total,
            sorted@ == sorted_breaks(read@, k as int),
            sorted.len() == k,
        decreases total - k,
    {
        let b = read[k];
        let mut place: usize = 0;
        while place < sorted.len() && sorted[place].start_mins <= b.start_mins
            invariant
                place <= sorted.len(),
                break_place(sorted@, b.start_mins, 0) == break_place(
                    sorted@,
                    b.start_mins,
                    place as int,
                ),
            decreases sorted.len() - place,
        {
            place += 1;
        }
        sorted.insert(place, b);
        k += 1;
    }
    sorted
}

// ------------------------------------------------------------ tickets

/// Whether the first start comes before the second or is equal to it. A
/// project without a start comes first.
pub open spec fn start_le(a: Option<Seq<char>>, b: Option<Seq<char>>) -> bool {
    match (a, b) {
        (None, _) => true,
        (Some(_), None) => false,
        (Some(x), Some(y)) => text_le(x, y, 0),
    }
}

/// Where a project with the first start `start` goes among the projects
/// listed in `order`: before the first one that starts later.
pub open spec fn project_place(
    projects: Projects,
    order: Seq<int>,
    start: Option<Seq<char>>,
    from: int,
) -> int
    decreases order.len() - from,
{
    if 0 <= from < order.len() && start_le(projects[order[from]].1.first_start, start) {
        project_place(projects, order, start, from + 1)
    } else {
        from
    }
}

/// The projects before `upto`, but for the breaks, by their first start,
/// earliest first; projects with the same start keep their order. Each is
/// given by its place in the summary.
pub open spec fn project_order(projects: Projects, upto: int) -> Seq<int>
    decreases upto,
{
    if upto <= 0 {
        Seq::empty()
    } else {
        let order = project_order(projects, upto - 1);
        if projects[upto - 1].0 == BREAK_PROJECT_KEY@ {
            order
        } else {
            order.insert(
                project_place(projects, order, projects[upto - 1].1.first_start, 0),
                upto - 1,
            )
        }
    }
}

/// The tickets of one project before `upto` on which time was spent, in
/// their order.
pub open spec fn tickets_of(key: Seq<char>, sums: Seq<(Seq<char>, int)>, upto: int) -> Seq<
    ProjectTicketView,
>
    decreases upto,
{
    if upto <= 0 {
        Seq::empty()
    } else if 0 < sums[upto - 1].1 <= u32::MAX {
        tickets_of(key, sums, upto - 1).push(
            ProjectTicketView {
                project_key: key,
                ticket_key: sums[upto - 1].0,
                duration_mins: sums[upto - 1].1,
            },
        )
    } else {
        tickets_of(key, sums, upto - 1)
    }
}

/// The tickets of the first `upto` projects in `order`.
pub open spec fn collected(projects: Projects, order: Seq<int>, upto: int) -> Seq<
    ProjectTicketView,
>
    decreases upto,
{
    if upto <= 0 {
        Seq::empty()
    } else {
        let project = projects[order[upto - 1]];
        collected(projects, order, upto - 1) + tickets_of(
            project.0,
            project.1.ticket_sums,
            project.1.ticket_sums.len() as int,
        )
    }
}

/// A project's place lies within the projects that are listed already.
pub proof fn lemma_project_place(
    projects: Projects,
    order: Seq<int>,
    start: Option<Seq<char>>,
    from: int,
)
    requires
        0 <= from <= order.len(),
    ensures
        from <= project_place(projects, order, start, from) <= order.len(),
    decreases order.len() - from,
{
    if from < order.len() && start_le(projects[order[from]].1.first_start, start) {
        lemma_project_place(projects, order, start, from + 1);
    }
}

/// The order lists places in the summary, each at most once for every
/// project that is no break.
pub proof fn lemma_project_order(projects: Projects, upto: int)
    requires
        0 <= upto <= projects.len(),
    ensures
        project_order(projects, upto).len() <= upto,
        forall|i: int|
            0 <= i < project_order(projects, upto).len() ==> 0 <= (#[trigger] project_order(
                projects,
                upto,
            )[i]) < upto,
    decreases upto,
{
    if upto > 0 {
        lemma_project_order(projects, upto - 1);
        let order = project_order(projects, upto - 1);
        lemma_project_place(projects, order, projects[upto - 1].1.first_start, 0);
    }
}

fn is_start_le(a: &Option<String>, b: &Option<String>) -> (le: bool)
    ensures
        le == start_le(option_text(*a), option_text(*b)),
{
    match a {
        None => true,
        Some(x) => match b {
            None => false,
            Some(y) => is_text_le(x.as_str(), y.as_str()),
        },
    }
}

/// Lists the tickets on which time was spent, project by project, the
/// projects in the order of their first start.
pub fn collect_project_tickets_in_chronological_order(summary: &TimesheetSummary) -> (tickets: Vec<
    ProjectTicket,
>)
    ensures
        views(tickets@) == collected(
            summary@.projects,
            project_order(summary@.projects, summary.projects.len() as int),
            project_order(summary@.projects, summary.projects.len() as int).len() as int,
        ),
{
    let ghost projects = summary@.projects;
    let count = summary.projects.len();
    let mut order: Vec<usize> = Vec::new();
    let mut p: usize = 0;
    while p < count
        invariant
            count == summary.projects.len(),
            projects == summary@.projects,
            p <= count,
            order@.map_values(|i: usize| i as int) == project_order(projects, p as int),
            forall|i: int| 0 <= i < order.len() ==> (#[trigger] order@[i]) < p,
        decreases count - p,
    {
        let ghost before = order@.map_values(|i: usize| i as int);
        if !same_text(summary.projects[p].0.as_str(), BREAK_PROJECT_KEY) {
            let start = &summary.projects[p].1.first_start;
            let mut place: usize = 0;
            while place < order.len() && is_start_le(
                &summary.projects[order[place]].1.first_start,
                start,
            )
                invariant
                    place <= order.len(),
                    p < count,
                    count == summary.projects.len(),
                    projects == summary@.projects,
                    before == order@.map_values(|i: usize| i as int),
                    forall|i: int| 0 <= i < order.len() ==> (#[trigger] order@[i]) < p,
                    *start == summary.projects@[p as int].1.first_start,
                    project_place(projects, before, projects[p as int].1.first_start, 0)
                        == project_place(
                        projects,
                        before,
                        projects[p as int].1.first_start,
                        place as int,
                    ),
                decreases order.len() - place,
            {
                place += 1;
            }
            order.insert(place, p);
        }
        p += 1;
    }
    let ghost listed = order@.map_values(|i: usize| i as int);
    let mut tickets: Vec<ProjectTicket> = Vec::new();
    let listed_count = order.len();
    let mut k: usize = 0;
    while k < listed_count
        invariant
            listed_count == order.len(),
            count == summary.projects.len(),
            projects == summary@.projects,
            listed == order@.map_values(|i: usize| i as int),
            forall|i: int| 0 <= i < order.len() ==> (#[trigger] order@[i]) < count,
            k <= listed_count,
            views(tickets@) == collected(projects, listed, k as int),
        decreases listed_count - k,
    {
        let at = order[k];
        let project_key = &summary.projects[at].0;
        let sums = &summary.projects[at].1.ticket_sums;
        let ghost key = projects[at as int].0;
        let ghost plain_sums = projects[at as int].1.ticket_sums;
        let ghost so_far = views(tickets@);
        let sums_count = sums.len();
        let mut t: usize = 0;
        while t < sums_count
            invariant
                sums_count == sums.len(),
                plain_sums == sums_view(sums@),
                key == project_key@,
                t <= sums_count,
                views(tickets@) == so_far + tickets_of(key, plain_sums, t as int),
            decreases sums_count - t,
        {
            let minutes = sums[t].1;
            let ghost listed_before = views(tickets@);
            if minutes > 0 && minutes <= 0xffff_ffff {
                let ticket = ProjectTicket {
                    project_key: project_key.clone(),
                    ticket_key: sums[t].0.clone(),
                    duration_mins: minutes as u32,
                };
                tickets.push(ticket);
                proof {
                    assert(views(tickets@) =~= listed_before.push(ticket@));
                }
            }
            t += 1;
        }
        k += 1;
    }
    tickets
}

// ------------------------------------------------------------ the day

/// The minutes of the tickets from some ticket on are no more than the
/// minutes of all tickets.
pub proof fn lemma_ticket_minutes_fall(tickets: Seq<ProjectTicketView>, k: int)
    requires
        forall|i: int| 0 <= i < tickets.len() ==> (#[trigger] tickets[i]).duration_mins >= 0,
        0 <= k,
    ensures
        0 <= ticket_minutes(tickets, k) <= ticket_minutes(tickets, 0),
    decreases k,
{
    lemma_ticket_minutes_nonnegative(tickets, k);
    if k > 0 {
        lemma_ticket_minutes_fall(tickets, k - 1);
    }
}

/// The minutes of the breaks from some break on are no more than the
/// minutes of all breaks.
pub proof fn lemma_break_minutes_fall(breaks: Seq<Break>, from: int)
    requires
        0 <= from,
    ensures
        0 <= break_minutes(breaks, from) <= break_minutes(breaks, 0),
    decreases from,
{
    lemma_break_minutes_nonnegative(breaks, from);
    if from > 0 {
        lemma_break_minutes_fall(breaks, from - 1);
    }
}

/// Whether the day's work and breaks stay within the range of the minute
/// counter.
pub fn fits_in_counter(tickets: &Vec<ProjectTicket>, breaks: &Vec<Break>, start_minutes: u32) -> (fits:
    bool)
    ensures
        fits == fits_counter(views(tickets@), breaks@, start_minutes as int),
{
    let ghost plain = views(tickets@);
    let mut work: u64 = 0;
    let mut k = tickets.len();
    while k > 0
        invariant
            k <= tickets.len(),
            plain == views(tickets@),
            forall|i: int| 0 <= i < plain.len() ==> (#[trigger] plain[i]).duration_mins >= 0,
            work == ticket_minutes(plain, k as int),
            work <= u32::MAX,
        decreases k,
    {
        k -= 1;
        work = work + tickets[k].duration_mins as u64;
        if work > 0xffff_ffff {
            proof {
                lemma_ticket_minutes_fall(plain, k as int);
                lemma_break_minutes_nonnegative(breaks@, 0);
            }
            return false;
        }
    }
    let mut rest: u64 = 0;
    let mut b = breaks.len();
    while b > 0
        invariant
            b <= breaks.len(),
            rest == break_minutes(breaks@, b as int),
            rest <= u32::MAX,
            plain == views(tickets@),
            forall|i: int| 0 <= i < plain.len() ==> (#[trigger] plain[i]).duration_mins >= 0,
        decreases b,
    {
        b -= 1;
        rest = rest + breaks[b].duration_mins as u64;
        if rest > 0xffff_ffff {
            proof {
                lemma_break_minutes_fall(breaks@, b as int);
                lemma_ticket_minutes_nonnegative(plain, 0);
            }
            return false;
        }
    }
    start_minutes as u64 + work + rest <= 0xffff_ffff
}

/// The day laid out anew, from its summary. There is nothing to lay out
/// where the day has no start that can be read or no ticket with time on
/// it, or where its minutes are beyond counting.
pub open spec fn calculated(summary: TimesheetSummaryView) -> Seq<DefragmentedEntryView> {
    match summary.start_time {
        None => Seq::empty(),
        Some(start) => match time_to_minutes(start) {
            None => Seq::empty(),
            Some(start_minutes) => {
                let order = project_order(summary.projects, summary.projects.len() as int);
                let tickets = collected(summary.projects, order, order.len() as int);
                let read = read_breaks(summary.breaks, summary.breaks.len() as int);
                let breaks = sorted_breaks(read, read.len() as int);
                if fits_counter(tickets, breaks, start_minutes as int) {
                    allocation(tickets, 0, breaks, 0, start_minutes as int)
                } else {
                    Seq::empty()
                }
            },
        },
    }
}

/// Lays the day out anew: the tickets one after the other from the start
/// of the day, the projects in the order of their first start, each
/// ticket's time in one run that stops for the breaks.
pub fn calculate(summary: &TimesheetSummary) -> (entries: Vec<DefragmentedEntry>)
    ensures
        views(entries@) == calculated(summary@),
{
    let empty: Vec<DefragmentedEntry> = Vec::new();
    let start_minutes = match &summary.start_time {
        Some(time) => match parse_time_to_minutes(time.as_str()) {
            Some(minutes) => minutes,
            None => {
                return empty;
            },
        },
        None => {
            return empty;
        },
    };
    let project_tickets = collect_project_tickets_in_chronological_order(summary);
    let breaks = parse_breaks(summary);
    if !fits_in_counter(&project_tickets, &breaks, start_minutes) {
        return empty;
    }
    allocate_project_tickets_with_breaks(project_tickets, breaks, start_minutes)
}

} // verus!
