//! The timeline of a day as a sequence of blocks, and what each edit makes
//! of it.
//!
//! Everything here is mathematics: the editing functions elsewhere are
//! proved to compute these results.

use vstd::prelude::*;
use crate::components::home::error::EditErrorView;
use crate::clock::{clock_text, stored_clock_reading, MAX_DURATION_MINS, MINUTES_PER_DAY};
use crate::ids::entry_id_reading;
use crate::persist::model::TimeEntryView;
use crate::shared::DataVersion;

verus! {

/// One row of the timeline, seen as plain values. Times are minutes since
/// midnight, durations whole minutes. A block starts within its day; where
/// it ends is not bounded by the day, so the last block of an evening may
/// reach past midnight.
pub struct TimeItemView {
    pub id: Seq<char>,
    pub start_time: int,
    pub project: Seq<char>,
    pub ticket: Seq<char>,
    pub description: Seq<char>,
    pub duration: int,
    pub version: DataVersion,
}

pub type Blocks = Seq<TimeItemView>;

impl TimeItemView {
    /// The block starts at a time of day, and its duration is one that
    /// the store can hold. It may end after midnight.
    pub open spec fn in_bounds(self) -> bool {
        0 <= self.start_time < MINUTES_PER_DAY && 0 <= self.duration <= MAX_DURATION_MINS
    }

    /// The block is within its bounds, and its version can count every
    /// edit to come.
    pub open spec fn wf(self) -> bool {
        self.in_bounds() && self.version.has_room()
    }

    /// Where the block ends, and the next one should start.
    pub open spec fn next_start_time(self) -> int {
        self.start_time + self.duration
    }

    /// An open block: its end has not been filled in.
    pub open spec fn is_open(self) -> bool {
        self.duration == 0
    }

    /// The block with one more edit counted.
    pub open spec fn touched(self) -> TimeItemView {
        TimeItemView { version: self.version.touched(), ..self }
    }

    /// A blank block that was never saved.
    pub open spec fn blank(id: Seq<char>, duration: int, start_time: int) -> TimeItemView {
        TimeItemView {
            id,
            start_time,
            project: Seq::empty(),
            ticket: Seq::empty(),
            description: Seq::empty(),
            duration,
            version: DataVersion { local: 1, saved: 0, sent: None },
        }
    }
}

/// Every block is as `wf` asks.
pub open spec fn all_wf(items: Blocks) -> bool {
    forall|i: int| 0 <= i < items.len() ==> (#[trigger] items[i]).wf()
}

/// Every block but the last ends where the next one starts.
pub open spec fn contiguous(items: Blocks) -> bool {
    forall|i: int|
        0 <= i < items.len() - 1 ==> (#[trigger] items[i]).next_start_time() == items[i
            + 1].start_time
}

/// No block starts before an earlier one.
pub open spec fn ordered(items: Blocks) -> bool {
    forall|i: int, j: int|
        0 <= i < j < items.len() ==> (#[trigger] items[i]).start_time <= (
        #[trigger] items[j]).start_time
}

/// Every block starts after all earlier ones, so no two share a start.
pub open spec fn strictly_ordered(items: Blocks) -> bool {
    forall|i: int, j: int|
        0 <= i < j < items.len() ==> (#[trigger] items[i]).start_time < (
        #[trigger] items[j]).start_time
}

/// The durations of the blocks from `from` up to, not including, `to`.
pub open spec fn total_duration(items: Blocks, from: int, to: int) -> int
    decreases to - from,
{
    if from >= to {
        0
    } else {
        total_duration(items, from, to - 1) + items[to - 1].duration
    }
}

/// The indices of the blocks before `upto` that do not end where the next
/// one starts, in rising order.
pub open spec fn mismatches(items: Blocks, upto: int) -> Seq<usize>
    decreases upto,
{
    if upto <= 0 {
        Seq::empty()
    } else if upto < items.len() && items[upto - 1].next_start_time() != items[upto].start_time {
        mismatches(items, upto - 1).push((upto - 1) as usize)
    } else {
        mismatches(items, upto - 1)
    }
}

// ---------------------------------------------------------------- store

impl TimeItemView {
    /// The block as the store keeps it, on the sheet of `day`. A block
    /// without a ticket is stored without one.
    pub open spec fn persisted(self, day: Seq<char>) -> TimeEntryView {
        TimeEntryView {
            id: self.id,
            timesheet_day: day,
            project_key: self.project,
            ticket_key: if self.ticket.len() == 0 {
                None
            } else {
                Some(self.ticket)
            },
            duration_mins: self.duration,
            description: self.description,
            start_time: clock_text(self.start_time as nat),
        }
    }

    /// The block that a stored entry stands for, given what the entry's
    /// identifier and its start time were read as. There is none where
    /// either was not read, or where the duration is negative. A block that
    /// reaches past midnight is kept as it is.
    pub open spec fn of_readings(
        entry: TimeEntryView,
        id: Option<Seq<char>>,
        clock: Option<(u32, u32)>,
    ) -> Option<TimeItemView> {
        match (id, clock) {
            (Some(id), Some(hm)) => {
                let start_time = hm.0 * 60 + hm.1;
                if 0 <= entry.duration_mins {
                    Some(
                        TimeItemView {
                            id,
                            start_time,
                            project: entry.project_key,
                            ticket: match entry.ticket_key {
                                Some(key) => key,
                                None => Seq::empty(),
                            },
                            description: entry.description,
                            duration: entry.duration_mins,
                            version: DataVersion { local: 1, saved: 1, sent: None },
                        },
                    )
                } else {
                    None
                }
            },
            _ => None,
        }
    }

    /// The block that a stored entry stands for, if it stands for one.
    pub open spec fn loaded(entry: TimeEntryView) -> Option<TimeItemView> {
        Self::of_readings(
            entry,
            if vstd::utf8::is_ascii_chars(entry.id) {
                entry_id_reading(entry.id)
            } else {
                None
            },
            stored_clock_reading(entry.start_time),
        )
    }
}

/// The blocks that the entries from `from` on stand for, in their order.
/// Entries that stand for none are left out.
pub open spec fn loaded_items(entries: Seq<TimeEntryView>, from: int) -> Blocks
    decreases entries.len() - from,
{
    if 0 <= from < entries.len() {
        match TimeItemView::loaded(entries[from]) {
            Some(item) => seq![item] + loaded_items(entries, from + 1),
            None => loaded_items(entries, from + 1),
        }
    } else {
        Seq::empty()
    }
}

// ---------------------------------------------------------------- texts

/// The three cells of a row that hold free text.
#[derive(Debug, Clone, Copy)]
pub enum TextField {
    Project,
    Ticket,
    Description,
}

impl TimeItemView {
    /// The block with `text` written into one of its text cells.
    pub open spec fn with_text(self, field: TextField, text: Seq<char>) -> TimeItemView {
        match field {
            TextField::Project => TimeItemView { project: text, ..self.touched() },
            TextField::Ticket => TimeItemView { ticket: text, ..self.touched() },
            TextField::Description => TimeItemView { description: text, ..self.touched() },
        }
    }
}

// ---------------------------------------------------------------- split

/// The two halves of `n` minutes: the first takes the odd minute.
pub open spec fn halves(n: int) -> (int, int) {
    (n - n / 2, n / 2)
}

/// A block can be halved if it lasts two minutes or more and its second
/// half starts before midnight.
pub open spec fn can_split(items: Blocks, idx: int) -> bool {
    0 <= idx < items.len() && items[idx].duration >= 2 && items[idx].start_time + halves(
        items[idx].duration,
    ).0 < MINUTES_PER_DAY
}

/// Why block `idx` cannot be halved.
pub open spec fn split_error(items: Blocks, idx: int) -> EditErrorView {
    if idx >= items.len() {
        EditErrorView::NoSelection
    } else if items[idx].duration < 2 {
        EditErrorView::CannotSplitFurther
    } else {
        EditErrorView::OutsideDay
    }
}

/// Block `idx` keeps the first half of its time; a blank block with the
/// second half follows it.
pub open spec fn split_down(items: Blocks, idx: int, new_id: Seq<char>) -> Blocks {
    let item = items[idx];
    let (first, second) = halves(item.duration);
    items.update(idx, TimeItemView { duration: first, ..item.touched() }).insert(
        idx + 1,
        TimeItemView::blank(new_id, second, item.start_time + first),
    )
}

/// Splitting a block leaves every block within its bounds.
pub proof fn lemma_split_wf(items: Blocks, idx: int, new_id: Seq<char>)
    requires
        all_wf(items),
        can_split(items, idx),
    ensures
        all_wf(split_down(items, idx, new_id)),
{
}

// ---------------------------------------------------------------- merge

pub open spec fn separator() -> Seq<char> {
    seq![' ', '/', ' ']
}

pub open spec fn merged(upper: TimeItemView, lower: TimeItemView) -> TimeItemView {
    TimeItemView {
        duration: upper.duration + lower.duration,
        description: upper.description + separator() + lower.description,
        ..upper.touched()
    }
}

/// A block can be merged with its successor if it has one and the two
/// together last no longer than a block can.
pub open spec fn can_merge(items: Blocks, idx: int) -> bool {
    0 <= idx && idx + 1 < items.len() && items[idx].duration + items[idx + 1].duration
        <= MAX_DURATION_MINS
}

/// Why block `idx` cannot be merged with its successor.
pub open spec fn merge_error(items: Blocks, idx: int) -> EditErrorView {
    if idx >= items.len() {
        EditErrorView::NoSelection
    } else if idx + 1 >= items.len() {
        EditErrorView::NothingToMerge
    } else {
        EditErrorView::OutsideDay
    }
}

/// Block `idx` takes over the time and the description of its successor,
/// which leaves the timeline.
pub open spec fn merge_down(items: Blocks, idx: int) -> Blocks {
    items.update(idx, merged(items[idx], items[idx + 1])).remove(idx + 1)
}

/// Merging two blocks leaves every block within its bounds.
pub proof fn lemma_merge_wf(items: Blocks, idx: int)
    requires
        all_wf(items),
        can_merge(items, idx),
    ensures
        all_wf(merge_down(items, idx)),
{
}

// ------------------------------------------------------- edit duration

/// Whether block `k` lies wholly before `end`, so that a block which now
/// ends at `end` swallows it. An open last block is never swallowed.
pub open spec fn swallowed(items: Blocks, k: int, end: int) -> bool {
    let b = items[k];
    !(k == items.len() - 1 && b.is_open()) && b.start_time < end && b.duration <= end
        - b.start_time
}

/// The first block from `from` on that is not swallowed, or the length of
/// the timeline if all are.
pub open spec fn walk_stop(items: Blocks, from: int, end: int) -> int
    decreases items.len() - from,
{
    if 0 <= from < items.len() && swallowed(items, from, end) {
        walk_stop(items, from + 1, end)
    } else {
        from
    }
}

/// The block at which the walk stops, made to start at `end`: an open last
/// block just moves; a block that starts later reaches back; a block that
/// starts earlier gives up its beginning. Its own end stays where it was.
pub open spec fn adjusted(b: TimeItemView, is_last: bool, end: int) -> TimeItemView {
    if is_last && b.is_open() {
        TimeItemView { start_time: end, ..b.touched() }
    } else if end == b.start_time {
        b
    } else {
        TimeItemView {
            start_time: end,
            duration: b.duration + (b.start_time - end),
            ..b.touched()
        }
    }
}

/// Block `idx` can be given `minutes` if every block that the edit writes
/// is within its bounds. On the last row that is the new open block, which
/// starts where the block now ends: this must be before midnight. On any
/// other row it is the block at which the walk stops, which starts there
/// too. Where the block covers all that follow, nothing else is written,
/// and the block may end at midnight or after it.
pub open spec fn can_set_duration(items: Blocks, idx: int, minutes: int) -> bool {
    let end = items[idx].start_time + minutes;
    let stop = walk_stop(items, idx + 1, end);
    &&& 0 <= idx < items.len()
    &&& 0 < minutes <= MAX_DURATION_MINS
    &&& if idx == items.len() - 1 {
        end < MINUTES_PER_DAY
    } else {
        stop < items.len() ==> adjusted(items[stop], stop == items.len() - 1, end).in_bounds()
    }
}

/// The timeline after block `idx` was given `minutes`, and the blocks that
/// left it. On the last row a blank open block is added where the block
/// now ends. Elsewhere the following blocks make room or fill the gap.
pub open spec fn with_duration(items: Blocks, idx: int, minutes: int, new_id: Seq<char>) -> (
    Blocks,
    Blocks,
) {
    let me = TimeItemView { duration: minutes, ..items[idx].touched() };
    let end = me.start_time + minutes;
    if idx == items.len() - 1 {
        (items.update(idx, me).push(TimeItemView::blank(new_id, 0, end)), Seq::empty())
    } else {
        let stop = walk_stop(items, idx + 1, end);
        let head = items.take(idx).push(me);
        let removed = items.subrange(idx + 1, stop);
        if stop < items.len() {
            (
                head.push(adjusted(items[stop], stop == items.len() - 1, end)) + items.skip(
                    stop + 1,
                ),
                removed,
            )
        } else {
            (head, removed)
        }
    }
}

/// The walk stops at or after its start, swallows every block on its way
/// and stops at a block that it does not swallow.
pub proof fn lemma_walk_stop(items: Blocks, from: int, end: int)
    requires
        0 <= from <= items.len(),
    ensures
        from <= walk_stop(items, from, end) <= items.len(),
        forall|k: int| from <= k < walk_stop(items, from, end) ==> swallowed(items, k, end),
        walk_stop(items, from, end) < items.len() ==> !swallowed(
            items,
            walk_stop(items, from, end),
            end,
        ),
    decreases items.len() - from,
{
    if from < items.len() && swallowed(items, from, end) {
        lemma_walk_stop(items, from + 1, end);
    }
}

/// Giving a block a new duration leaves every block within its bounds,
/// and leaves the block itself in the timeline.
pub proof fn lemma_with_duration_wf(items: Blocks, idx: int, minutes: int, new_id: Seq<char>)
    requires
        all_wf(items),
        can_set_duration(items, idx, minutes),
    ensures
        all_wf(with_duration(items, idx, minutes, new_id).0),
        with_duration(items, idx, minutes, new_id).0.len() >= idx + 1,
{
    lemma_walk_stop(items, idx + 1, items[idx].start_time + minutes);
}

// ------------------------------------------------------ edit start time

/// Why block `idx` cannot start at `time`, if it cannot.
pub enum StartTimeRefusal {
    BeforePrevious,
    AfterNext,
    OutsideDay,
}

/// A start before that of the block before, or after that of the block
/// after, is refused as such. Any other is refused only where the block
/// before or the block itself would be left with a duration below nothing
/// or above what a block can last.
pub open spec fn start_time_refusal(items: Blocks, idx: int, time: int) -> Option<
    StartTimeRefusal,
> {
    let me = items[idx];
    let delta = time - me.start_time;
    if idx > 0 && time < items[idx - 1].start_time {
        Some(StartTimeRefusal::BeforePrevious)
    } else if idx < items.len() - 1 && time > items[idx + 1].start_time {
        Some(StartTimeRefusal::AfterNext)
    } else if !(0 <= time < MINUTES_PER_DAY) {
        Some(StartTimeRefusal::OutsideDay)
    } else if idx > 0 && !(0 <= items[idx - 1].duration + delta <= MAX_DURATION_MINS) {
        Some(StartTimeRefusal::OutsideDay)
    } else if !me.is_open() && !(0 <= me.duration - delta <= MAX_DURATION_MINS) {
        Some(StartTimeRefusal::OutsideDay)
    } else {
        None
    }
}

/// The timeline after block `idx` was made to start at `time`: the block
/// before it ends there, and the block itself keeps its end unless it is
/// open.
pub open spec fn with_start_time(items: Blocks, idx: int, time: int) -> Blocks {
    let me = items[idx];
    let delta = time - me.start_time;
    let moved = TimeItemView {
        start_time: time,
        duration: if me.is_open() {
            0
        } else {
            me.duration - delta
        },
        ..me.touched()
    };
    if idx > 0 {
        let prev = items[idx - 1];
        items.update(
            idx - 1,
            TimeItemView { duration: prev.duration + delta, ..prev.touched() },
        ).update(idx, moved)
    } else {
        items.update(idx, moved)
    }
}

/// Moving the start of a block leaves every block within its bounds.
pub proof fn lemma_with_start_time_wf(items: Blocks, idx: int, time: int)
    requires
        all_wf(items),
        0 <= idx < items.len(),
        start_time_refusal(items, idx, time).is_none(),
    ensures
        all_wf(with_start_time(items, idx, time)),
{
}

} // verus!
