//! What holds of the timeline whatever is edited.

use vstd::prelude::*;
use crate::clock::{minutes_reading, time_reading, MAX_DURATION_MINS, MINUTES_PER_DAY};
use crate::components::home::action::{performed, HomeActionView};
use crate::components::home::editing::duration::duration_saved;
use crate::components::home::editing::time::time_saved;
use crate::components::home::error::EditErrorView;
use crate::components::home::state::HomeStateView;
use crate::components::home::HomeView;
use crate::components::home::timeline::{
    adjusted, all_wf, can_merge, can_set_duration, can_split, contiguous, lemma_walk_stop,
    merge_down, mismatches, ordered, separator, split_down, start_time_refusal, strictly_ordered,
    swallowed, total_duration, walk_stop, with_duration, with_start_time, Blocks, TimeItemView,
};

verus! {

/// One edit of the timeline.
pub enum Edit {
    Split { idx: int, new_id: Seq<char> },
    Merge { idx: int },
    Duration { idx: int, minutes: int, new_id: Seq<char> },
    StartTime { idx: int, time: int },
}

impl Edit {
    /// Whether the edit is carried out on `items`.
    pub open spec fn succeeds(self, items: Blocks) -> bool {
        match self {
            Edit::Split { idx, new_id } => can_split(items, idx),
            Edit::Merge { idx } => can_merge(items, idx),
            Edit::Duration { idx, minutes, new_id } => can_set_duration(items, idx, minutes),
            Edit::StartTime { idx, time } => 0 <= idx < items.len() && start_time_refusal(
                items,
                idx,
                time,
            ).is_none(),
        }
    }

    /// The timeline after the edit.
    pub open spec fn applied(self, items: Blocks) -> Blocks {
        match self {
            Edit::Split { idx, new_id } => split_down(items, idx, new_id),
            Edit::Merge { idx } => merge_down(items, idx),
            Edit::Duration { idx, minutes, new_id } => with_duration(items, idx, minutes, new_id).0,
            Edit::StartTime { idx, time } => with_start_time(items, idx, time),
        }
    }

    /// The edit moves the start of a block without duration that is not the
    /// last one. Such a block has no end to hold on to, so the block after
    /// it is left behind.
    pub open spec fn moves_empty_inner_block(self, items: Blocks) -> bool {
        match self {
            Edit::StartTime { idx, time } => 0 <= idx < items.len() - 1 && items[idx].is_open()
                && time != items[idx].start_time,
            _ => false,
        }
    }
}

/// The timeline after all of `edits`, first to last.
pub open spec fn applied_all(items: Blocks, edits: Seq<Edit>) -> Blocks
    decreases edits.len(),
{
    if edits.len() == 0 {
        items
    } else {
        edits.last().applied(applied_all(items, edits.drop_last()))
    }
}

/// Every one of `edits` is carried out in its turn, and none of them moves
/// an empty inner block.
pub open spec fn all_carried_out(items: Blocks, edits: Seq<Edit>) -> bool
    decreases edits.len(),
{
    if edits.len() == 0 {
        true
    } else {
        let so_far = applied_all(items, edits.drop_last());
        all_carried_out(items, edits.drop_last()) && edits.last().succeeds(so_far)
            && !edits.last().moves_empty_inner_block(so_far)
    }
}

/// In a timeline without gaps no block starts before an earlier one, as
/// long as no duration is negative; and where every block but the last has
/// a duration, no two blocks share a start.
pub proof fn lemma_contiguous_is_ordered(items: Blocks, i: int, j: int)
    requires
        contiguous(items),
        forall|k: int| 0 <= k < items.len() ==> (#[trigger] items[k]).duration >= 0,
        0 <= i <= j < items.len(),
    ensures
        items[i].start_time <= items[j].start_time,
        i < j && (forall|k: int| 0 <= k < items.len() - 1 ==> (#[trigger] items[k]).duration > 0)
            ==> items[i].start_time < items[j].start_time,
    decreases j - i,
{
    if i < j {
        lemma_contiguous_is_ordered(items, i, j - 1);
    }
}

/// The same, for all blocks at once.
pub proof fn lemma_contiguous_timeline_is_ordered(items: Blocks)
    requires
        contiguous(items),
        forall|k: int| 0 <= k < items.len() ==> (#[trigger] items[k]).duration >= 0,
    ensures
        ordered(items),
        (forall|k: int| 0 <= k < items.len() - 1 ==> (#[trigger] items[k]).duration > 0)
            ==> strictly_ordered(items),
{
    assert forall|i: int, j: int| 0 <= i < j < items.len() implies (#[trigger] items[i]).start_time
        <= (#[trigger] items[j]).start_time by {
        lemma_contiguous_is_ordered(items, i, j);
    }
}

/// The timeline is as a day's timeline should be: it is not empty, it has
/// no gap and no overlap, and every block but the last has a duration.
/// Then the blocks stand in the order of their starts, and no two of them
/// share a start.
pub open spec fn proper(items: Blocks) -> bool {
    &&& items.len() >= 1
    &&& contiguous(items)
    &&& forall|k: int| 0 <= k < items.len() ==> (#[trigger] items[k]).duration >= 0
    &&& forall|k: int| 0 <= k < items.len() - 1 ==> (#[trigger] items[k]).duration > 0
}

/// In a proper timeline every block starts after all earlier ones.
pub proof fn lemma_proper_is_strictly_ordered(items: Blocks)
    requires
        proper(items),
    ensures
        strictly_ordered(items),
{
    lemma_contiguous_timeline_is_ordered(items);
}

/// Splitting a block of a proper timeline leaves a proper timeline.
pub proof fn lemma_split_keeps_proper(items: Blocks, idx: int, new_id: Seq<char>)
    requires
        proper(items),
        can_split(items, idx),
    ensures
        proper(split_down(items, idx, new_id)),
{
}

/// Merging a block of a proper timeline with its successor leaves a proper
/// timeline.
pub proof fn lemma_merge_keeps_proper(items: Blocks, idx: int)
    requires
        proper(items),
        can_merge(items, idx),
    ensures
        proper(merge_down(items, idx)),
{
}

/// Giving a block of a proper timeline a new duration leaves a proper
/// timeline.
pub proof fn lemma_duration_keeps_proper(items: Blocks, idx: int, minutes: int, new_id: Seq<char>)
    requires
        proper(items),
        can_set_duration(items, idx, minutes),
    ensures
        proper(with_duration(items, idx, minutes, new_id).0),
{
    lemma_walk_stop(items, idx + 1, items[idx].start_time + minutes);
}

/// Moving the start of a block of a proper timeline to a time strictly
/// between the starts of its neighbours leaves a proper timeline.
pub proof fn lemma_start_time_keeps_proper(items: Blocks, idx: int, time: int)
    requires
        proper(items),
        0 <= idx < items.len(),
        start_time_refusal(items, idx, time).is_none(),
        idx > 0 ==> items[idx - 1].start_time < time,
        idx < items.len() - 1 ==> time < items[idx + 1].start_time,
    ensures
        proper(with_start_time(items, idx, time)),
{
}

/// The rows that are marked as mismatching are exactly the gaps and
/// overlaps: none is marked if and only if the timeline has none.
pub proof fn lemma_nothing_marked_means_contiguous(items: Blocks)
    ensures
        mismatches(items, items.len() as int).len() == 0 <==> contiguous(items),
{
    lemma_marks(items, items.len() as int);
}

/// Nothing is marked before `upto` exactly if no block before `upto` that
/// has a successor ends elsewhere than its successor starts.
pub proof fn lemma_marks(items: Blocks, upto: int)
    requires
        0 <= upto <= items.len(),
    ensures
        mismatches(items, upto).len() == 0 <==> forall|i: int|
            0 <= i < upto && i + 1 < items.len() ==> (#[trigger] items[i]).next_start_time()
                == items[i + 1].start_time,
    decreases upto,
{
    if upto > 0 {
        lemma_marks(items, upto - 1);
    }
}

/// Splitting a block keeps the timeline free of gaps and overlaps.
pub proof fn lemma_split_keeps_contiguity(items: Blocks, idx: int, new_id: Seq<char>)
    requires
        contiguous(items),
        can_split(items, idx),
    ensures
        contiguous(split_down(items, idx, new_id)),
{
}

/// Merging a block with its successor keeps the timeline free of gaps and
/// overlaps.
pub proof fn lemma_merge_keeps_contiguity(items: Blocks, idx: int)
    requires
        contiguous(items),
        can_merge(items, idx),
    ensures
        contiguous(merge_down(items, idx)),
{
}

/// Giving a block a new duration keeps the timeline free of gaps and
/// overlaps.
pub proof fn lemma_duration_keeps_contiguity(
    items: Blocks,
    idx: int,
    minutes: int,
    new_id: Seq<char>,
)
    requires
        contiguous(items),
        can_set_duration(items, idx, minutes),
    ensures
        contiguous(with_duration(items, idx, minutes, new_id).0),
{
    lemma_walk_stop(items, idx + 1, items[idx].start_time + minutes);
}

/// Moving the start of a block keeps the timeline free of gaps and
/// overlaps, unless the block has no duration and is not the last one.
pub proof fn lemma_start_time_keeps_contiguity(items: Blocks, idx: int, time: int)
    requires
        contiguous(items),
        0 <= idx < items.len(),
        start_time_refusal(items, idx, time).is_none(),
        items[idx].is_open() ==> idx == items.len() - 1 || time == items[idx].start_time,
    ensures
        contiguous(with_start_time(items, idx, time)),
{
}

/// Over any run of splits, merges, duration edits and start-time edits that
/// are each carried out, the timeline has no gap and no overlap after any
/// of them: every block but the last ends where the next one starts.
pub proof fn lemma_edits_keep_contiguity(items: Blocks, edits: Seq<Edit>)
    requires
        contiguous(items),
        all_carried_out(items, edits),
    ensures
        contiguous(applied_all(items, edits)),
        forall|k: int|
            0 <= k <= edits.len() ==> contiguous(#[trigger] applied_all(items, edits.take(k))),
    decreases edits.len(),
{
    if edits.len() > 0 {
        let shorter = edits.drop_last();
        lemma_edits_keep_contiguity(items, shorter);
        let so_far = applied_all(items, shorter);
        match edits.last() {
            Edit::Split { idx, new_id } => lemma_split_keeps_contiguity(so_far, idx, new_id),
            Edit::Merge { idx } => lemma_merge_keeps_contiguity(so_far, idx),
            Edit::Duration { idx, minutes, new_id } => lemma_duration_keeps_contiguity(
                so_far,
                idx,
                minutes,
                new_id,
            ),
            Edit::StartTime { idx, time } => lemma_start_time_keeps_contiguity(so_far, idx, time),
        }
        assert forall|k: int| 0 <= k <= edits.len() implies contiguous(
            #[trigger] applied_all(items, edits.take(k)),
        ) by {
            if k == edits.len() {
                assert(edits.take(k) =~= edits);
            } else {
                assert(edits.take(k) =~= shorter.take(k));
            }
        }
    }
}

/// Splitting a block and merging the two halves again gives back the block
/// with its start and its duration. Its description has gained the
/// separator, and its version has counted the edits.
pub proof fn lemma_split_then_merge(items: Blocks, idx: int, new_id: Seq<char>)
    requires
        can_split(items, idx),
        items[idx].in_bounds(),
    ensures
        can_merge(split_down(items, idx, new_id), idx),
        merge_down(split_down(items, idx, new_id), idx) == items.update(
            idx,
            TimeItemView {
                description: items[idx].description + separator(),
                version: items[idx].version.touched().touched(),
                ..items[idx]
            },
        ),
        merge_down(split_down(items, idx, new_id), idx)[idx].start_time == items[idx].start_time,
        merge_down(split_down(items, idx, new_id), idx)[idx].duration == items[idx].duration,
{
}

/// In a timeline without gaps, the blocks from `from` up to, not
/// including, `to` last together from the start of the first to the start
/// of block `to`.
pub proof fn lemma_total_duration_spans(items: Blocks, from: int, to: int)
    requires
        contiguous(items),
        0 <= from <= to < items.len(),
    ensures
        total_duration(items, from, to) == items[to].start_time - items[from].start_time,
    decreases to - from,
{
    if from < to {
        lemma_total_duration_spans(items, from, to - 1);
    }
}

/// A duration edit hands time on and makes none: where the walk stops at a
/// block that has an end of its own, the edited block and that block last
/// together as long as the edited block, the blocks removed and that block
/// did before.
pub proof fn lemma_duration_edit_conserves_time(
    items: Blocks,
    idx: int,
    minutes: int,
    new_id: Seq<char>,
)
    requires
        contiguous(items),
        can_set_duration(items, idx, minutes),
        idx < items.len() - 1,
        walk_stop(items, idx + 1, items[idx].start_time + minutes) < items.len(),
        walk_stop(items, idx + 1, items[idx].start_time + minutes) == items.len() - 1
            && items.last().is_open() ==> items[idx].start_time + minutes
            == items.last().start_time,
    ensures
        total_duration(with_duration(items, idx, minutes, new_id).0, idx, idx + 2)
            == total_duration(
            items,
            idx,
            walk_stop(items, idx + 1, items[idx].start_time + minutes) + 1,
        ),
{
    let end = items[idx].start_time + minutes;
    let stop = walk_stop(items, idx + 1, end);
    lemma_walk_stop(items, idx + 1, end);
    let out = with_duration(items, idx, minutes, new_id).0;
    lemma_total_duration_spans(items, idx, stop);
    assert(total_duration(out, idx, idx + 1) == total_duration(out, idx, idx) + out[idx].duration);
}

/// Where a duration edit swallows every block that follows, time is kept
/// exactly if the block now ends where the last one did.
pub proof fn lemma_duration_edit_to_the_end(
    items: Blocks,
    idx: int,
    minutes: int,
    new_id: Seq<char>,
)
    requires
        contiguous(items),
        can_set_duration(items, idx, minutes),
        idx < items.len() - 1,
        walk_stop(items, idx + 1, items[idx].start_time + minutes) == items.len(),
    ensures
        with_duration(items, idx, minutes, new_id).0.len() == idx + 1,
        total_duration(with_duration(items, idx, minutes, new_id).0, idx, idx + 1)
            == total_duration(items, idx, items.len() as int) + (items[idx].start_time + minutes
            - items.last().next_start_time()),
{
    let out = with_duration(items, idx, minutes, new_id).0;
    let last = items.len() - 1;
    lemma_total_duration_spans(items, idx, last);
    assert(total_duration(out, idx, idx + 1) == total_duration(out, idx, idx) + out[idx].duration);
}

/// Every block ends at midnight or before it.
pub open spec fn ends_by_midnight(items: Blocks) -> bool {
    forall|k: int| 0 <= k < items.len() ==> (#[trigger] items[k]).next_start_time()
        <= MINUTES_PER_DAY
}

/// In a day whose blocks all end by midnight, a duration edit is refused
/// only where it would make a block start at midnight or after it: on the
/// last row, where the new open block would; on any other row, where the
/// open block at the end of the day would. In particular a block that is not
/// the last may be made to end at midnight, or after it, where the day's
/// last block has an end.
pub proof fn lemma_duration_edit_is_carried_out(items: Blocks, idx: int, minutes: int)
    requires
        all_wf(items),
        ends_by_midnight(items),
        0 <= idx < items.len(),
        0 < minutes <= MAX_DURATION_MINS,
    ensures
        can_set_duration(items, idx, minutes) <==> items[idx].start_time + minutes
            < MINUTES_PER_DAY || (idx < items.len() - 1 && !items.last().is_open()),
{
    let end = items[idx].start_time + minutes;
    lemma_walk_stop(items, idx + 1, end);
    if idx < items.len() - 1 && end >= MINUTES_PER_DAY {
        lemma_walk_covers(items, idx + 1, end);
        assert(items.last().is_open() ==> !swallowed(items, items.len() - 1, end));
    }
}

/// A walk towards an end at midnight or after it, through blocks that all
/// end by midnight, stops only at an open last block.
pub proof fn lemma_walk_covers(items: Blocks, from: int, end: int)
    requires
        all_wf(items),
        ends_by_midnight(items),
        0 <= from <= items.len(),
        end >= MINUTES_PER_DAY,
    ensures
        walk_stop(items, from, end) < items.len() ==> walk_stop(items, from, end) == items.len()
            - 1 && items.last().is_open(),
    decreases items.len() - from,
{
    if from < items.len() {
        assert(items[from].wf());
        if swallowed(items, from, end) {
            lemma_walk_covers(items, from + 1, end);
        }
    }
}

/// The blocks of a timeline without gaps last together from the start of
/// the first to the end of the last.
pub proof fn lemma_total_duration_of_day(items: Blocks)
    requires
        contiguous(items),
        items.len() >= 1,
    ensures
        total_duration(items, 0, items.len() as int) == items.last().next_start_time()
            - items[0].start_time,
{
    lemma_total_duration_spans(items, 0, items.len() - 1);
}

/// A duration edit on a row that is not the last, to a new end no later
/// than the end of the last block, which has one: the block keeps its
/// start and lasts as long as asked, and the day keeps its start and its
/// end.
pub proof fn lemma_duration_edit_keeps_the_ends(
    items: Blocks,
    idx: int,
    minutes: int,
    new_id: Seq<char>,
)
    requires
        0 <= idx < items.len() - 1,
        !items.last().is_open(),
        items[idx].start_time + minutes <= items.last().next_start_time(),
    ensures
        ({
            let out = with_duration(items, idx, minutes, new_id).0;
            &&& out.len() >= idx + 1
            &&& out[idx].start_time == items[idx].start_time
            &&& out[idx].duration == minutes
            &&& out[0].start_time == items[0].start_time
            &&& out.last().next_start_time() == items.last().next_start_time()
        }),
{
    let end = items[idx].start_time + minutes;
    let stop = walk_stop(items, idx + 1, end);
    let last = items.len() - 1;
    lemma_walk_stop(items, idx + 1, end);
    let me = TimeItemView { duration: minutes, ..items[idx].touched() };
    let head = items.take(idx).push(me);
    assert(head[idx] == me);
    assert(idx > 0 ==> head[0] == items[0]);
    if stop < items.len() {
        let moved = adjusted(items[stop], stop == last, end);
        let out = head.push(moved) + items.skip(stop + 1);
        assert(out == with_duration(items, idx, minutes, new_id).0);
        assert(out.len() == idx + 2 + (last - stop));
        assert(out[idx] == me);
        assert(out[0] == head[0]);
        if stop < last {
            assert(out.last() == items.skip(stop + 1)[last - stop - 1]);
        } else {
            assert(out.last() == moved);
        }
    } else {
        assert(head == with_duration(items, idx, minutes, new_id).0);
        assert(swallowed(items, last, end));
    }
}

/// Under the same conditions, in a timeline without gaps, all blocks
/// together last as long as before: what the removed blocks held has gone
/// to the block.
pub proof fn lemma_duration_edit_keeps_the_sum(
    items: Blocks,
    idx: int,
    minutes: int,
    new_id: Seq<char>,
)
    requires
        contiguous(items),
        can_set_duration(items, idx, minutes),
        idx < items.len() - 1,
        !items.last().is_open(),
        items[idx].start_time + minutes <= items.last().next_start_time(),
    ensures
        total_duration(
            with_duration(items, idx, minutes, new_id).0,
            0,
            with_duration(items, idx, minutes, new_id).0.len() as int,
        ) == total_duration(items, 0, items.len() as int),
{
    let out = with_duration(items, idx, minutes, new_id).0;
    lemma_duration_edit_keeps_the_ends(items, idx, minutes, new_id);
    lemma_duration_keeps_contiguity(items, idx, minutes, new_id);
    lemma_total_duration_of_day(items);
    lemma_total_duration_of_day(out);
}

/// In a proper timeline the walk of a duration edit passes exactly the
/// blocks that end no later than the edited block now does, an open last
/// block excepted.
pub proof fn lemma_walk_passes_the_covered(items: Blocks, idx: int, end: int)
    requires
        proper(items),
        0 <= idx < items.len() - 1,
        items[idx].start_time < end,
    ensures
        idx < walk_stop(items, idx + 1, end) <= items.len(),
        forall|k: int|
            idx < k < items.len() ==> (k < walk_stop(items, idx + 1, end) <==> (
            #[trigger] items[k]).next_start_time() <= end && !(k == items.len() - 1
                && items[k].is_open())),
{
    let stop = walk_stop(items, idx + 1, end);
    lemma_walk_stop(items, idx + 1, end);
    assert forall|k: int| idx < k < items.len() implies (k < stop <==> (
    #[trigger] items[k]).next_start_time() <= end && !(k == items.len() - 1
        && items[k].is_open())) by {
        if k >= stop {
            lemma_ends_rise(items, stop, k);
            assert(!swallowed(items, stop, end));
            if stop > idx + 1 {
                assert(swallowed(items, stop - 1, end));
            }
            assert(items[stop - 1].next_start_time() == items[stop].start_time);
        } else {
            assert(swallowed(items, k, end));
        }
    }
}

/// A duration edit on a row that is not the last: the blocks that the walk
/// passes leave, in their order; the block at which it stops starts where
/// the edited block now ends and, unless it is an open last block, ends
/// where it did; and the blocks before the edited one and after that one
/// are as they were.
pub proof fn lemma_duration_edit_moves_one_block(
    items: Blocks,
    idx: int,
    minutes: int,
    new_id: Seq<char>,
)
    requires
        0 <= idx < items.len() - 1,
    ensures
        ({
            let end = items[idx].start_time + minutes;
            let stop = walk_stop(items, idx + 1, end);
            let (out, removed) = with_duration(items, idx, minutes, new_id);
            &&& removed == items.subrange(idx + 1, stop)
            &&& out.take(idx) == items.take(idx)
            &&& stop < items.len() ==> {
                &&& out.len() == idx + 1 + (items.len() - stop)
                &&& out[idx + 1].start_time == end
                &&& !(stop == items.len() - 1 && items[stop].is_open()) ==> out[idx
                    + 1].next_start_time() == items[stop].next_start_time()
                &&& out.skip(idx + 2) == items.skip(stop + 1)
            }
            &&& stop >= items.len() ==> out.len() == idx + 1
        }),
{
    let end = items[idx].start_time + minutes;
    let stop = walk_stop(items, idx + 1, end);
    let out = with_duration(items, idx, minutes, new_id).0;
    lemma_walk_stop(items, idx + 1, end);
    assert(out.take(idx) =~= items.take(idx));
    if stop < items.len() {
        assert(out.skip(idx + 2) =~= items.skip(stop + 1));
    }
}

/// In a proper timeline a later block ends no earlier than an earlier one.
pub proof fn lemma_ends_rise(items: Blocks, i: int, j: int)
    requires
        proper(items),
        0 <= i <= j < items.len(),
    ensures
        items[i].next_start_time() <= items[j].next_start_time(),
        items[i].start_time <= items[j].start_time,
    decreases j - i,
{
    if i < j {
        lemma_ends_rise(items, i, j - 1);
    }
}

/// In a proper timeline a new start for a block is refused only where
/// it lies before the start of the block before or after the start of the
/// block after, as long as it does not lie after the end of a last block
/// that has one, and the day ends within what a block can last.
pub proof fn lemma_start_time_is_refused_only_out_of_order(items: Blocks, idx: int, time: int)
    requires
        proper(items),
        all_wf(items),
        0 <= idx < items.len(),
        0 <= time < MINUTES_PER_DAY,
        !items.last().is_open() ==> time <= items.last().next_start_time()
            <= MAX_DURATION_MINS,
    ensures
        start_time_refusal(items, idx, time).is_none() <==> (idx > 0 ==> items[idx
            - 1].start_time <= time) && (idx < items.len() - 1 ==> time <= items[idx
            + 1].start_time),
{
    assert(items[idx].wf());
    if idx > 0 {
        assert(items[idx - 1].wf());
        assert(items[idx - 1].next_start_time() == items[idx].start_time);
    }
    if idx < items.len() - 1 {
        assert(items[idx + 1].wf());
        assert(items[idx].next_start_time() == items[idx + 1].start_time);
    }
}

/// No block lasts less than nothing.
pub open spec fn no_negative_duration(items: Blocks) -> bool {
    forall|k: int| 0 <= k < items.len() ==> (#[trigger] items[k]).duration >= 0
}

/// In a day whose blocks all end by midnight, a block is halved exactly if
/// it lasts two minutes or more.
pub proof fn lemma_split_is_carried_out(items: Blocks, idx: int)
    requires
        all_wf(items),
        ends_by_midnight(items),
        0 <= idx < items.len(),
    ensures
        can_split(items, idx) <==> items[idx].duration >= 2,
{
    assert(items[idx].wf());
}

/// In a day whose blocks all end by midnight, every block that has a
/// successor is merged with it.
pub proof fn lemma_merge_is_carried_out(items: Blocks, idx: int)
    requires
        all_wf(items),
        ends_by_midnight(items),
        0 <= idx,
        idx + 1 < items.len(),
    ensures
        can_merge(items, idx),
{
    assert(items[idx].wf());
    assert(items[idx + 1].wf());
}

/// A split that the day view carries out adds one block, leaves no gap and
/// no negative duration, and tells the user nothing.
pub proof fn lemma_performed_split(home: HomeView, idx: usize, ids: Seq<Seq<char>>)
    requires
        can_split(home.state.items, idx as int),
        contiguous(home.state.items),
        no_negative_duration(home.state.items),
        ids.len() >= 1,
    ensures
        ({
            let out = performed(home, HomeActionView::SplitItemDown(idx), ids);
            &&& out.actions.len() == 0
            &&& out.ids == ids.drop_last()
            &&& out.home.state.items == split_down(home.state.items, idx as int, ids.last())
            &&& out.home.state.items.len() == home.state.items.len() + 1
            &&& contiguous(out.home.state.items)
            &&& no_negative_duration(out.home.state.items)
        }),
{
    lemma_split_keeps_contiguity(home.state.items, idx as int, ids.last());
    let out = split_down(home.state.items, idx as int, ids.last());
    assert forall|k: int| 0 <= k < out.len() implies (#[trigger] out[k]).duration >= 0 by {
        if k < idx {
            assert(out[k] == home.state.items[k]);
        } else if k > idx + 1 {
            assert(out[k] == home.state.items[k - 1]);
        }
    }
}

/// A merge that the day view carries out takes one block away, leaves no
/// gap and no negative duration, and tells the user nothing.
pub proof fn lemma_performed_merge(home: HomeView, idx: usize, ids: Seq<Seq<char>>)
    requires
        can_merge(home.state.items, idx as int),
        contiguous(home.state.items),
        no_negative_duration(home.state.items),
    ensures
        ({
            let out = performed(home, HomeActionView::MergeItemDown(idx), ids);
            &&& out.actions.len() == 0
            &&& out.ids == ids
            &&& out.home.state.items == merge_down(home.state.items, idx as int)
            &&& out.home.state.items.len() == home.state.items.len() - 1
            &&& out.home.state.items_to_delete == home.state.items_to_delete.push(
                home.state.items[idx + 1],
            )
            &&& contiguous(out.home.state.items)
            &&& no_negative_duration(out.home.state.items)
        }),
{
    lemma_merge_keeps_contiguity(home.state.items, idx as int);
    let out = merge_down(home.state.items, idx as int);
    assert forall|k: int| 0 <= k < out.len() implies (#[trigger] out[k]).duration >= 0 by {
        assert(home.state.items[idx as int].duration >= 0);
        assert(home.state.items[idx + 1].duration >= 0);
        if k < idx {
            assert(out[k] == home.state.items[k]);
        } else if k > idx {
            assert(out[k] == home.state.items[k + 1]);
        }
    }
}

/// A typed duration that reads as whole minutes and that the selected row
/// can be given is written into the row: the row lasts that long, and a
/// proper timeline stays proper, without a gap or a negative duration.
pub proof fn lemma_duration_saved(
    text: Seq<char>,
    state: HomeStateView,
    new_id: Seq<char>,
    minutes: int,
)
    requires
        minutes_reading(text) == Ok::<int, EditErrorView>(minutes),
        state.table.row is Some,
        can_set_duration(state.items, state.table.row.unwrap() as int, minutes),
        proper(state.items),
    ensures
        ({
            let row = state.table.row.unwrap() as int;
            let saved = duration_saved(text, state, new_id);
            &&& saved is Ok
            &&& saved->Ok_0.items[row].duration == minutes
            &&& saved->Ok_0.items[row].start_time == state.items[row].start_time
            &&& proper(saved->Ok_0.items)
            &&& contiguous(saved->Ok_0.items)
            &&& no_negative_duration(saved->Ok_0.items)
        }),
{
    let row = state.table.row.unwrap() as int;
    lemma_duration_keeps_proper(state.items, row, minutes, new_id);
    lemma_walk_stop(state.items, row + 1, state.items[row].start_time + minutes);
}

/// A typed time that reads as a time of day, and that lies neither before
/// the start of the block before the selected row nor after the start of
/// the block after it, is written into the row, as long as it does not lie
/// after the end of a last block that has one and the day ends within what
/// a block can last. The row starts at that time, no block comes or goes,
/// and the timeline keeps free of gaps and of negative durations.
pub proof fn lemma_time_saved(buf: Seq<char>, state: HomeStateView, time: int)
    requires
        buf.len() > 0,
        time_reading(buf) == Ok::<int, EditErrorView>(time),
        0 <= time < MINUTES_PER_DAY,
        state.table.row is Some,
        state.table.row.unwrap() < state.items.len(),
        proper(state.items),
        all_wf(state.items),
        ({
            let row = state.table.row.unwrap() as int;
            &&& row > 0 ==> state.items[row - 1].start_time <= time
            &&& row < state.items.len() - 1 ==> time <= state.items[row + 1].start_time
        }),
        !state.items.last().is_open() ==> time <= state.items.last().next_start_time()
            <= MAX_DURATION_MINS,
    ensures
        ({
            let row = state.table.row.unwrap() as int;
            let saved = time_saved(buf, state);
            &&& saved is Ok
            &&& saved->Ok_0.items[row].start_time == time
            &&& saved->Ok_0.items.len() == state.items.len()
            &&& contiguous(saved->Ok_0.items)
            &&& no_negative_duration(saved->Ok_0.items)
        }),
{
    let row = state.table.row.unwrap() as int;
    lemma_start_time_is_refused_only_out_of_order(state.items, row, time);
    lemma_start_time_keeps_contiguity(state.items, row, time);
    let out = with_start_time(state.items, row, time);
    assert(state.items[row].wf());
    if row > 0 {
        assert(state.items[row - 1].next_start_time() == state.items[row].start_time);
    }
    if row < state.items.len() - 1 {
        assert(state.items[row].next_start_time() == state.items[row + 1].start_time);
    }
    assert forall|k: int| 0 <= k < out.len() implies (#[trigger] out[k]).duration >= 0 by {
        if k != row && k != row - 1 {
            assert(out[k] == state.items[k]);
        }
    }
}

} // verus!
