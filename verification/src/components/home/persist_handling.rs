//! What an answer from the store does to the day view.

use vstd::prelude::*;
use crate::components::home::action::{splits_in, HomeAction, HomeActionView};
use crate::components::home::state::{into_state, HomeStateView, Selection, TimeItem};
use crate::components::home::timeline::{loaded_items, Blocks, TimeItemView};
use crate::components::home::{Home, HomeView};
use crate::persist::model::{Event, EventView, TimeEntryView, TimesheetView, NOTHING_STORED};
use crate::seqs::views;
use crate::shared::DataVersionNumber;
use crate::text::{push_signed_decimal, signed_decimal};

verus! {

/// The first block from `from` on that has the identifier `id`.
pub open spec fn first_with_id(items: Blocks, id: Seq<char>, from: int) -> Option<int>
    decreases items.len() - from,
{
    if 0 <= from < items.len() {
        if items[from].id == id {
            Some(from)
        } else {
            first_with_id(items, id, from + 1)
        }
    } else {
        None
    }
}

/// The line that tells of a confirmed save.
pub open spec fn stored_message(id: Seq<char>, version: DataVersionNumber) -> Seq<char> {
    "Stored: "@ + id + " v"@ + signed_decimal(version as int)
}

/// The line that tells of a confirmation that came out of order and was
/// ignored.
pub open spec fn out_of_order_message(id: Seq<char>, version: DataVersionNumber) -> Seq<char> {
    "Ignored out-of-order confirmation: "@ + id + " v"@ + signed_decimal(version as int)
}

/// The line that tells of a loaded day.
pub open spec fn loaded_message(day: Seq<char>) -> Seq<char> {
    "Loaded: "@ + day
}

/// The day as the store holds it. A day without entries gets one open
/// block at midnight, with the identifier `new_id`, so that it can be
/// filled in.
pub open spec fn loaded_state(
    timesheet: TimesheetView,
    entries: Seq<TimeEntryView>,
    new_id: Seq<char>,
) -> HomeStateView {
    let items = loaded_items(entries, 0);
    HomeStateView {
        table: Selection { row: None, column: None },
        timesheet: Some(timesheet),
        items: if items.len() == 0 {
            seq![TimeItemView::blank(new_id, 0, 0)]
        } else {
            items
        },
        items_to_delete: Seq::empty(),
    }
}

/// What an answer from the store does to the day view, and what it asks
/// for. A confirmed save is noted on the first block with its identifier,
/// unless nothing was stored; a confirmation that is out of order changes
/// nothing and is reported as such. A loaded day replaces the timeline,
/// unless the view is suspended. Any other answer goes to the open editor,
/// again unless the view is suspended.
pub open spec fn event_step(home: HomeView, event: EventView, new_id: Seq<char>) -> (
    HomeView,
    HomeActionView,
) {
    match event {
        EventView::EntryStored { id, version } => if version != NOTHING_STORED {
            match first_with_id(home.state.items, id, 0) {
                Some(k) => (
                    HomeView {
                        state: HomeStateView {
                            items: home.state.items.update(
                                k,
                                TimeItemView {
                                    version: home.state.items[k].version.acknowledged(version),
                                    ..home.state.items[k]
                                },
                            ),
                            ..home.state
                        },
                        ..home
                    },
                    HomeActionView::SetStatusLine(
                        if home.state.items[k].version.takes(version) {
                            stored_message(id, version)
                        } else {
                            out_of_order_message(id, version)
                        },
                    ),
                ),
                None => (home, HomeActionView::Nothing),
            }
        } else {
            (home, HomeActionView::Nothing)
        },
        EventView::TimesheetLoaded { day, timesheet, entries } => if !home.suspended {
            (
                HomeView { state: loaded_state(timesheet, entries, new_id), ..home },
                HomeActionView::SetStatusLine(loaded_message(timesheet.day)),
            )
        } else {
            (home, HomeActionView::Nothing)
        },
        _ => if !home.suspended {
            (
                HomeView {
                    edit_mode: match home.edit_mode {
                        Some(mode) => Some(mode.with_event(event)),
                        None => None,
                    },
                    ..home
                },
                HomeActionView::Nothing,
            )
        } else {
            (home, HomeActionView::Nothing)
        },
    }
}

/// Whether the day view can take the answer: a confirmed version must lie
/// below the top of the number range.
pub open spec fn can_take(event: EventView) -> bool {
    event matches EventView::EntryStored { id, version } ==> version < i32::MAX
}

/// Whether the day view can take the answer.
pub fn is_acceptable(event: &Event) -> (b: bool)
    ensures
        b == can_take(event@),
{
    match event {
        Event::EntryStored { id, version } => *version < i32::MAX,
        _ => true,
    }
}

/// Finds the first row with the identifier `id`.
fn find_item(items: &Vec<TimeItem>, id: &String) -> (found: Option<usize>)
    ensures
        match found {
            Some(k) => first_with_id(views(items@), id@, 0) == Some(k as int) && k < items.len(),
            None => first_with_id(views(items@), id@, 0).is_none(),
        },
{
    let count = items.len();
    let mut k: usize = 0;
    while k < count
        invariant
            count == items.len(),
            k <= count,
            first_with_id(views(items@), id@, 0) == first_with_id(views(items@), id@, k as int),
        decreases count - k,
    {
        if items[k].id == *id {
            return Some(k);
        }
        k += 1;
    }
    None
}

/// Lets the day view take an answer from the store. `new_id` is the
/// identifier of the block that a day without entries is given.
pub fn handle(home: &mut Home, event: Event, new_id: String) -> (action: HomeAction)
    requires
        old(home).wf(),
        can_take(event@),
    ensures
        final(home).wf(),
        (final(home)@, action@) == event_step(old(home)@, event@, new_id@),
        splits_in(action@) == 0,
{
    match event {
        Event::EntryStored { id, version } => {
            if version != NOTHING_STORED {
                match find_item(&home.state.items, &id) {
                    Some(k) => {
                        let ghost before = home.state@.items;
                        let applied = home.state.items[k].version.notify_saved(version);
                        let mut message = if applied {
                            "Stored: ".to_owned()
                        } else {
                            "Ignored out-of-order confirmation: ".to_owned()
                        };
                        message.append(id.as_str());
                        message.append(" v");
                        push_signed_decimal(&mut message, version);
                        proof {
                            let after = before.update(
                                k as int,
                                TimeItemView {
                                    version: before[k as int].version.acknowledged(version),
                                    ..before[k as int]
                                },
                            );
                            assert(home.state@.items =~= after);
                        }
                        HomeAction::SetStatusLine(message)
                    },
                    None => HomeAction::Nothing,
                }
            } else {
                HomeAction::Nothing
            }
        },
        Event::TimesheetLoaded { day, timesheet, entries } => {
            if !home.suspended {
                // a suspended view loads nothing: browsing the calendar must
                // not create sheets
                let mut message = "Loaded: ".to_owned();
                message.append(timesheet.day.as_str());
                let loaded = into_state(timesheet, entries);
                home.state = loaded.0;
                if home.state.items.len() == 0 {
                    // without a first row there is nothing to add a row to
                    home.state.items.push(TimeItem::with_id(new_id, 0, 0));
                    proof {
                        assert(home.state@.items =~= seq![TimeItemView::blank(new_id@, 0, 0)]);
                    }
                }
                HomeAction::SetStatusLine(message)
            } else {
                HomeAction::Nothing
            }
        },
        other => {
            if !home.suspended {
                match &mut home.edit_mode {
                    Some(edit_mode) => {
                        edit_mode.handle_persisted(other);
                    },
                    None => {},
                }
            }
            HomeAction::Nothing
        },
    }
}

} // verus!
