//! The rows of a day, the rows that wait to be deleted, and the cell that
//! is selected.

use vstd::prelude::*;
use crate::clock::{
    clock_text, minutes_to_string, read_stored_clock, span_text, write_span,
    MAX_DURATION_MINS, MINUTES_PER_DAY,
};
use crate::components::home::error::{EditError, EditErrorView};
use crate::components::home::timeline::{
    adjusted, all_wf, can_merge, can_set_duration, can_split, halves, lemma_walk_stop,
    loaded_items, merge_down, merge_error, mismatches, separator, split_down, split_error,
    start_time_refusal, swallowed, walk_stop, with_duration, with_start_time, Blocks,
    StartTimeRefusal, TextField, TimeItemView,
};
use crate::ids::{
    entry_id_reading, is_type_id_text, new_entry_id, read_entry_id, ENTRY_ID_PREFIX, LOADING_ID,
};
use crate::persist::model::{TimeEntry, Timesheet, TimesheetView};
use crate::seqs::views;
use crate::shared::DataVersion;
use crate::text::option_text;

verus! {

/// Number of cells in a row: time, project, ticket, description, duration.
pub const TIME_ITEM_WIDTH: usize = 5;

/// One row of the timeline.
#[derive(Debug)]
pub struct TimeItem {
    /// Identifier that stays with the entry through edits and saves.
    pub id: String,
    /// Minutes since midnight.
    pub start_time: u32,
    pub project: String,
    pub ticket: String,
    pub description: String,
    /// Whole minutes. Zero on the last row: no end filled in yet.
    pub duration: u32,
    pub version: DataVersion,
}

impl View for TimeItem {
    type V = TimeItemView;

    open spec fn view(&self) -> TimeItemView {
        TimeItemView {
            id: self.id@,
            start_time: self.start_time as int,
            project: self.project@,
            ticket: self.ticket@,
            description: self.description@,
            duration: self.duration as int,
            version: self.version,
        }
    }
}

impl TimeItem {
    /// A blank row with the given identifier.
    pub fn with_id(id: String, duration: u32, start_time: u32) -> (item: Self)
        ensures
            item@ == TimeItemView::blank(id@, duration as int, start_time as int),
    {
        Self {
            id,
            start_time,
            duration,
            ticket: String::new(),
            project: String::new(),
            description: String::new(),
            version: DataVersion::fresh(),
        }
    }

    /// A blank row with an identifier of its own: a new identifier of
    /// entries, which the store reads back as itself.
    pub fn new(duration: u32, start_time: u32) -> (item: Self)
        ensures
            item@ == TimeItemView::blank(item@.id, duration as int, start_time as int),
            is_type_id_text(ENTRY_ID_PREFIX@, item@.id),
            entry_id_reading(item@.id) == Some(item@.id),
    {
        Self::with_id(new_entry_id(), duration, start_time)
    }

    /// The row that is shown until the day has been loaded.
    pub fn loading() -> (item: Self)
        ensures
            item@ == (TimeItemView {
                description: "Loading..."@,
                ..TimeItemView::blank(LOADING_ID@, 0, 0)
            }),
    {
        Self {
            id: LOADING_ID.to_owned(),
            start_time: 0,
            ticket: String::new(),
            project: String::new(),
            description: "Loading...".to_owned(),
            duration: 0,
            version: DataVersion::fresh(),
        }
    }

    /// The row as the store keeps it, on the sheet of `day`.
    pub fn to_persist(&self, day: &str) -> (entry: TimeEntry)
        requires
            self@.in_bounds(),
        ensures
            entry@ == self@.persisted(day@),
    {
        TimeEntry {
            id: self.id.clone(),
            timesheet_day: day.to_owned(),
            duration_mins: self.duration as i32,
            ticket_key: if self.ticket.as_str().is_empty() {
                None
            } else {
                Some(self.ticket.clone())
            },
            project_key: self.project.clone(),
            description: self.description.clone(),
            start_time: minutes_to_string(self.start_time),
        }
    }

    /// The row that a stored entry stands for, given what its identifier
    /// and its start time were read as.
    pub fn from_readings(value: &TimeEntry, id: Option<String>, clock: Option<(u32, u32)>) -> (item:
        Option<Self>)
        requires
            clock matches Some(hm) ==> hm.0 < 24 && hm.1 < 60,
        ensures
            option_item_view(item) == TimeItemView::of_readings(value@, option_text(id), clock),
            item matches Some(it) ==> it@.wf(),
    {
        let id = match id {
            Some(id) => id,
            None => {
                return None;
            },
        };
        let hm = match clock {
            Some(hm) => hm,
            None => {
                return None;
            },
        };
        let start_time = hm.0 * 60 + hm.1;
        if value.duration_mins < 0 {
            return None;
        }
        Some(
            Self {
                id,
                start_time,
                ticket: match &value.ticket_key {
                    Some(key) => key.clone(),
                    None => String::new(),
                },
                project: value.project_key.clone(),
                description: value.description.clone(),
                duration: value.duration_mins as u32,
                version: DataVersion::loaded(),
            },
        )
    }

    /// The row that a stored entry stands for. There is none where the
    /// entry's identifier or start time cannot be read, or where its
    /// duration is negative.
    pub fn try_from(value: &TimeEntry) -> (item: Option<Self>)
        ensures
            option_item_view(item) == TimeItemView::loaded(value@),
            item matches Some(it) ==> it@.wf(),
    {
        let id = read_entry_id(value.id.as_str());
        let clock = read_stored_clock(value.start_time.as_str());
        Self::from_readings(value, id, clock)
    }

    /// The texts of the row's cells: start, project, ticket, description,
    /// and the duration, which is left empty on an open row.
    pub fn as_cells(&self) -> (cells: [String; 5])
        ensures
            views(cells@) == cells_of(self@),
    {
        let formatted_duration = if self.duration == 0 {
            String::new()
        } else {
            write_span(self.duration as u64 * 60)
        };
        let cells = [
            minutes_to_string(self.start_time),
            self.project.clone(),
            self.ticket.clone(),
            self.description.clone(),
            formatted_duration,
        ];
        cells
    }

    /// Where the row ends, in minutes since midnight.
    pub fn next_start_time(&self) -> (end: u32)
        requires
            self@.in_bounds(),
        ensures
            end == self@.next_start_time(),
    {
        self.start_time + self.duration
    }
}

/// The texts of a block's cells.
pub open spec fn cells_of(item: TimeItemView) -> Seq<Seq<char>> {
    seq![
        clock_text(item.start_time as nat),
        item.project,
        item.ticket,
        item.description,
        if item.duration == 0 {
            Seq::empty()
        } else {
            span_text((item.duration * 60) as u64)
        },
    ]
}

pub open spec fn option_item_view(item: Option<TimeItem>) -> Option<TimeItemView> {
    match item {
        Some(it) => Some(it@),
        None => None,
    }
}

/// The rows that do not end where the next row starts, by index.
pub fn mark_mismatching_items(items: &Vec<TimeItem>) -> (marked: Vec<usize>)
    ensures
        marked@ == mismatches(views(items@), items.len() as int),
{
    let mut mismatching_indices: Vec<usize> = Vec::new();
    let len = items.len();
    let mut i: usize = 0;
    while i < len
        invariant
            len == items.len(),
            i <= len,
            mismatching_indices@ == mismatches(views(items@), i as int),
        decreases len - i,
    {
        if i + 1 < len {
            let expected_next_start_time = items[i].start_time as u64 + items[i].duration as u64;
            let actual_next_start_time = items[i + 1].start_time as u64;
            if expected_next_start_time != actual_next_start_time {
                mismatching_indices.push(i);
            }
        }
        i += 1;
    }
    mismatching_indices
}

/// Builds the day from what the store holds of it: the rows that the
/// entries stand for, in their order, nothing selected. Returns the state
/// and the number of entries that stand for no row.
pub fn into_state(timesheet: Timesheet, entries: Vec<TimeEntry>) -> (loaded: (HomeState, usize))
    ensures
        loaded.0@ == (HomeStateView {
            table: Selection { row: None, column: None },
            timesheet: Some(timesheet@),
            items: loaded_items(views(entries@), 0),
            items_to_delete: Seq::empty(),
        }),
        all_wf(loaded.0@.items),
        loaded.1 == entries.len() - loaded.0.items.len(),
{
    let mut items: Vec<TimeItem> = Vec::new();
    let total = entries.len();
    let mut i: usize = total;
    while i > 0
        invariant
            total == entries.len(),
            i <= total,
            views(items@) == loaded_items(views(entries@), i as int),
            all_wf(views(items@)),
            items.len() <= total - i,
        decreases i,
    {
        i -= 1;
        match TimeItem::try_from(&entries[i]) {
            Some(item) => {
                let ghost before = views(items@);
                items.insert(0, item);
                proof {
                    assert forall|k: int| 0 <= k < items.len() implies (#[trigger] views(
                        items@,
                    )[k]).wf() by {
                        if k > 0 {
                            assert(views(items@)[k] == before[k - 1]);
                        }
                    }
                }
            },
            None => {},
        }
    }
    let skipped = total - items.len();
    let state = HomeState {
        table: Selection::new(),
        timesheet: Some(timesheet),
        items,
        items_to_delete: Vec::new(),
    };
    assert(state@.items_to_delete =~= Seq::empty());
    (state, skipped)
}

/// The selected cell of the table, if any: a row and a column.
#[derive(Debug, Clone, Copy)]
pub struct Selection {
    pub row: Option<usize>,
    pub column: Option<usize>,
}

impl Selection {
    /// The selection points into a table of `rows` rows.
    pub open spec fn wf(self, rows: int) -> bool {
        &&& self.row matches Some(r) ==> r < rows
        &&& self.column matches Some(c) ==> c < TIME_ITEM_WIDTH
    }

    pub open spec fn with_row(self, row: Option<usize>) -> Selection {
        Selection { row, ..self }
    }

    pub open spec fn with_column(self, column: Option<usize>) -> Selection {
        Selection { column, ..self }
    }

    /// One row down, stopping at the last; the first row if none was
    /// selected.
    pub open spec fn next(self, rows: int) -> Selection {
        self.with_row(
            Some(
                match self.row {
                    Some(r) => if r + 1 < rows {
                        (r + 1) as usize
                    } else {
                        (rows - 1) as usize
                    },
                    None => 0,
                },
            ),
        )
    }

    /// One row up, stopping at the first; the last row if none was selected.
    pub open spec fn previous(self, rows: int) -> Selection {
        self.with_row(
            Some(
                match self.row {
                    Some(r) => if r > 0 {
                        (r - 1) as usize
                    } else {
                        0
                    },
                    None => (rows - 1) as usize,
                },
            ),
        )
    }

    /// One column to the right, stopping at the last; the first column if
    /// none was selected.
    pub open spec fn next_column(self) -> Selection {
        self.with_column(
            Some(
                match self.column {
                    Some(c) => if c + 1 < TIME_ITEM_WIDTH {
                        (c + 1) as usize
                    } else {
                        (TIME_ITEM_WIDTH - 1) as usize
                    },
                    None => 0,
                },
            ),
        )
    }

    /// One column to the left, stopping at the first; the last column if
    /// none was selected.
    pub open spec fn previous_column(self) -> Selection {
        self.with_column(
            Some(
                match self.column {
                    Some(c) => if c > 0 {
                        (c - 1) as usize
                    } else {
                        0
                    },
                    None => (TIME_ITEM_WIDTH - 1) as usize,
                },
            ),
        )
    }

    /// Nothing selected.
    pub fn new() -> (s: Self)
        ensures
            s == (Selection { row: None, column: None }),
    {
        Selection { row: None, column: None }
    }

    pub fn selected(&self) -> (row: Option<usize>)
        ensures
            row == self.row,
    {
        self.row
    }

    pub fn selected_column(&self) -> (column: Option<usize>)
        ensures
            column == self.column,
    {
        self.column
    }

    pub fn select(&mut self, index: Option<usize>)
        ensures
            *final(self) == old(self).with_row(index),
    {
        self.row = index;
    }

    pub fn select_column(&mut self, index: Option<usize>)
        ensures
            *final(self) == old(self).with_column(index),
    {
        self.column = index;
    }

    pub fn select_next(&mut self, rows: usize)
        requires
            rows >= 1,
        ensures
            *final(self) == old(self).next(rows as int),
    {
        self.row = Some(
            match self.row {
                Some(r) => if r < rows - 1 {
                    r + 1
                } else {
                    rows - 1
                },
                None => 0,
            },
        );
    }

    pub fn select_previous(&mut self, rows: usize)
        requires
            rows >= 1,
        ensures
            *final(self) == old(self).previous(rows as int),
    {
        self.row = Some(
            match self.row {
                Some(r) => if r > 0 {
                    r - 1
                } else {
                    0
                },
                None => rows - 1,
            },
        );
    }

    pub fn select_first(&mut self)
        ensures
            *final(self) == old(self).with_row(Some(0)),
    {
        self.row = Some(0);
    }

    pub fn select_last(&mut self, rows: usize)
        requires
            rows >= 1,
        ensures
            *final(self) == old(self).with_row(Some((rows - 1) as usize)),
    {
        self.row = Some(rows - 1);
    }

    pub fn select_first_column(&mut self)
        ensures
            *final(self) == old(self).with_column(Some(0)),
    {
        self.column = Some(0);
    }

    pub fn select_last_column(&mut self)
        ensures
            *final(self) == old(self).with_column(Some((TIME_ITEM_WIDTH - 1) as usize)),
    {
        self.column = Some(TIME_ITEM_WIDTH - 1);
    }

    pub fn select_next_column(&mut self)
        ensures
            *final(self) == old(self).next_column(),
    {
        self.column = Some(
            match self.column {
                Some(c) => if c < TIME_ITEM_WIDTH - 1 {
                    c + 1
                } else {
                    TIME_ITEM_WIDTH - 1
                },
                None => 0,
            },
        );
    }

    pub fn select_previous_column(&mut self)
        ensures
            *final(self) == old(self).previous_column(),
    {
        self.column = Some(
            match self.column {
                Some(c) => if c > 0 {
                    c - 1
                } else {
                    0
                },
                None => TIME_ITEM_WIDTH - 1,
            },
        );
    }
}

/// The day as it is being edited.
#[derive(Debug)]
pub struct HomeState {
    /// The selected cell.
    pub table: Selection,
    /// The day's header, once the day has been loaded.
    pub timesheet: Option<Timesheet>,
    /// The timeline, first block first.
    pub items: Vec<TimeItem>,
    /// Blocks that left the timeline and are still in the store.
    pub items_to_delete: Vec<TimeItem>,
}

pub struct HomeStateView {
    pub table: Selection,
    pub timesheet: Option<TimesheetView>,
    pub items: Blocks,
    pub items_to_delete: Blocks,
}

impl View for HomeState {
    type V = HomeStateView;

    open spec fn view(&self) -> HomeStateView {
        HomeStateView {
            table: self.table,
            timesheet: match self.timesheet {
                Some(sheet) => Some(sheet@),
                None => None,
            },
            items: views(self.items@),
            items_to_delete: views(self.items_to_delete@),
        }
    }
}

impl HomeStateView {
    /// The state before anything was loaded: one row that says so, nothing
    /// selected.
    pub open spec fn initial() -> HomeStateView {
        HomeStateView {
            table: Selection { row: None, column: None },
            timesheet: None,
            items: seq![
                (TimeItemView {
                    description: "Loading..."@,
                    ..TimeItemView::blank(LOADING_ID@, 0, 0)
                }),
            ],
            items_to_delete: Seq::empty(),
        }
    }

    /// The timeline is not empty, every block is within its bounds and can
    /// take another edit, and the selection points into the table.
    pub open spec fn wf(self) -> bool {
        &&& self.items.len() >= 1
        &&& all_wf(self.items)
        &&& self.table.wf(self.items.len() as int)
    }

    /// The state with `text` written into a text cell of the selected row.
    pub open spec fn with_text(self, field: TextField, text: Seq<char>) -> HomeStateView {
        let row = self.table.row.unwrap() as int;
        HomeStateView { items: self.items.update(row, self.items[row].with_text(field, text)), ..self }
    }

    /// The state with a blank open block after the last row, selected in
    /// its first column.
    pub open spec fn with_next_row(self, new_id: Seq<char>) -> HomeStateView {
        HomeStateView {
            items: self.items.push(
                TimeItemView::blank(new_id, 0, self.items.last().next_start_time()),
            ),
            table: Selection { row: Some(self.items.len() as usize), column: Some(0) },
            ..self
        }
    }

    /// The state after block `idx` was halved.
    pub open spec fn split(self, idx: int, new_id: Seq<char>) -> HomeStateView {
        HomeStateView { items: split_down(self.items, idx, new_id), ..self }
    }

    /// The state after block `idx` was merged with its successor.
    pub open spec fn merged(self, idx: int) -> HomeStateView {
        HomeStateView {
            items: merge_down(self.items, idx),
            items_to_delete: self.items_to_delete.push(self.items[idx + 1]),
            table: clamp_row(self.table, self.items.len() - 1),
            ..self
        }
    }

    /// The state after block `idx` was given `minutes`. On the last row the
    /// new open block is selected.
    pub open spec fn with_duration(self, idx: int, minutes: int, new_id: Seq<char>) -> HomeStateView {
        let (items, removed) = with_duration(self.items, idx, minutes, new_id);
        HomeStateView {
            items,
            items_to_delete: self.items_to_delete + removed,
            table: if idx == self.items.len() - 1 {
                Selection { row: Some((idx + 1) as usize), column: Some(0) }
            } else {
                clamp_row(self.table, items.len() as int)
            },
            ..self
        }
    }

    /// Why block `idx` cannot start at `time`, if it cannot.
    pub open spec fn start_time_error(self, idx: int, time: int) -> Option<EditErrorView> {
        match start_time_refusal(self.items, idx, time) {
            Some(StartTimeRefusal::BeforePrevious) => Some(
                EditErrorView::BeforePrevious(self.items[idx - 1].start_time),
            ),
            Some(StartTimeRefusal::AfterNext) => Some(
                EditErrorView::AfterNext(self.items[idx + 1].start_time),
            ),
            Some(StartTimeRefusal::OutsideDay) => Some(EditErrorView::OutsideDay),
            None => None,
        }
    }

    /// The state after block `idx` was made to start at `time`.
    pub open spec fn with_start_time(self, idx: int, time: int) -> HomeStateView {
        HomeStateView { items: with_start_time(self.items, idx, time), ..self }
    }

    pub open spec fn is_last_row_selected(self) -> bool {
        self.table.row == Some((self.items.len() - 1) as usize)
    }

    pub open spec fn is_last_column_selected(self) -> bool {
        self.table.column == Some((TIME_ITEM_WIDTH - 1) as usize)
    }
}

impl Default for HomeState {
    fn default() -> (state: Self)
        ensures
            state@ == HomeStateView::initial(),
            state@.wf(),
    {
        let mut items: Vec<TimeItem> = Vec::new();
        items.push(TimeItem::loading());
        let state = HomeState {
            table: Selection::new(),
            timesheet: None,
            items,
            items_to_delete: Vec::new(),
        };
        assert(state@.items =~= HomeStateView::initial().items);
        assert(state@.items_to_delete =~= Seq::empty());
        state
    }
}

impl HomeState {
    pub open spec fn wf(&self) -> bool {
        self@.wf()
    }

    /// Whether the state is as `wf` asks: the functions that edit the day
    /// are called on such a state only.
    pub fn is_well_formed(&self) -> (b: bool)
        ensures
            b == self.wf(),
    {
        let rows = self.items.len();
        if rows == 0 {
            return false;
        }
        let row_fits = match self.table.row {
            Some(r) => r < rows,
            None => true,
        };
        let column_fits = match self.table.column {
            Some(c) => c < TIME_ITEM_WIDTH,
            None => true,
        };
        if !row_fits || !column_fits {
            return false;
        }
        let mut i: usize = 0;
        while i < rows
            invariant
                rows == self.items.len(),
                i <= rows,
                forall|k: int| 0 <= k < i ==> (#[trigger] self@.items[k]).wf(),
            decreases rows - i,
        {
            let item = &self.items[i];
            assert(self@.items[i as int] == item@);
            let fits = item.start_time < MINUTES_PER_DAY && item.duration <= MAX_DURATION_MINS;
            if !fits || item.version.saved == i32::MAX {
                return false;
            }
            i += 1;
        }
        true
    }

    /// The selected row.
    pub fn expect_selected_item(&self) -> (item: &TimeItem)
        requires
            self.table.row matches Some(r) && r < self.items.len(),
        ensures
            *item == self.items[self.table.row.unwrap() as int],
    {
        match self.table.selected() {
            Some(idx) => &self.items[idx],
            None => vstd::pervasive::unreached(),
        }
    }

    /// The selected row, or the first row if none is selected, to be
    /// changed: the edit is counted before the row is handed out.
    pub fn expect_selected_item_mut(&mut self) -> (item: &mut TimeItem)
        requires
            old(self).wf(),
        ensures
            *item == (TimeItem {
                version: old(self).items[old(self).edited_row()].version.touched(),
                ..old(self).items[old(self).edited_row()]
            }),
            final(self).items@ == old(self).items@.update(old(self).edited_row(), *final(item)),
            final(self).items_to_delete == old(self).items_to_delete,
            final(self).table == old(self).table,
            final(self).timesheet == old(self).timesheet,
    {
        let idx = match self.table.selected() {
            Some(idx) => idx,
            None => 0,
        };
        assert(old(self)@.items[idx as int].wf());
        self.items[idx].version.touch();
        &mut self.items[idx]
    }

    /// The row that an edit goes to: the selected one, or the first.
    pub open spec fn edited_row(&self) -> int {
        match self.table.row {
            Some(row) => row as int,
            None => 0,
        }
    }

    /// The selected row, if a row is selected and exists.
    pub fn maybe_selected_item(&self) -> (item: Option<&TimeItem>)
        ensures
            match self.table.row {
                Some(r) => if r < self.items.len() {
                    item == Some(&self.items[r as int])
                } else {
                    item.is_none()
                },
                None => item.is_none(),
            },
    {
        match self.table.selected() {
            Some(idx) => if idx < self.items.len() {
                Some(&self.items[idx])
            } else {
                None
            },
            None => None,
        }
    }

    pub fn ensure_column_selected(&mut self)
        ensures
            final(self).items == old(self).items,
            final(self).items_to_delete == old(self).items_to_delete,
            final(self).timesheet == old(self).timesheet,
            final(self)@ == (HomeStateView {
                table: if old(self).table.column.is_none() {
                    old(self).table.with_column(Some(0))
                } else {
                    old(self).table
                },
                ..old(self)@
            }),
    {
        if self.table.selected_column().is_none() {
            self.table.select_first_column();
        }
    }

    pub fn ensure_row_selected(&mut self)
        ensures
            final(self).items == old(self).items,
            final(self).items_to_delete == old(self).items_to_delete,
            final(self).timesheet == old(self).timesheet,
            final(self)@ == (HomeStateView {
                table: if old(self).table.row.is_none() {
                    old(self).table.with_row(Some(0))
                } else {
                    old(self).table
                },
                ..old(self)@
            }),
    {
        if self.table.selected().is_none() {
            self.table.select_first();
        }
    }

    pub fn is_last_column_selected(&self) -> (b: bool)
        ensures
            b == self@.is_last_column_selected(),
    {
        match self.table.selected_column() {
            Some(c) => c == TIME_ITEM_WIDTH - 1,
            None => false,
        }
    }

    pub fn is_last_row_selected(&self) -> (b: bool)
        requires
            self.items.len() >= 1,
        ensures
            b == self@.is_last_row_selected(),
    {
        match self.table.selected() {
            Some(r) => r == self.items.len() - 1,
            None => false,
        }
    }

    /// Writes `text` into a text cell of the selected row.
    pub fn set_selected_text(&mut self, field: TextField, text: &str) -> (r: Result<(), EditError>)
        requires
            old(self).wf(),
        ensures
            final(self).wf(),
            r.is_ok() == old(self).table.row.is_some(),
            r.is_ok() ==> final(self)@ == old(self)@.with_text(field, text@),
            r matches Err(e) ==> final(self)@ == old(self)@ && e@ == EditErrorView::NoSelection,
    {
        match self.table.selected() {
            Some(row) => {
                self.items[row].version.touch();
                match field {
                    TextField::Project => {
                        self.items[row].project = text.to_owned();
                    },
                    TextField::Ticket => {
                        self.items[row].ticket = text.to_owned();
                    },
                    TextField::Description => {
                        self.items[row].description = text.to_owned();
                    },
                }
                proof {
                    let out = old(self)@.with_text(field, text@).items;
                    assert(views(self.items@) =~= out);
                }
                Ok(())
            },
            None => Err(EditError::NoSelection),
        }
    }

    /// Adds a blank open block with the identifier `new_id` after the last
    /// row, where that row ends, and selects its first cell.
    pub fn append_next_row(&mut self, new_id: String) -> (r: Result<(), EditError>)
        requires
            old(self).wf(),
        ensures
            final(self).wf(),
            r.is_ok() == (old(self)@.items.last().next_start_time() < MINUTES_PER_DAY),
            r.is_ok() ==> final(self)@ == old(self)@.with_next_row(new_id@),
            r matches Err(e) ==> final(self)@ == old(self)@ && e@ == EditErrorView::OutsideDay,
    {
        let len = self.items.len();
        let end = self.items[len - 1].next_start_time();
        if end >= MINUTES_PER_DAY {
            return Err(EditError::OutsideDay);
        }
        self.items.push(TimeItem::with_id(new_id, 0, end));
        self.table.select_last(self.items.len());
        self.table.select_first_column();
        proof {
            let out = old(self)@.with_next_row(new_id@).items;
            assert(views(self.items@) =~= out);
        }
        Ok(())
    }

    /// Why block `idx` cannot be halved, if it cannot.
    pub fn split_refusal(&self, idx: usize) -> (refusal: Option<EditError>)
        ensures
            refusal.is_none() == can_split(self@.items, idx as int),
            refusal matches Some(e) ==> e@ == split_error(self@.items, idx as int),
    {
        if idx >= self.items.len() {
            return Some(EditError::NoSelection);
        }
        let item = &self.items[idx];
        assert(self@.items[idx as int] == item@);
        if item.duration <= 1 {
            return Some(EditError::CannotSplitFurther);
        }
        let (first, _) = split_in_half(item.duration);
        if item.start_time as u64 + first as u64 >= MINUTES_PER_DAY as u64 {
            return Some(EditError::OutsideDay);
        }
        None
    }

    /// Halves block `idx`: it keeps the first half of its time, and a blank
    /// block with the identifier `new_id` takes the second half right
    /// after it. A block whose second half would start at midnight or
    /// after it is left whole.
    pub fn split_item_down(&mut self, idx: usize, new_id: String) -> (r: Result<(), EditError>)
        requires
            old(self).wf(),
        ensures
            final(self).wf(),
            r.is_ok() == can_split(old(self)@.items, idx as int),
            r.is_ok() ==> final(self)@ == old(self)@.split(idx as int, new_id@),
            r matches Err(e) ==> final(self)@ == old(self)@ && e@ == split_error(
                old(self)@.items,
                idx as int,
            ),
    {
        match self.split_refusal(idx) {
            Some(refusal) => {
                return Err(refusal);
            },
            None => {},
        }
        assert(idx < self@.items.len() == self.items.len());
        let (first, second) = split_in_half(self.items[idx].duration);
        let start = self.items[idx].start_time;
        self.items[idx].version.touch();
        self.items[idx].duration = first;
        self.items.insert(idx + 1, TimeItem::with_id(new_id, second, start + first));
        proof {
            assert(final(self)@.items =~= split_down(old(self)@.items, idx as int, new_id@));
        }
        Ok(())
    }

    /// Merges block `idx` with the block after it: that block's time and
    /// description go to block `idx`, and the block itself waits to be
    /// deleted. The merged block may reach past midnight; it is refused only
    /// where it would last longer than a block can.
    pub fn merge_item_down(&mut self, idx: usize) -> (r: Result<(), EditError>)
        requires
            old(self).wf(),
        ensures
            final(self).wf(),
            r.is_ok() == can_merge(old(self)@.items, idx as int),
            r.is_ok() ==> final(self)@ == old(self)@.merged(idx as int),
            r matches Err(e) ==> final(self)@ == old(self)@ && e@ == merge_error(
                old(self)@.items,
                idx as int,
            ),
    {
        let len = self.items.len();
        if idx >= len {
            return Err(EditError::NoSelection);
        }
        if idx + 1 >= len {
            return Err(EditError::NothingToMerge);
        }
        let total: u64 = self.items[idx].duration as u64 + self.items[idx + 1].duration as u64;
        if total > MAX_DURATION_MINS as u64 {
            return Err(EditError::OutsideDay);
        }
        let obsolete = self.items.remove(idx + 1);
        self.items[idx].version.touch();
        self.items[idx].duration = self.items[idx].duration + obsolete.duration;
        self.items[idx].description.append(" / ");
        self.items[idx].description.append(obsolete.description.as_str());
        self.items_to_delete.push(obsolete);
        match self.table.row {
            Some(r) => if r >= len - 1 {
                self.table.row = Some(len - 2);
            },
            None => {},
        }
        proof {
            reveal_strlit(" / ");
            assert(" / "@ =~= separator());
            assert(final(self)@.items =~= merge_down(old(self)@.items, idx as int));
            assert(final(self)@.items_to_delete =~= old(self)@.items_to_delete.push(
                old(self)@.items[idx + 1],
            ));
        }
        Ok(())
    }

    /// Gives block `idx` a duration of `minutes`. On the last row a blank
    /// open block with the identifier `new_id` is added where the block now
    /// ends, and becomes the selected row. On any other row the blocks that
    /// follow give or take the time: those that the block now covers leave
    /// the timeline and wait to be deleted, and the first one that it does
    /// not cover starts where the block ends. The edit is refused where it
    /// would make a block start at midnight or after it.
    pub fn edit_duration(&mut self, idx: usize, minutes: u32, new_id: String) -> (r: Result<
        (),
        EditError,
    >)
        requires
            old(self).wf(),
        ensures
            final(self).wf(),
            r.is_ok() == can_set_duration(old(self)@.items, idx as int, minutes as int),
            r.is_ok() ==> final(self)@ == old(self)@.with_duration(
                idx as int,
                minutes as int,
                new_id@,
            ),
            r matches Err(e) ==> final(self)@ == old(self)@ && e@ == if idx >= old(
                self,
            ).items.len() {
                EditErrorView::NoSelection
            } else if minutes == 0 {
                EditErrorView::NotWholeMinutes
            } else {
                EditErrorView::OutsideDay
            },
    {
        let len = self.items.len();
        if idx >= len {
            return Err(EditError::NoSelection);
        }
        if minutes == 0 {
            return Err(EditError::NotWholeMinutes);
        }
        if minutes > MAX_DURATION_MINS {
            return Err(EditError::OutsideDay);
        }
        let end: u32 = self.items[idx].start_time + minutes;
        let ghost before = old(self)@.items;
        if idx == len - 1 {
            if end >= MINUTES_PER_DAY {
                return Err(EditError::OutsideDay);
            }
            self.items[idx].version.touch();
            self.items[idx].duration = minutes;
            self.items.push(TimeItem::with_id(new_id, 0, end));
            self.table.select_last(self.items.len());
            self.table.select_first_column();
            proof {
                assert(final(self)@.items =~= with_duration(
                    before,
                    idx as int,
                    minutes as int,
                    new_id@,
                ).0);
            }
            return Ok(());
        }
        let stop = walk_to_stop(&self.items, idx + 1, end);
        proof {
            lemma_walk_stop(before, idx + 1, end as int);
        }
        if stop < len && !can_adjust(&self.items, stop, end) {
            return Err(EditError::OutsideDay);
        }
        self.items[idx].version.touch();
        self.items[idx].duration = minutes;
        if stop < len {
            adjust_item(&mut self.items, stop, end);
        }
        let ghost mid = self.items@;
        proof {
            let expected = with_duration(before, idx as int, minutes as int, new_id@);
            assert(views(mid).take(idx + 1) + views(mid).skip(stop as int) =~= expected.0);
            assert(views(mid).subrange(idx + 1, stop as int) =~= expected.1);
        }
        self.drain_items(idx + 1..stop);
        let rows = self.items.len();
        match self.table.row {
            Some(r) => if r >= rows {
                self.table.row = Some(rows - 1);
            },
            None => {},
        }
        Ok(())
    }

    /// Takes the rows from `range.start` up to, not including, `range.end`
    /// out of the timeline and lets them wait to be deleted.
    pub fn drain_items(&mut self, range: core::ops::Range<usize>)
        requires
            range.start <= range.end <= old(self).items.len(),
        ensures
            final(self).items@ == old(self).items@.take(range.start as int) + old(
                self,
            ).items@.skip(range.end as int),
            final(self).items_to_delete@ == old(self).items_to_delete@ + old(
                self,
            ).items@.subrange(range.start as int, range.end as int),
            final(self)@.items == old(self)@.items.take(range.start as int) + old(
                self,
            )@.items.skip(range.end as int),
            final(self)@.items_to_delete == old(self)@.items_to_delete + old(
                self,
            )@.items.subrange(range.start as int, range.end as int),
            final(self).table == old(self).table,
            final(self).timesheet == old(self).timesheet,
    {
        let from = range.start;
        let count = range.end - range.start;
        let ghost mid = self.items@;
        let ghost waiting = self.items_to_delete@;
        let mut taken: usize = 0;
        while taken < count
            invariant
                from + count <= mid.len(),
                taken <= count,
                self.items@ == mid.take(from as int) + mid.skip(from + taken),
                self.items_to_delete@ == waiting + mid.subrange(from as int, from + taken),
                self.table == old(self).table,
                self.timesheet == old(self).timesheet,
            decreases count - taken,
        {
            let obsolete = self.items.remove(from);
            self.items_to_delete.push(obsolete);
            taken += 1;
        }
    }

    /// Makes block `idx` start at `time`. The block before it then ends
    /// there, and the block itself keeps its end, unless it is open. A time
    /// between the starts of the neighbours is refused only where it would
    /// leave a block with a duration below nothing or above what a block can
    /// last.
    pub fn edit_start_time(&mut self, idx: usize, time: u32) -> (r: Result<(), EditError>)
        requires
            old(self).wf(),
        ensures
            final(self).wf(),
            r.is_ok() == (idx < old(self).items.len() && start_time_refusal(
                old(self)@.items,
                idx as int,
                time as int,
            ).is_none()),
            r.is_ok() ==> final(self)@ == old(self)@.with_start_time(idx as int, time as int),
            r matches Err(e) ==> final(self)@ == old(self)@ && Some(e@) == if idx >= old(
                self,
            ).items.len() {
                Some(EditErrorView::NoSelection)
            } else {
                old(self)@.start_time_error(idx as int, time as int)
            },
    {
        let len = self.items.len();
        if idx >= len {
            return Err(EditError::NoSelection);
        }
        let ghost before = old(self)@.items;
        if idx > 0 {
            let previous_time = self.items[idx - 1].start_time;
            if time < previous_time {
                return Err(EditError::BeforePrevious(previous_time));
            }
        }
        if idx < len - 1 {
            let next_time = self.items[idx + 1].start_time;
            if time > next_time {
                return Err(EditError::AfterNext(next_time));
            }
        }
        if time >= MINUTES_PER_DAY {
            return Err(EditError::OutsideDay);
        }
        let my_start = self.items[idx].start_time;
        let my_duration = self.items[idx].duration;
        // the block before gives or takes the difference
        let mut previous_duration: u32 = 0;
        if idx > 0 {
            let previous = &self.items[idx - 1];
            if time >= my_start {
                let grown = previous.duration + (time - my_start);
                if grown > MAX_DURATION_MINS {
                    return Err(EditError::OutsideDay);
                }
                previous_duration = grown;
            } else {
                if previous.duration < my_start - time {
                    return Err(EditError::OutsideDay);
                }
                previous_duration = previous.duration - (my_start - time);
            }
        }
        let mut duration: u32 = 0;
        if my_duration != 0 {
            if time >= my_start {
                if my_duration < time - my_start {
                    return Err(EditError::OutsideDay);
                }
                duration = my_duration - (time - my_start);
            } else {
                let grown = my_duration + (my_start - time);
                if grown > MAX_DURATION_MINS {
                    return Err(EditError::OutsideDay);
                }
                duration = grown;
            }
        }
        if idx > 0 {
            self.items[idx - 1].version.touch();
            self.items[idx - 1].duration = previous_duration;
        }
        self.items[idx].version.touch();
        self.items[idx].duration = duration;
        self.items[idx].start_time = time;
        proof {
            assert(views(self.items@) =~= with_start_time(before, idx as int, time as int));
        }
        Ok(())
    }
}

/// Walks from row `from` over the rows that a block ending at `end` covers
/// wholly, and returns the first row that it does not cover.
fn walk_to_stop(items: &Vec<TimeItem>, from: usize, end: u32) -> (stop: usize)
    requires
        from <= items.len(),
    ensures
        stop == walk_stop(views(items@), from as int, end as int),
        from <= stop <= items.len(),
{
    let len = items.len();
    let mut stop = from;
    while stop < len && is_swallowed(items, stop, end)
        invariant
            from <= stop <= len,
            len == items.len(),
            walk_stop(views(items@), from as int, end as int) == walk_stop(
                views(items@),
                stop as int,
                end as int,
            ),
        decreases len - stop,
    {
        stop += 1;
    }
    stop
}

/// Makes row `at`, at which the walk stopped, start at `end`.
fn adjust_item(items: &mut Vec<TimeItem>, at: usize, end: u32)
    requires
        at < old(items).len(),
        old(items)[at as int]@.wf(),
        !swallowed(views(old(items)@), at as int, end as int),
        adjusted(
            old(items)@[at as int]@,
            at == old(items).len() - 1,
            end as int,
        ).in_bounds(),
    ensures
        final(items)@.len() == old(items)@.len(),
        forall|k: int| 0 <= k < old(items)@.len() && k != at ==> final(items)@[k] == old(items)@[k],
        final(items)@[at as int]@ == adjusted(
            old(items)@[at as int]@,
            at == old(items).len() - 1,
            end as int,
        ),
{
    let len = items.len();
    let b_start = items[at].start_time;
    let b_duration = items[at].duration;
    if at == len - 1 && b_duration == 0 {
        items[at].version.touch();
        items[at].start_time = end;
    } else if end != b_start {
        items[at].version.touch();
        items[at].duration = b_start + b_duration - end;
        items[at].start_time = end;
    }
}

/// Whether row `at`, at which the walk stopped, stays within its bounds
/// when it is made to start at `end`.
fn can_adjust(items: &Vec<TimeItem>, at: usize, end: u32) -> (b: bool)
    requires
        at < items.len(),
        items[at as int]@.wf(),
        !swallowed(views(items@), at as int, end as int),
    ensures
        b == adjusted(items@[at as int]@, at == items.len() - 1, end as int).in_bounds(),
{
    let b = &items[at];
    if at == items.len() - 1 && b.duration == 0 {
        end < MINUTES_PER_DAY
    } else if end == b.start_time {
        true
    } else {
        end < MINUTES_PER_DAY && b.start_time as u64 + b.duration as u64 - end as u64
            <= MAX_DURATION_MINS as u64
    }
}

/// Whether the block that now ends at `end` covers block `k` wholly.
fn is_swallowed(items: &Vec<TimeItem>, k: usize, end: u32) -> (b: bool)
    requires
        k < items.len(),
    ensures
        b == swallowed(views(items@), k as int, end as int),
{
    let b = &items[k];
    let open_last = k == items.len() - 1 && b.duration == 0;
    !open_last && b.start_time < end && b.duration <= end - b.start_time
}

/// The selection moved up to the last row where it pointed below a table of
/// `rows` rows.
pub open spec fn clamp_row(table: Selection, rows: int) -> Selection {
    match table.row {
        Some(r) => if r >= rows {
            table.with_row(Some((rows - 1) as usize))
        } else {
            table
        },
        None => table,
    }
}

/// Halves `n`: the first half takes the odd one.
pub fn split_in_half(n: u32) -> (parts: (u32, u32))
    ensures
        (parts.0 as int, parts.1 as int) == halves(n as int),
        parts.0 + parts.1 == n,
{
    let half_down = n / 2;
    let half_up = n - half_down;
    (half_up, half_down)
}

} // verus!
