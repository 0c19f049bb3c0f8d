//! Moving the selection with the arrow and tab keys.

use vstd::prelude::*;
use crate::components::home::keys::{KeyCode, KeyEvent};
use crate::components::home::state::{HomeState, HomeStateView, Selection, TIME_ITEM_WIDTH};

verus! {

impl Selection {
    /// The selection after a step up in a table of `rows` rows. In the
    /// first row only the column is made sure of.
    pub open spec fn moved_up(self, rows: int) -> Selection {
        if self.row != Some(0usize) {
            self.previous(rows)
        } else if self.column.is_none() {
            self.with_column(Some(0))
        } else {
            self
        }
    }

    /// The selection after a step down. In the last row only the column is
    /// made sure of.
    pub open spec fn moved_down(self, rows: int) -> Selection {
        if self.row != Some((rows - 1) as usize) {
            self.next(rows)
        } else if self.column.is_none() {
            self.with_column(Some(0))
        } else {
            self
        }
    }

    pub open spec fn with_row_ensured(self) -> Selection {
        if self.row.is_none() {
            self.with_row(Some(0))
        } else {
            self
        }
    }

    /// The selection after a step to the left: from the first column it
    /// goes to the last column of the row above, and stays where it is in
    /// the first row.
    pub open spec fn moved_left(self, rows: int) -> Selection {
        let at = self.with_row_ensured();
        if at.column == Some(0usize) {
            if at.row != Some(0usize) {
                at.with_column(Some((TIME_ITEM_WIDTH - 1) as usize)).previous(rows)
            } else {
                at
            }
        } else {
            at.previous_column()
        }
    }

    /// The selection after a step to the right: from the last column it
    /// goes to the first column of the row below, and stays where it is in
    /// the last row.
    pub open spec fn moved_right(self, rows: int) -> Selection {
        let at = self.with_row_ensured();
        if at.column == Some((TIME_ITEM_WIDTH - 1) as usize) {
            if at.row != Some((rows - 1) as usize) {
                at.with_column(Some(0)).next(rows)
            } else {
                at
            }
        } else {
            at.next_column()
        }
    }

    /// The selection after the key `code`.
    pub open spec fn moved(self, code: KeyCode, rows: int) -> Selection {
        match code {
            KeyCode::Up => self.moved_up(rows),
            KeyCode::Down => self.moved_down(rows),
            KeyCode::Left | KeyCode::BackTab => self.moved_left(rows),
            KeyCode::Right | KeyCode::Tab => self.moved_right(rows),
            _ => self,
        }
    }
}

/// A movement always leaves a row selected, inside the table.
pub proof fn lemma_moved_selects_a_row(table: Selection, code: KeyCode, rows: int)
    requires
        table.wf(rows),
        rows >= 1,
        code.is_movement(),
    ensures
        table.moved(code, rows).wf(rows),
        table.moved(code, rows).row.is_some(),
        code is Left || code is Right || code is Tab || code is BackTab ==> table.moved(
            code,
            rows,
        ).column.is_some(),
{
}

impl HomeStateView {
    pub open spec fn moved(self, code: KeyCode) -> HomeStateView {
        HomeStateView { table: self.table.moved(code, self.items.len() as int), ..self }
    }
}

/// Whether the key moves the selection.
pub fn is_movement(key: KeyEvent) -> (b: bool)
    ensures
        b == key.code.is_movement(),
{
    match key.code {
        KeyCode::Left | KeyCode::Right | KeyCode::BackTab | KeyCode::Tab | KeyCode::Down | KeyCode::Up => true,
        _ => false,
    }
}

/// Moves the selection as the key asks. Returns whether the key is one that
/// moves the selection.
pub fn handle_movement(state: &mut HomeState, key: KeyEvent) -> (moved: bool)
    requires
        old(state).wf(),
    ensures
        moved == key.code.is_movement(),
        final(state)@ == old(state)@.moved(key.code),
        final(state).wf(),
        final(state).items == old(state).items,
        final(state).items_to_delete == old(state).items_to_delete,
        final(state).timesheet == old(state).timesheet,
{
    let rows = state.items.len();
    match key.code {
        KeyCode::Up => {
            let at_first = match state.table.selected() {
                Some(r) => r == 0,
                None => false,
            };
            if !at_first {
                state.table.select_previous(rows);
                return true;
            }
            state.ensure_column_selected();
            true
        },
        KeyCode::Down => {
            let at_last = match state.table.selected() {
                Some(r) => r == rows - 1,
                None => false,
            };
            if !at_last {
                state.table.select_next(rows);
                return true;
            }
            state.ensure_column_selected();
            true
        },
        KeyCode::Left | KeyCode::BackTab => select_previous_column(state),
        KeyCode::Right | KeyCode::Tab => select_next_column(state),
        _ => false,
    }
}

fn select_previous_column(state: &mut HomeState) -> (moved: bool)
    requires
        old(state).wf(),
    ensures
        moved,
        final(state).table == old(state).table.moved_left(old(state).items.len() as int),
        final(state).items == old(state).items,
        final(state).items_to_delete == old(state).items_to_delete,
        final(state).timesheet == old(state).timesheet,
        final(state).wf(),
{
    state.ensure_row_selected();
    let rows = state.items.len();
    let in_first_row = match state.table.selected() {
        Some(r) => r == 0,
        None => false,
    };
    let in_first_column = match state.table.selected_column() {
        Some(c) => c == 0,
        None => false,
    };
    let want_wrap = in_first_column;
    if want_wrap {
        let can_wrap = !in_first_row;
        if can_wrap {
            state.table.select_last_column();
            state.table.select_previous(rows);
        }
        return true;
    }
    state.table.select_previous_column();
    true
}

fn select_next_column(state: &mut HomeState) -> (moved: bool)
    requires
        old(state).wf(),
    ensures
        moved,
        final(state).table == old(state).table.moved_right(old(state).items.len() as int),
        final(state).items == old(state).items,
        final(state).items_to_delete == old(state).items_to_delete,
        final(state).timesheet == old(state).timesheet,
        final(state).wf(),
{
    state.ensure_row_selected();
    let rows = state.items.len();
    let in_last_row = state.is_last_row_selected();
    let in_last_column = state.is_last_column_selected();
    let want_wrap = in_last_column;
    if want_wrap {
        let can_wrap = !in_last_row;
        if can_wrap {
            state.table.select_first_column();
            state.table.select_next(rows);
        }
        return true;
    }
    state.table.select_next_column();
    true
}

} // verus!
