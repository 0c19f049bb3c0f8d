//! The day view while a cell may be selected and no editor is open.

use vstd::prelude::*;
use crate::components::home::action::{HomeAction, HomeActionView};
use crate::components::home::editing::mode::{option_mode_view, EditMode, EditModeView};
use crate::components::home::keys::{KeyCode, KeyEvent};
use crate::components::home::movement::handle_movement;
use crate::components::home::state::{HomeState, HomeStateView, Selection, TIME_ITEM_WIDTH};

verus! {

#[derive(Debug)]
pub struct Select {}

/// The column whose editor a key opens at once, whatever cell is selected.
pub open spec fn jump_column(code: KeyCode) -> Option<usize> {
    match code {
        KeyCode::Char(c) => if c == '#' {
            Some(0)
        } else if c == 't' {
            Some(2)
        } else if c == 'x' {
            Some(3)
        } else if c == 'd' {
            Some(4)
        } else {
            None
        },
        _ => None,
    }
}

/// What a key does while no editor is open. A jump key selects the first
/// row if none is selected and opens its editor. Otherwise the arrow and
/// tab keys move the selection, End selects the last cell, Esc gives the
/// selection up, and Space opens the editor of the selected cell.
pub open spec fn select_key_step(state: HomeStateView, code: KeyCode) -> (
    HomeStateView,
    HomeActionView,
) {
    match jump_column(code) {
        Some(column) => {
            let there = HomeStateView { table: state.table.with_row_ensured(), ..state };
            (there, HomeActionView::EnterEditSpecific(EditModeView::for_column(column, there)))
        },
        None => {
            let moved = state.moved(code);
            match code {
                KeyCode::End => (
                    HomeStateView {
                        table: Selection {
                            row: Some((state.items.len() - 1) as usize),
                            column: Some((TIME_ITEM_WIDTH - 1) as usize),
                        },
                        ..state
                    },
                    HomeActionView::Nothing,
                ),
                KeyCode::Esc => (
                    HomeStateView { table: state.table.with_row(None), ..state },
                    HomeActionView::ExitSelect,
                ),
                KeyCode::Char(c) => if c == ' ' {
                    (
                        state,
                        HomeActionView::EnterEditSpecific(
                            match state.table.column {
                                Some(column) => if state.table.row.is_some() {
                                    EditModeView::for_column(column, state)
                                } else {
                                    None
                                },
                                None => None,
                            },
                        ),
                    )
                } else {
                    (state, HomeActionView::Nothing)
                },
                _ => (moved, HomeActionView::Nothing),
            }
        },
    }
}

fn handle_jump_key(state: &mut HomeState, key: KeyEvent) -> (mode: Option<EditMode>)
    requires
        old(state).wf(),
    ensures
        final(state).wf(),
        mode.is_some() == jump_column(key.code).is_some(),
        jump_column(key.code) matches Some(column) ==> final(state)@ == (HomeStateView {
            table: old(state).table.with_row_ensured(),
            ..old(state)@
        }) && option_mode_view(mode)
            == EditModeView::for_column(column, final(state)@),
        jump_column(key.code).is_none() ==> *final(state) == *old(state),
{
    let column: usize = match key.code {
        KeyCode::Char(c) => {
            if c == '#' {
                0
            } else if c == 't' {
                2
            } else if c == 'x' {
                3
            } else if c == 'd' {
                4
            } else {
                return None;
            }
        },
        _ => {
            return None;
        },
    };
    state.ensure_row_selected();
    EditMode::from_column_num(column, state)
}

impl Select {
    pub fn handle_key_event(&mut self, state: &mut HomeState, key: KeyEvent) -> (action: HomeAction)
        requires
            old(state).wf(),
        ensures
            final(state).wf(),
            (final(state)@, action@) == select_key_step(old(state)@, key.code),
    {
        match handle_jump_key(state, key) {
            Some(next_mode) => {
                return HomeAction::EnterEditSpecific(Some(next_mode));
            },
            None => {},
        }
        let _ = handle_movement(state, key);
        match key.code {
            KeyCode::End => {
                state.table.select_last(state.items.len());
                state.table.select_last_column();
            },
            KeyCode::Esc => {
                state.table.select(None);
                return HomeAction::ExitSelect;
            },
            KeyCode::Char(c) => {
                if c == ' ' {
                    let mode_opt = match state.table.selected_column() {
                        Some(idx) => if state.table.selected().is_some() {
                            EditMode::from_column_num(idx, state)
                        } else {
                            None
                        },
                        None => None,
                    };
                    return HomeAction::EnterEditSpecific(mode_opt);
                }
            },
            _ => {},
        }
        HomeAction::Nothing
    }
}

} // verus!
