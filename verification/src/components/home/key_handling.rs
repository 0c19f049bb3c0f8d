//! What a key press asks of the day view.

use vstd::prelude::*;
use crate::components::home::editing::mode::EditModeView;
use crate::components::home::editing::shared::text_key_step;
use crate::components::home::editing::ticket::SuggestActionView;
use crate::components::home::timeline::TextField;
use crate::components::home::action::{splits_in, splits_in_all, HomeAction, HomeActionView};
use crate::components::home::editing::select::{select_key_step, Select};
use crate::components::home::keys::{KeyCode, KeyEvent, KeyEventKind};
use crate::components::home::movement::handle_movement;
use crate::components::home::{Home, HomeView};

verus! {

/// What a key does while no editor is open. Before the day is loaded,
/// nothing. While a row is selected, `s` halves it and `S` merges it with
/// the next one. While none is selected, a key that moves the selection
/// starts selecting, and Esc leaves for the calendar. Every other key does
/// what it does in the selecting state.
pub open spec fn outside_key_step(home: HomeView, code: KeyCode) -> (HomeView, HomeActionView) {
    if home.state.timesheet.is_none() {
        (home, HomeActionView::Nothing)
    } else {
        match home.state.table.row {
            Some(row) => {
                if code == KeyCode::Char('s') {
                    (home, HomeActionView::SplitItemDown(row))
                } else if code == KeyCode::Char('S') {
                    (home, HomeActionView::MergeItemDown(row))
                } else {
                    let (state, action) = select_key_step(home.state, code);
                    (HomeView { state, ..home }, action)
                }
            },
            None => {
                if code.is_movement() {
                    (HomeView { state: home.state.moved(code), ..home }, HomeActionView::EnterSelect)
                } else if code is Esc {
                    (home, HomeActionView::ExitToCalendar)
                } else {
                    let (state, action) = select_key_step(home.state, code);
                    (HomeView { state, ..home }, action)
                }
            },
        }
    }
}

/// What a key event does to the day view, and what it asks for. Only
/// presses count. A key goes to the open editor if there is one.
pub open spec fn key_step(home: HomeView, key: KeyEvent, new_id: Seq<char>) -> (
    HomeView,
    HomeActionView,
) {
    if !(key.kind is Press) {
        (home, HomeActionView::Nothing)
    } else {
        match home.edit_mode {
            Some(mode) => {
                let (editor, state, action) = mode.key_step(home.state, key.code, new_id);
                (HomeView { edit_mode: Some(editor), state, ..home }, action)
            },
            None => outside_key_step(home, key.code),
        }
    }
}

/// An action that is neither a list nor a split.
pub open spec fn is_plain(action: HomeActionView) -> bool {
    !(action is Many) && !(action is SplitItemDown)
}

/// A plain action adds no block, alone or with a query for tickets after
/// it.
pub proof fn lemma_plain_has_no_split(action: HomeActionView, query: Seq<char>)
    requires
        is_plain(action),
    ensures
        splits_in(action) == 0,
        splits_in(action.add(HomeActionView::SuggestTickets(query))) == 0,
{
    reveal_with_fuel(splits_in_all, 4);
    if !(action is Nothing) {
        let list = seq![action, HomeActionView::SuggestTickets(query)];
        assert(splits_in_all(list, 0) == 0);
    }
}

/// A key asks for one new block at most.
pub proof fn lemma_key_step_splits(home: HomeView, key: KeyEvent, new_id: Seq<char>)
    ensures
        splits_in(key_step(home, key, new_id).1) <= 1,
{
    // only the ticket editor answers with a list: what the text editor
    // asked for, and then the query for suggestions
    if key.kind is Press {
        match home.edit_mode {
            Some(EditModeView::Ticket(ticket)) => {
                let (suggestion, taken) = ticket.suggestion.key_step(key.code);
                if !(taken is Done) {
                    let text = match taken {
                        SuggestActionView::Accept(suggested) => suggested,
                        _ => ticket.buf,
                    };
                    let step = text_key_step(TextField::Ticket, text, home.state, key.code);
                    lemma_plain_has_no_split(step.2, step.0);
                }
            },
            _ => {},
        }
    }
}

fn handle_outside_edit(home: &mut Home, key: KeyEvent) -> (action: HomeAction)
    requires
        old(home).wf(),
    ensures
        final(home).wf(),
        (final(home)@, action@) == outside_key_step(old(home)@, key.code),
{
    if home.state.timesheet.is_none() {
        // still loading
        return HomeAction::Nothing;
    }
    match home.state.table.selected() {
        Some(idx) => {
            match key.code {
                KeyCode::Char(c) => {
                    if c == 's' {
                        return HomeAction::SplitItemDown(idx);
                    }
                    if c == 'S' {
                        return HomeAction::MergeItemDown(idx);
                    }
                },
                _ => {},
            }
        },
        None => {
            if handle_movement(&mut home.state, key) {
                return HomeAction::EnterSelect;
            }
            match key.code {
                KeyCode::Esc => {
                    return HomeAction::ExitToCalendar;
                },
                _ => {},
            }
        },
    }
    let mut select = Select {  };
    select.handle_key_event(&mut home.state, key)
}

/// Lets the day view handle a key event. `new_id` is the identifier of the
/// block that the key may add.
pub fn handle(home: &mut Home, key: KeyEvent, new_id: String) -> (action: HomeAction)
    requires
        old(home).wf(),
    ensures
        final(home).wf(),
        (final(home)@, action@) == key_step(old(home)@, key, new_id@),
        splits_in(action@) <= 1,
{
    proof {
        lemma_key_step_splits(old(home)@, key, new_id@);
    }
    match key.kind {
        KeyEventKind::Press => {},
        _ => {
            return HomeAction::Nothing;
        },
    }
    match &mut home.edit_mode {
        Some(mode) => mode.handle_key_event(&mut home.state, key, new_id),
        None => handle_outside_edit(home, key),
    }
}

} // verus!
