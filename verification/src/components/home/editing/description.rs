//! The editor of the description cell.

use vstd::prelude::*;
use crate::components::home::editing::shared::BufEditBehavior;
use crate::clock::MINUTES_PER_DAY;
use crate::components::home::action::{HomeAction, HomeActionView};
use crate::components::home::editing::mode::{EditMode, EditModeView};
use crate::components::home::editing::shared::text_key_step;
use crate::components::home::error::{EditError, EditErrorView};
use crate::components::home::keys::{KeyCode, KeyEvent};
use crate::components::home::state::{HomeState, HomeStateView};
use crate::components::home::timeline::TextField;

verus! {

/// What a key does to the open description editor. A step to the right
/// from the last cell of the last row writes the description into the row,
/// adds an open block after it and opens the time editor there; it is
/// refused where that block would start at midnight. Every other key does
/// what it does in any text editor.
pub open spec fn description_key_step(
    buf: Seq<char>,
    state: HomeStateView,
    code: KeyCode,
    new_id: Seq<char>,
) -> (Seq<char>, HomeStateView, HomeActionView) {
    if (code is Right || code is Tab) && state.is_last_column_selected()
        && state.is_last_row_selected() {
        if state.items.last().next_start_time() >= MINUTES_PER_DAY {
            (buf, state, HomeActionView::SetStatusLine(EditErrorView::OutsideDay.message()))
        } else {
            (
                buf,
                state.with_text(TextField::Description, buf).with_next_row(new_id),
                HomeActionView::EnterEditSpecific(Some(EditModeView::Time(Seq::empty()))),
            )
        }
    } else {
        text_key_step(TextField::Description, buf, state, code)
    }
}

#[derive(Debug)]
pub struct Description {
    pub buf: BufEditBehavior,
}

impl Description {
    /// An editor that starts from the description of the selected row.
    pub fn new(state: &HomeState) -> (editor: Self)
        requires
            state@.has_selected_item(),
        ensures
            editor.buf@ == state@.items[state.table.row.unwrap() as int].description,
    {
        let item = state.expect_selected_item();
        Self { buf: BufEditBehavior::new(item.description.as_str()) }
    }

    pub fn handle_key_event(&mut self, state: &mut HomeState, key: KeyEvent, new_id: String) -> (action:
        HomeAction)
        requires
            old(state).wf(),
        ensures
            final(state).wf(),
            (final(self).buf@, final(state)@, action@) == description_key_step(
                old(self).buf@,
                old(state)@,
                key.code,
                new_id@,
            ),
    {
        let forward = match key.code {
            KeyCode::Right | KeyCode::Tab => true,
            _ => false,
        };
        if forward && state.is_last_column_selected() && state.is_last_row_selected() {
            let rows = state.items.len();
            assert(old(state)@.items[rows - 1].wf());
            if state.items[rows - 1].next_start_time() >= MINUTES_PER_DAY {
                return HomeAction::from(EditError::OutsideDay);
            }
            match state.set_selected_text(TextField::Description, self.buf.as_str()) {
                Ok(()) => {},
                Err(err) => {
                    return HomeAction::from(err);
                },
            }
            match state.append_next_row(new_id) {
                Ok(()) => {},
                Err(err) => {
                    return HomeAction::from(err);
                },
            }
            return HomeAction::EnterEditSpecific(Some(EditMode::of_time()));
        }
        self.buf.handle_text_key(TextField::Description, state, key)
    }
}

} // verus!
