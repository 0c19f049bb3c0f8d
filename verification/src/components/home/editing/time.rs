//! The editor of the start-time cell.

use vstd::prelude::*;
use crate::clock::{clock_digits, minutes_to_digits, parse_typed_time, time_reading};
use crate::components::home::action::{HomeAction, HomeActionView};
use crate::components::home::editing::shared::{buf_key_step, BufEditBehavior};
use crate::components::home::error::{EditError, EditErrorView};
use crate::components::home::keys::{KeyCode, KeyEvent};
use crate::components::home::state::{HomeState, HomeStateView};

verus! {

/// The most characters that a typed time takes.
pub const TYPED_TIME_WIDTH: usize = 4;

#[derive(Debug)]
pub struct Time {
    pub buf: BufEditBehavior,
}

/// The state after the typed time was written into the selected row, or
/// why it was refused. An empty text changes nothing.
pub open spec fn time_saved(buf: Seq<char>, state: HomeStateView) -> Result<
    HomeStateView,
    EditErrorView,
> {
    if buf.len() == 0 {
        Ok(state)
    } else {
        match time_reading(buf) {
            Err(e) => Err(e),
            Ok(time) => match state.table.row {
                None => Err(EditErrorView::NoSelection),
                Some(row) => match state.start_time_error(row as int, time) {
                    Some(e) => Err(e),
                    None => Ok(state.with_start_time(row as int, time)),
                },
            },
        }
    }
}

/// What a key does to the open time editor. A key that commits first has
/// the text read and the row changed; if that is refused, the user is told
/// and the editor stays as it is. Enter then closes the editor, and no
/// character is taken beyond the fourth.
pub open spec fn time_key_step(buf: Seq<char>, state: HomeStateView, code: KeyCode) -> (
    Seq<char>,
    HomeStateView,
    HomeActionView,
) {
    let saved = if code.commits() {
        time_saved(buf, state)
    } else {
        Ok(state)
    };
    match saved {
        Err(e) => (buf, state, HomeActionView::SetStatusLine(e.message())),
        Ok(after) => if code is Enter {
            (buf, after, HomeActionView::ExitEdit)
        } else if code is Char && buf.len() >= TYPED_TIME_WIDTH {
            (buf, after, HomeActionView::Nothing)
        } else {
            buf_key_step(buf, after, code)
        },
    }
}

impl Default for Time {
    fn default() -> (editor: Self)
        ensures
            editor.buf@ == Seq::<char>::empty(),
    {
        Self { buf: BufEditBehavior::empty() }
    }
}

impl Time {
    /// An editor that starts from the start time of the selected row, in
    /// the form in which times are typed.
    pub fn new(state: &HomeState) -> (editor: Self)
        requires
            state@.has_selected_item(),
        ensures
            editor.buf@ == clock_digits(
                state@.items[state.table.row.unwrap() as int].start_time as nat,
            ),
    {
        let item = state.expect_selected_item();
        Self { buf: BufEditBehavior { buf: minutes_to_digits(item.start_time) } }
    }

    /// Reads the typed time and makes the selected row start then.
    fn handle_save(&self, state: &mut HomeState) -> (r: Result<(), EditError>)
        requires
            old(state).wf(),
        ensures
            final(state).wf(),
            match time_saved(self.buf@, old(state)@) {
                Ok(saved) => r.is_ok() && final(state)@ == saved,
                Err(e) => r matches Err(err) && err@ == e && final(state)@ == old(state)@,
            },
    {
        if self.buf.is_empty() {
            return Ok(());
        }
        let time = match parse_typed_time(self.buf.as_str()) {
            Ok(time) => time,
            Err(e) => {
                return Err(e);
            },
        };
        let row = match state.table.selected() {
            Some(row) => row,
            None => {
                return Err(EditError::NoSelection);
            },
        };
        state.edit_start_time(row, time)
    }

    pub fn handle_key_event(&mut self, state: &mut HomeState, key: KeyEvent) -> (action: HomeAction)
        requires
            old(state).wf(),
        ensures
            final(state).wf(),
            (final(self).buf@, final(state)@, action@) == time_key_step(
                old(self).buf@,
                old(state)@,
                key.code,
            ),
    {
        if self.buf.should_save(key) {
            match self.handle_save(state) {
                Ok(()) => {},
                Err(err) => {
                    return HomeAction::from(err);
                },
            }
        }
        match key.code {
            KeyCode::Enter => HomeAction::ExitEdit,
            KeyCode::Char(_) => {
                if self.buf.as_str().unicode_len() >= TYPED_TIME_WIDTH {
                    HomeAction::Nothing
                } else {
                    self.buf.handle_key_event(state, key)
                }
            },
            _ => self.buf.handle_key_event(state, key),
        }
    }
}

} // verus!
