//! The editor of the duration cell.

use vstd::prelude::*;
use crate::clock::{
    is_u16_literal, is_u16_text, minutes_reading, parse_minutes,
};
use crate::components::home::action::{HomeAction, HomeActionView};
use crate::components::home::editing::shared::{buf_key_step, BufEditBehavior};
use crate::components::home::error::{EditError, EditErrorView};
use crate::components::home::keys::{KeyCode, KeyEvent};
use crate::components::home::state::{HomeState, HomeStateView};
use crate::components::home::timeline::can_set_duration;

verus! {

#[derive(Debug)]
pub struct Duration {
    pub buf: BufEditBehavior,
}

/// The text that is read as a duration: a bare number counts as minutes.
pub open spec fn duration_text(buf: Seq<char>) -> Seq<char> {
    if is_u16_text(buf) {
        buf.push('m')
    } else {
        buf
    }
}

/// The state after the typed duration was written into the selected row,
/// or why it was refused.
pub open spec fn duration_saved(text: Seq<char>, state: HomeStateView, new_id: Seq<char>) -> Result<
    HomeStateView,
    EditErrorView,
> {
    match minutes_reading(text) {
        Err(e) => Err(e),
        Ok(minutes) => match state.table.row {
            None => Err(EditErrorView::NoSelection),
            Some(row) => if can_set_duration(state.items, row as int, minutes) {
                Ok(state.with_duration(row as int, minutes, new_id))
            } else {
                Err(EditErrorView::OutsideDay)
            },
        },
    }
}

/// What a key does to the open duration editor. A key that commits first
/// has the text read and the row changed; if that is refused, the user is
/// told and the editor stays as it is, with the text as it was read.
pub open spec fn duration_key_step(
    buf: Seq<char>,
    state: HomeStateView,
    code: KeyCode,
    new_id: Seq<char>,
) -> (Seq<char>, HomeStateView, HomeActionView) {
    if code.commits() {
        let text = duration_text(buf);
        match duration_saved(text, state, new_id) {
            Err(e) => (text, state, HomeActionView::SetStatusLine(e.message())),
            Ok(saved) => buf_key_step(text, saved, code),
        }
    } else {
        buf_key_step(buf, state, code)
    }
}

impl Default for Duration {
    fn default() -> (editor: Self)
        ensures
            editor.buf@ == Seq::<char>::empty(),
    {
        Self { buf: BufEditBehavior::empty() }
    }
}

impl Duration {
    /// Reads the typed duration and gives it to the selected row.
    fn handle_save(&mut self, state: &mut HomeState, new_id: String) -> (r: Result<(), EditError>)
        requires
            old(state).wf(),
        ensures
            final(state).wf(),
            final(self).buf@ == duration_text(old(self).buf@),
            match duration_saved(final(self).buf@, old(state)@, new_id@) {
                Ok(saved) => r.is_ok() && final(state)@ == saved,
                Err(e) => r matches Err(err) && err@ == e && final(state)@ == old(state)@,
            },
    {
        if is_u16_literal(self.buf.as_str()) {
            self.buf.push('m');
        }
        let minutes = match parse_minutes(self.buf.as_str()) {
            Ok(minutes) => minutes,
            Err(e) => {
                return Err(e);
            },
        };
        let row = match state.table.selected() {
            Some(row) => row,
            None => {
                return Err(EditError::NoSelection);
            },
        };
        state.edit_duration(row, minutes, new_id)
    }

    pub fn handle_key_event(&mut self, state: &mut HomeState, key: KeyEvent, new_id: String) -> (action:
        HomeAction)
        requires
            old(state).wf(),
        ensures
            final(state).wf(),
            (final(self).buf@, final(state)@, action@) == duration_key_step(
                old(self).buf@,
                old(state)@,
                key.code,
                new_id@,
            ),
    {
        if self.buf.should_save(key) {
            match self.handle_save(state, new_id) {
                Ok(()) => {},
                Err(err) => {
                    return HomeAction::from(err);
                },
            }
        }
        self.buf.handle_key_event(state, key)
    }
}

} // verus!
