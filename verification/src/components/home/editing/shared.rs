//! The text buffer that every field editor works on.

use vstd::prelude::*;
use crate::components::home::action::{HomeAction, HomeActionView};
use crate::components::home::editing::mode::{EditMode, EditModeView};
use crate::components::home::keys::{KeyCode, KeyEvent};
use crate::components::home::movement::{handle_movement, is_movement};
use crate::components::home::error::EditErrorView;
use crate::components::home::state::{HomeState, HomeStateView};
use crate::components::home::timeline::TextField;

verus! {

/// Text that is being typed and has not been written into the row yet.
#[derive(Debug)]
pub struct BufEditBehavior {
    pub buf: String,
}

impl View for BufEditBehavior {
    type V = Seq<char>;

    open spec fn view(&self) -> Seq<char> {
        self.buf@
    }
}

/// The buffer after a key that edits text: `^` empties it, any other
/// character is appended, Backspace takes the last character away.
pub open spec fn typed(buf: Seq<char>, code: KeyCode) -> Seq<char> {
    match code {
        KeyCode::Char(c) => if c == '^' {
            Seq::empty()
        } else {
            buf.push(c)
        },
        KeyCode::Backspace => if buf.len() > 0 {
            buf.drop_last()
        } else {
            buf
        },
        _ => buf,
    }
}

/// What a key does to an open editor once its text was written into the
/// row where the key asks for that: a key that moves the selection opens
/// the editor of the cell it moves to, Enter and Esc close the editor, and
/// any other key edits the text.
pub open spec fn buf_key_step(buf: Seq<char>, state: HomeStateView, code: KeyCode) -> (
    Seq<char>,
    HomeStateView,
    HomeActionView,
) {
    if code.is_movement() {
        let there = state.moved(code);
        let column = match there.table.column {
            Some(c) => c,
            None => 0,
        };
        (buf, there, HomeActionView::EnterEditSpecific(EditModeView::for_column(column, there)))
    } else {
        match code {
            KeyCode::Enter | KeyCode::Esc => (buf, state, HomeActionView::ExitEdit),
            _ => (typed(buf, code), state, HomeActionView::Nothing),
        }
    }
}

/// What a key does to the open editor of a text cell: a key that commits
/// first writes the text into the selected row, and is refused if no row
/// is selected.
pub open spec fn text_key_step(
    field: TextField,
    buf: Seq<char>,
    state: HomeStateView,
    code: KeyCode,
) -> (Seq<char>, HomeStateView, HomeActionView) {
    if code.commits() {
        if state.table.row.is_none() {
            (buf, state, HomeActionView::SetStatusLine(EditErrorView::NoSelection.message()))
        } else {
            buf_key_step(buf, state.with_text(field, buf), code)
        }
    } else {
        buf_key_step(buf, state, code)
    }
}

impl BufEditBehavior {
    /// Handles a key in the editor of a text cell.
    pub fn handle_text_key(
        &mut self,
        field: TextField,
        state: &mut HomeState,
        key: KeyEvent,
    ) -> (action: HomeAction)
        requires
            old(state).wf(),
        ensures
            final(state).wf(),
            (final(self)@, final(state)@, action@) == text_key_step(
                field,
                old(self)@,
                old(state)@,
                key.code,
            ),
    {
        if self.should_save(key) {
            match state.set_selected_text(field, self.as_str()) {
                Ok(()) => {},
                Err(err) => {
                    return HomeAction::from(err);
                },
            }
        }
        self.handle_key_event(state, key)
    }

    /// Handles a key, after the text was written into the row if
    /// `should_save` asked for that.
    pub fn handle_key_event(&mut self, state: &mut HomeState, key: KeyEvent) -> (action: HomeAction)
        requires
            old(state).wf(),
        ensures
            final(state).wf(),
            (final(self)@, final(state)@, action@) == buf_key_step(
                old(self)@,
                old(state)@,
                key.code,
            ),
    {
        if handle_movement(state, key) {
            let new_selected_column = match state.table.selected_column() {
                Some(c) => c,
                None => 0,
            };
            return HomeAction::EnterEditSpecific(
                EditMode::from_column_num(new_selected_column, state),
            );
        }
        match key.code {
            KeyCode::Enter => HomeAction::ExitEdit,
            KeyCode::Esc => HomeAction::ExitEdit,
            code => {
                self.type_key(code);
                HomeAction::Nothing
            },
        }
    }

    pub fn new(buf: &str) -> (b: Self)
        ensures
            b@ == buf@,
    {
        Self { buf: buf.to_owned() }
    }

    /// An empty buffer.
    pub fn empty() -> (b: Self)
        ensures
            b@ == Seq::<char>::empty(),
    {
        Self { buf: String::new() }
    }

    pub fn push(&mut self, chr: char)
        ensures
            final(self)@ == old(self)@.push(chr),
    {
        self.buf.push(chr);
    }

    pub fn as_str(&self) -> (text: &str)
        ensures
            text@ == self@,
    {
        self.buf.as_str()
    }

    pub fn is_empty(&self) -> (b: bool)
        ensures
            b == (self@.len() == 0),
    {
        self.buf.as_str().is_empty()
    }

    /// Whether `key` makes the editor write its text into the row before
    /// the key is handled further. If that fails, handling stops.
    pub fn should_save(&self, key: KeyEvent) -> (b: bool)
        ensures
            b == key.code.commits(),
    {
        match key.code {
            KeyCode::Enter => true,
            _ => is_movement(key),
        }
    }

    /// Lets a key edit the text.
    pub fn type_key(&mut self, code: KeyCode)
        ensures
            final(self)@ == typed(old(self)@, code),
    {
        match code {
            KeyCode::Char(chr) => {
                if chr == '^' {
                    self.buf.clear();
                } else {
                    self.push(chr);
                }
            },
            KeyCode::Backspace => {
                let _ = self.buf.pop();
            },
            _ => {},
        }
    }
}

} // verus!
