//! The editor of the project cell.

use vstd::prelude::*;
use crate::components::home::editing::shared::BufEditBehavior;
use crate::components::home::action::HomeAction;
use crate::components::home::editing::shared::text_key_step;
use crate::components::home::keys::KeyEvent;
use crate::components::home::state::HomeState;
use crate::components::home::timeline::TextField;

verus! {

#[derive(Debug)]
pub struct Project {
    pub buf: BufEditBehavior,
}

impl Project {
    /// An editor that starts from the project key of the selected row.
    pub fn new(state: &HomeState) -> (editor: Self)
        requires
            state@.has_selected_item(),
        ensures
            editor.buf@ == state@.items[state.table.row.unwrap() as int].project,
    {
        let item = state.expect_selected_item();
        Self { buf: BufEditBehavior::new(item.project.as_str()) }
    }

    pub fn handle_key_event(&mut self, state: &mut HomeState, key: KeyEvent) -> (action:
        HomeAction)
        requires
            old(state).wf(),
        ensures
            final(state).wf(),
            (final(self).buf@, final(state)@, action@) == text_key_step(
                TextField::Project,
                old(self).buf@,
                old(state)@,
                key.code,
            ),
    {
        self.buf.handle_text_key(TextField::Project, state, key)
    }
}

} // verus!
