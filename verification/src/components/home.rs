//! The day view: a table of time blocks that is edited cell by cell.

use vstd::prelude::*;
use crate::action::{Action, ActionView, Page};
use crate::components::home::action::{outside_keys, outside_keys_view, perform, perform_step, Effects};
use crate::components::home::editing::mode::{EditMode, EditModeView};
use crate::components::home::key_handling::key_step;
use crate::components::home::keys::{KeyCode, KeyEvent, KeyEventKind};
use crate::components::home::persist_handling::{can_take, event_step};
use crate::components::home::state::{HomeState, HomeStateView};
use crate::ids::new_entry_id;
use crate::persist::model::{Command, CommandView, Event, EventView};
use crate::seqs::views;
use crate::shared::Day;

pub mod action;
pub mod editing;
pub mod error;
pub mod export;
pub mod key_handling;
pub mod keys;
pub mod laws;
pub mod movement;
pub mod persist_handling;
pub mod state;
pub mod timeline;

verus! {

/// The day view: the day, its timeline, and the editor that is open.
#[derive(Debug)]
pub struct Home {
    pub day: Day,
    /// The open editor, if one is open.
    pub edit_mode: Option<EditMode>,
    /// Whether another page fills the screen.
    pub suspended: bool,
    pub state: HomeState,
    /// Whether the status line shows a message that the next step is to
    /// take away.
    pub need_status_line_reset: bool,
}

pub struct HomeView {
    pub day: Day,
    pub edit_mode: Option<EditModeView>,
    pub suspended: bool,
    pub state: HomeStateView,
    pub need_status_line_reset: bool,
}

impl View for Home {
    type V = HomeView;

    open spec fn view(&self) -> HomeView {
        HomeView {
            day: self.day,
            edit_mode: match self.edit_mode {
                Some(mode) => Some(mode@),
                None => None,
            },
            suspended: self.suspended,
            state: self.state@,
            need_status_line_reset: self.need_status_line_reset,
        }
    }
}

impl HomeView {
    pub open spec fn wf(self) -> bool {
        self.state.wf()
    }

    /// The day view after a key event, and what it sends. `new_id` is the
    /// identifier of the block that the key may add.
    pub open spec fn after_key(self, key: KeyEvent, new_id: Seq<char>) -> Effects {
        let (home, action) = key_step(self, key, new_id);
        perform_step(home, action, seq![new_id])
    }

    /// The day view after an answer from the store, and what it sends.
    /// `new_id` is the identifier of the block that a day without entries
    /// is given.
    pub open spec fn after_event(self, event: EventView, new_id: Seq<char>) -> Effects {
        let (home, action) = event_step(self, event, new_id);
        perform_step(home, action, Seq::empty())
    }

    /// The day view after a message of the application, and what it sends.
    /// When its page is shown it asks the store for the day and shows its
    /// legend; when another page is shown it is suspended.
    pub open spec fn after_action(self, action: ActionView) -> (HomeView, OutboxView) {
        match action {
            ActionView::SetActivePage(page) => match page {
                Page::Home { day } => (
                    HomeView { day, suspended: false, ..self },
                    OutboxView {
                        actions: seq![ActionView::SetRelevantKeys(outside_keys_view())],
                        commands: seq![CommandView::LoadTimesheet { day }],
                    },
                ),
                _ => (
                    HomeView { suspended: true, ..self },
                    OutboxView { actions: Seq::empty(), commands: Seq::empty() },
                ),
            },
            _ => (self, OutboxView { actions: Seq::empty(), commands: Seq::empty() }),
        }
    }
}

impl Effects {
    /// What is sent.
    pub open spec fn outbox(self) -> OutboxView {
        OutboxView { actions: self.actions, commands: self.commands }
    }
}

/// What the day view sends out in one step: messages to the application,
/// and commands to the store. Each list is in the order of sending.
#[derive(Debug)]
pub struct Outbox {
    pub actions: Vec<Action>,
    pub commands: Vec<Command>,
}

pub struct OutboxView {
    pub actions: Seq<ActionView>,
    pub commands: Seq<CommandView>,
}

impl View for Outbox {
    type V = OutboxView;

    open spec fn view(&self) -> OutboxView {
        OutboxView { actions: views(self.actions@), commands: views(self.commands@) }
    }
}

impl Outbox {
    /// Nothing to send.
    pub fn new() -> (out: Self)
        ensures
            out@ == (OutboxView { actions: Seq::empty(), commands: Seq::empty() }),
    {
        let out = Outbox { actions: Vec::new(), commands: Vec::new() };
        assert(out@.actions =~= Seq::empty());
        assert(out@.commands =~= Seq::empty());
        out
    }

    /// Adds what `more` holds after what is here already.
    pub fn append(&mut self, more: Outbox)
        ensures
            final(self)@ == (OutboxView {
                actions: old(self)@.actions + more@.actions,
                commands: old(self)@.commands + more@.commands,
            }),
    {
        let ghost added = more@;
        let mut more = more;
        self.actions.append(&mut more.actions);
        self.commands.append(&mut more.commands);
        assert(final(self)@.actions =~= old(self)@.actions + added.actions);
        assert(final(self)@.commands =~= old(self)@.commands + added.commands);
    }

    /// Adds commands after those that are here already.
    pub fn send_all(&mut self, commands: Vec<Command>)
        ensures
            final(self)@ == (OutboxView {
                commands: old(self)@.commands + views(commands@),
                ..old(self)@
            }),
    {
        let ghost added = views(commands@);
        let mut commands = commands;
        self.commands.append(&mut commands);
        assert(final(self)@.commands =~= old(self)@.commands + added);
    }

    /// Adds one message.
    pub fn tell(&mut self, action: Action)
        ensures
            final(self)@ == (OutboxView {
                actions: old(self)@.actions.push(action@),
                ..old(self)@
            }),
    {
        self.actions.push(action);
        assert(final(self)@.actions =~= old(self)@.actions.push(action@));
    }

    /// Adds one command.
    pub fn send(&mut self, command: Command)
        ensures
            final(self)@ == (OutboxView {
                commands: old(self)@.commands.push(command@),
                ..old(self)@
            }),
    {
        self.commands.push(command);
        assert(final(self)@.commands =~= old(self)@.commands.push(command@));
    }
}

impl Home {
    pub open spec fn wf(&self) -> bool {
        self@.wf()
    }

    /// Whether the day view is as `wf` asks.
    pub fn is_well_formed(&self) -> (b: bool)
        ensures
            b == self.wf(),
    {
        self.state.is_well_formed()
    }

    /// Whether the key asks for the day to be exported: a press of `e`
    /// while the view is shown and no editor is open.
    pub fn asks_for_export(&self, key: KeyEvent) -> (b: bool)
        ensures
            b == (!self.suspended && self.edit_mode.is_none() && key.kind is Press && key.code
                == KeyCode::Char('e')),
    {
        if self.suspended || self.edit_mode.is_some() {
            return false;
        }
        match (key.kind, key.code) {
            (KeyEventKind::Press, KeyCode::Char(c)) => c == 'e',
            _ => false,
        }
    }

    pub fn is_suspended(&self) -> (b: bool)
        ensures
            b == self.suspended,
    {
        self.suspended
    }

    /// Handles a key event. A block that the key adds gets `new_id` as its
    /// identifier.
    pub fn handle_key_event_with(&mut self, key: KeyEvent, new_id: String) -> (out: Outbox)
        requires
            old(self).wf(),
        ensures
            final(self).wf(),
            final(self)@ == old(self)@.after_key(key, new_id@).home,
            out@ == old(self)@.after_key(key, new_id@).outbox(),
    {
        let action = key_handling::handle(self, key, new_id.clone());
        let mut ids: Vec<String> = Vec::new();
        ids.push(new_id);
        assert(views(ids@) =~= seq![new_id@]);
        perform(self, action, &mut ids)
    }

    /// Handles a key event. A block that the key adds gets an identifier of
    /// its own.
    pub fn handle_key_event(&mut self, key: KeyEvent) -> (out: Outbox)
        requires
            old(self).wf(),
        ensures
            final(self).wf(),
            exists|new_id: Seq<char>|
                final(self)@ == (#[trigger] old(self)@.after_key(key, new_id)).home && out@ == old(
                    self,
                )@.after_key(key, new_id).outbox(),
    {
        self.handle_key_event_with(key, new_entry_id())
    }

    /// Takes an answer from the store. The block that a day without
    /// entries is given gets `new_id` as its identifier.
    pub fn handle_persisted_with(&mut self, event: Event, new_id: String) -> (out: Outbox)
        requires
            old(self).wf(),
            can_take(event@),
        ensures
            final(self).wf(),
            final(self)@ == old(self)@.after_event(event@, new_id@).home,
            out@ == old(self)@.after_event(event@, new_id@).outbox(),
    {
        let action = persist_handling::handle(self, event, new_id);
        let mut ids: Vec<String> = Vec::new();
        perform(self, action, &mut ids)
    }

    /// Takes an answer from the store. The block that a day without
    /// entries is given gets an identifier of its own.
    pub fn handle_persisted(&mut self, event: Event) -> (out: Outbox)
        requires
            old(self).wf(),
            can_take(event@),
        ensures
            final(self).wf(),
            exists|new_id: Seq<char>|
                final(self)@ == (#[trigger] old(self)@.after_event(event@, new_id)).home && out@
                    == old(self)@.after_event(event@, new_id).outbox(),
    {
        self.handle_persisted_with(event, new_entry_id())
    }

    /// Takes a message of the application.
    pub fn update(&mut self, action: &Action) -> (out: Outbox)
        requires
            old(self).wf(),
        ensures
            final(self).wf(),
            (final(self)@, out@) == old(self)@.after_action(action@),
    {
        let mut out = Outbox::new();
        match action {
            Action::SetActivePage(page) => {
                match page {
                    Page::Home { day } => {
                        out.send(Command::LoadTimesheet { day: *day });
                        out.tell(Action::SetRelevantKeys(outside_keys()));
                        self.day = *day;
                        self.suspended = false;
                    },
                    _ => {
                        self.suspended = true;
                    },
                }
            },
            _ => {},
        }
        out
    }

    /// The day view of `day` before anything was loaded.
    pub fn new(day: Day) -> (home: Self)
        ensures
            home@ == (HomeView {
                day,
                edit_mode: None,
                suspended: false,
                state: HomeStateView::initial(),
                need_status_line_reset: false,
            }),
            home.wf(),
    {
        Home {
            day,
            edit_mode: None,
            suspended: false,
            state: HomeState::default(),
            need_status_line_reset: false,
        }
    }
}

} // verus!
