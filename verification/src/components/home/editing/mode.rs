//! The open editor: which cell it is on and what has been typed.

use vstd::prelude::*;
use crate::components::home::editing::description::Description;
use crate::components::home::editing::duration::Duration;
use crate::components::home::editing::project::Project;
use crate::components::home::editing::shared::BufEditBehavior;
use crate::components::home::editing::ticket::{Ticket, TicketView, TicketsSuggestionView};
use crate::components::home::editing::time::Time;
use crate::components::home::action::{HomeAction, HomeActionView};
use crate::components::home::editing::description::description_key_step;
use crate::components::home::editing::duration::duration_key_step;
use crate::components::home::editing::shared::text_key_step;
use crate::components::home::editing::time::time_key_step;
use crate::components::home::keys::{KeyCode, KeyEvent};
use crate::clock::{clock_digits, minutes_to_digits};
use crate::components::home::state::{
    cells_of, HomeState, HomeStateView, TimeItem, TIME_ITEM_WIDTH,
};
use crate::components::home::timeline::TimeItemView;
use crate::seqs::views;
use crate::components::home::timeline::TextField;
use crate::persist::model::{Event, EventView};

verus! {

/// The editor that is open on the selected cell.
#[derive(Debug)]
pub enum EditMode {
    Time(Time),
    Project(Project),
    Ticket(Ticket),
    Description(Description),
    Duration(Duration),
}

pub enum EditModeView {
    Time(Seq<char>),
    Project(Seq<char>),
    Ticket(TicketView),
    Description(Seq<char>),
    Duration(Seq<char>),
}

impl View for EditMode {
    type V = EditModeView;

    open spec fn view(&self) -> EditModeView {
        match self {
            EditMode::Time(m) => EditModeView::Time(m.buf@),
            EditMode::Project(m) => EditModeView::Project(m.buf@),
            EditMode::Ticket(m) => EditModeView::Ticket(m@),
            EditMode::Description(m) => EditModeView::Description(m.buf@),
            EditMode::Duration(m) => EditModeView::Duration(m.buf@),
        }
    }
}

impl EditModeView {
    /// The column that the editor belongs to.
    pub open spec fn column(self) -> usize {
        match self {
            EditModeView::Time(_) => 0,
            EditModeView::Project(_) => 1,
            EditModeView::Ticket(_) => 2,
            EditModeView::Description(_) => 3,
            EditModeView::Duration(_) => 4,
        }
    }

    /// A ticket editor that starts from `text`, with nothing suggested yet.
    pub open spec fn ticket_on(text: Seq<char>) -> EditModeView {
        EditModeView::Ticket(
            TicketView {
                buf: text,
                suggestion: TicketsSuggestionView {
                    query: Seq::empty(),
                    suggestions: Seq::empty(),
                    selected: None,
                },
            },
        )
    }

    /// The editor for column `idx` of the selected row, as it is when it
    /// opens: the time and the duration are typed anew, the texts start from
    /// what the row holds. There is none for a column that does not exist.
    pub open spec fn for_column(idx: usize, state: HomeStateView) -> Option<EditModeView> {
        let item = state.items[state.table.row.unwrap() as int];
        if idx == 0 {
            Some(EditModeView::Time(Seq::empty()))
        } else if idx == 1 {
            Some(EditModeView::Project(item.project))
        } else if idx == 2 {
            Some(Self::ticket_on(item.ticket))
        } else if idx == 3 {
            Some(EditModeView::Description(item.description))
        } else if idx == 4 || idx == usize::MAX {
            Some(EditModeView::Duration(Seq::empty()))
        } else {
            None
        }
    }
}

impl EditModeView {
    /// The editor keeps what it needs to keep.
    pub open spec fn wf(self) -> bool {
        self matches EditModeView::Ticket(t) ==> t.suggestion.wf()
    }

    /// What a key does to the open editor, to the day and to the day view.
    /// `new_id` is the identifier of the block that the key may add.
    pub open spec fn key_step(self, state: HomeStateView, code: KeyCode, new_id: Seq<char>) -> (
        EditModeView,
        HomeStateView,
        HomeActionView,
    ) {
        match self {
            EditModeView::Time(buf) => {
                let (text, after, action) = time_key_step(buf, state, code);
                (EditModeView::Time(text), after, action)
            },
            EditModeView::Project(buf) => {
                let (text, after, action) = text_key_step(TextField::Project, buf, state, code);
                (EditModeView::Project(text), after, action)
            },
            EditModeView::Ticket(ticket) => {
                let (editor, after, action) = ticket.key_step(state, code);
                (EditModeView::Ticket(editor), after, action)
            },
            EditModeView::Description(buf) => {
                let (text, after, action) = description_key_step(buf, state, code, new_id);
                (EditModeView::Description(text), after, action)
            },
            EditModeView::Duration(buf) => {
                let (text, after, action) = duration_key_step(buf, state, code, new_id);
                (EditModeView::Duration(text), after, action)
            },
        }
    }

    /// The cell of the selected row that shows the text being typed, and
    /// what it shows: the text itself, or a stand-in while a time or a
    /// duration has not been typed yet.
    pub open spec fn shown_text(self, item: TimeItemView) -> Seq<char> {
        match self {
            EditModeView::Time(buf) => if buf.len() == 0 {
                clock_digits(item.start_time as nat)
            } else {
                buf
            },
            EditModeView::Project(buf) => buf,
            EditModeView::Ticket(ticket) => ticket.buf,
            EditModeView::Description(buf) => buf,
            EditModeView::Duration(buf) => if buf.len() == 0 {
                "..."@
            } else {
                buf
            },
        }
    }

    /// The editor after an answer from the store: only the ticket editor
    /// takes any.
    pub open spec fn with_event(self, event: EventView) -> EditModeView {
        match self {
            EditModeView::Ticket(ticket) => EditModeView::Ticket(ticket.with_event(event)),
            _ => self,
        }
    }
}

impl HomeStateView {
    /// A row is selected and exists.
    pub open spec fn has_selected_item(self) -> bool {
        self.table.row matches Some(r) && r < self.items.len()
    }
}

impl EditMode {
    pub fn of_time() -> (mode: Self)
        ensures
            mode@ == EditModeView::Time(Seq::empty()),
    {
        EditMode::Time(Time { buf: BufEditBehavior::empty() })
    }

    pub fn of_project(state: &HomeState) -> (mode: Self)
        requires
            state@.has_selected_item(),
        ensures
            Some(mode@) == EditModeView::for_column(1, state@),
    {
        EditMode::Project(Project::new(state))
    }

    pub fn of_ticket(state: &HomeState) -> (mode: Self)
        requires
            state@.has_selected_item(),
        ensures
            Some(mode@) == EditModeView::for_column(2, state@),
    {
        EditMode::Ticket(Ticket::new(state))
    }

    pub fn of_description(state: &HomeState) -> (mode: Self)
        requires
            state@.has_selected_item(),
        ensures
            Some(mode@) == EditModeView::for_column(3, state@),
    {
        EditMode::Description(Description::new(state))
    }

    pub fn of_duration() -> (mode: Self)
        ensures
            mode@ == EditModeView::Duration(Seq::empty()),
    {
        EditMode::Duration(Duration { buf: BufEditBehavior::empty() })
    }

    /// The editor for column `idx` of the selected row. Only the editors of
    /// the texts need a row: they start from what the row holds.
    pub fn from_column_num(idx: usize, state: &HomeState) -> (mode: Option<Self>)
        requires
            idx == 1 || idx == 2 || idx == 3 ==> state@.has_selected_item(),
        ensures
            option_mode_view(mode)
                == EditModeView::for_column(idx, state@),
    {
        if idx == 0 {
            Some(Self::of_time())
        } else if idx == 1 {
            Some(Self::of_project(state))
        } else if idx == 2 {
            Some(Self::of_ticket(state))
        } else if idx == 3 {
            Some(Self::of_description(state))
        } else if idx == 4 || idx == usize::MAX {
            Some(Self::of_duration())
        } else {
            None
        }
    }

    /// Lets the open editor handle a key.
    pub fn handle_key_event(&mut self, state: &mut HomeState, key: KeyEvent, new_id: String) -> (action:
        HomeAction)
        requires
            old(state).wf(),
        ensures
            final(state).wf(),
            (final(self)@, final(state)@, action@) == old(self)@.key_step(
                old(state)@,
                key.code,
                new_id@,
            ),
            old(self)@.wf() ==> final(self)@.wf(),
    {
        match self {
            EditMode::Time(editor) => editor.handle_key_event(state, key),
            EditMode::Project(editor) => editor.handle_key_event(state, key),
            EditMode::Ticket(editor) => editor.handle_key_event(state, key),
            EditMode::Description(editor) => editor.handle_key_event(state, key, new_id),
            EditMode::Duration(editor) => editor.handle_key_event(state, key, new_id),
        }
    }

    /// Lets the open editor take an answer from the store.
    pub fn handle_persisted(&mut self, event: Event)
        ensures
            final(self)@ == old(self)@.with_event(event@),
            old(self)@.wf() ==> final(self)@.wf(),
    {
        match self {
            EditMode::Ticket(editor) => editor.handle_persisted(event),
            _ => {},
        }
    }

    /// The texts of the cells of the selected row while the editor is open:
    /// the editor's own cell shows what is being typed.
    pub fn style_selected_item(&self, item: &TimeItem) -> (cells: [String; 5])
        ensures
            views(cells@) == cells_of(item@).update(
                self@.column() as int,
                self@.shown_text(item@),
            ),
    {
        let mut cells = item.as_cells();
        let shown = match self {
            EditMode::Time(editor) => if editor.buf.is_empty() {
                minutes_to_digits(item.start_time)
            } else {
                editor.buf.buf.clone()
            },
            EditMode::Project(editor) => editor.buf.buf.clone(),
            EditMode::Ticket(editor) => editor.buf.buf.clone(),
            EditMode::Description(editor) => editor.buf.buf.clone(),
            EditMode::Duration(editor) => if editor.buf.is_empty() {
                "...".to_owned()
            } else {
                editor.buf.buf.clone()
            },
        };
        let column = self.get_column_num();
        cells[column] = shown;
        cells
    }

    pub fn get_column_num(&self) -> (column: usize)
        ensures
            column == self@.column(),
            column < TIME_ITEM_WIDTH,
    {
        match self {
            EditMode::Time(_) => 0,
            EditMode::Project(_) => 1,
            EditMode::Ticket(_) => 2,
            EditMode::Description(_) => 3,
            EditMode::Duration(_) => 4,
        }
    }
}

pub open spec fn option_mode_view(mode: Option<EditMode>) -> Option<EditModeView> {
    match mode {
        Some(m) => Some(m@),
        None => None,
    }
}

} // verus!
