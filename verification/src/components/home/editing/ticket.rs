//! The editor of the ticket cell, and the suggestions that it offers.

use vstd::prelude::*;
use crate::components::home::editing::shared::BufEditBehavior;
use crate::components::home::keys::{KeyCode, KeyEvent};
use crate::components::home::action::{HomeAction, HomeActionView};
use crate::components::home::editing::shared::text_key_step;
use crate::components::home::state::{HomeState, HomeStateView};
use crate::components::home::timeline::TextField;
use crate::persist::model::{Event, EventView};
use crate::seqs::views;

verus! {

/// The last query for tickets, the answer to it, and the suggestion that
/// is highlighted.
#[derive(Debug)]
pub struct TicketsSuggestion {
    pub query: String,
    pub suggestions: Vec<String>,
    pub selected: Option<usize>,
}

pub struct TicketsSuggestionView {
    pub query: Seq<char>,
    pub suggestions: Seq<Seq<char>>,
    pub selected: Option<usize>,
}

impl View for TicketsSuggestion {
    type V = TicketsSuggestionView;

    open spec fn view(&self) -> TicketsSuggestionView {
        TicketsSuggestionView {
            query: self.query@,
            suggestions: views(self.suggestions@),
            selected: self.selected,
        }
    }
}

/// What a key did to the suggestions.
#[derive(Debug)]
pub enum SuggestAction {
    /// Nothing: the key goes on to the editor.
    Pass,
    /// The key was used up.
    Done,
    /// The highlighted suggestion was taken; the key goes on to the editor.
    Accept(String),
}

pub enum SuggestActionView {
    Pass,
    Done,
    Accept(Seq<char>),
}

impl View for SuggestAction {
    type V = SuggestActionView;

    open spec fn view(&self) -> SuggestActionView {
        match self {
            SuggestAction::Pass => SuggestActionView::Pass,
            SuggestAction::Done => SuggestActionView::Done,
            SuggestAction::Accept(s) => SuggestActionView::Accept(s@),
        }
    }
}

impl TicketsSuggestionView {
    pub open spec fn cleared() -> TicketsSuggestionView {
        TicketsSuggestionView { query: Seq::empty(), suggestions: Seq::empty(), selected: None }
    }

    /// The highlight, if any, points at a suggestion.
    pub open spec fn wf(self) -> bool {
        self.selected matches Some(i) ==> i < self.suggestions.len()
    }

    /// The overlay is shown: something was asked and something was found.
    pub open spec fn is_active(self) -> bool {
        self.query.len() > 0 && self.suggestions.len() > 0
    }

    /// The suggestions after the answer to `query` came in. An answer to a
    /// query that is no longer the current one is dropped. The first
    /// suggestion is highlighted when there were none before.
    pub open spec fn with_result(
        self,
        query: Seq<char>,
        suggestions: Seq<Seq<char>>,
    ) -> TicketsSuggestionView {
        if query != self.query {
            self
        } else {
            TicketsSuggestionView {
                suggestions,
                selected: if self.suggestions.len() == 0 && suggestions.len() > 0 {
                    Some(0)
                } else {
                    match self.selected {
                        Some(i) => if suggestions.len() == 0 {
                            None
                        } else if i >= suggestions.len() {
                            Some((suggestions.len() - 1) as usize)
                        } else {
                            Some(i)
                        },
                        None => None,
                    }
                },
                ..self
            }
        }
    }

    pub open spec fn selected_text(self) -> Option<Seq<char>> {
        match self.selected {
            Some(i) => if i < self.suggestions.len() {
                Some(self.suggestions[i as int])
            } else {
                None
            },
            None => None,
        }
    }

    /// What a key does to the overlay, and what becomes of the key. While
    /// the overlay is not shown, nothing.
    pub open spec fn key_step(self, code: KeyCode) -> (TicketsSuggestionView, SuggestActionView) {
        if !self.is_active() {
            (self, SuggestActionView::Pass)
        } else {
            match code {
                KeyCode::Down => (
                    TicketsSuggestionView {
                        selected: Some(
                            match self.selected {
                                Some(i) => if i + 1 < self.suggestions.len() {
                                    (i + 1) as usize
                                } else {
                                    (self.suggestions.len() - 1) as usize
                                },
                                None => 0,
                            },
                        ),
                        ..self
                    },
                    SuggestActionView::Done,
                ),
                KeyCode::Up => (
                    TicketsSuggestionView {
                        selected: match self.selected {
                            Some(i) => if i == 0 {
                                None
                            } else {
                                Some((i - 1) as usize)
                            },
                            None => Some((self.suggestions.len() - 1) as usize),
                        },
                        ..self
                    },
                    SuggestActionView::Done,
                ),
                KeyCode::Esc => (Self::cleared(), SuggestActionView::Done),
                KeyCode::Tab | KeyCode::Enter | KeyCode::Right => match self.selected_text() {
                    Some(text) => (Self::cleared(), SuggestActionView::Accept(text)),
                    None => (self, SuggestActionView::Pass),
                },
                _ => (self, SuggestActionView::Pass),
            }
        }
    }
}

impl Default for TicketsSuggestion {
    fn default() -> (s: Self)
        ensures
            s@ == TicketsSuggestionView::cleared(),
    {
        let s = TicketsSuggestion { query: String::new(), suggestions: Vec::new(), selected: None };
        assert(s@.suggestions =~= Seq::empty());
        s
    }
}

impl TicketsSuggestion {
    pub fn is_active(&self) -> (b: bool)
        ensures
            b == self@.is_active(),
    {
        !self.query.as_str().is_empty() && self.suggestions.len() > 0
    }

    /// Takes the answer to a query.
    pub fn handle_result(&mut self, query: String, suggestions: Vec<String>)
        ensures
            final(self)@ == old(self)@.with_result(query@, views(suggestions@)),
            old(self)@.wf() ==> final(self)@.wf(),
    {
        if query != self.query {
            return ;  // outdated result, new query in flight
        }
        let no_suggestions_before = self.suggestions.len() == 0;
        self.suggestions = suggestions;
        let count = self.suggestions.len();
        if no_suggestions_before && count > 0 {
            self.selected = Some(0);
        } else {
            match self.selected {
                Some(i) => {
                    if count == 0 {
                        self.selected = None;
                    } else if i >= count {
                        self.selected = Some(count - 1);
                    }
                },
                None => {},
            }
        }
    }

    /// The highlighted suggestion.
    pub fn selected(&self) -> (text: Option<&str>)
        ensures
            match text {
                Some(t) => self@.selected_text() == Some(t@),
                None => self@.selected_text().is_none(),
            },
    {
        match self.selected {
            Some(idx) => if idx < self.suggestions.len() {
                Some(self.suggestions[idx].as_str())
            } else {
                None
            },
            None => None,
        }
    }

    /// Lets the overlay have the key first.
    pub fn handle_key_event(&mut self, key: KeyEvent) -> (action: SuggestAction)
        ensures
            (final(self)@, action@) == old(self)@.key_step(key.code),
            old(self)@.wf() ==> final(self)@.wf(),
    {
        if !self.is_active() {
            return SuggestAction::Pass;
        }
        let count = self.suggestions.len();
        match key.code {
            KeyCode::Down => {
                self.selected = Some(
                    match self.selected {
                        Some(i) => if i < count - 1 {
                            i + 1
                        } else {
                            count - 1
                        },
                        None => 0,
                    },
                );
                SuggestAction::Done
            },
            KeyCode::Up => {
                self.selected = match self.selected {
                    Some(i) => if i == 0 {
                        None
                    } else {
                        Some(i - 1)
                    },
                    None => Some(count - 1),
                };
                SuggestAction::Done
            },
            KeyCode::Esc => {
                *self = TicketsSuggestion::default();
                SuggestAction::Done
            },
            KeyCode::Tab | KeyCode::Enter | KeyCode::Right => {
                let suggested = match self.selected() {
                    Some(text) => Some(text.to_owned()),
                    None => None,
                };
                match suggested {
                    Some(text) => {
                        *self = TicketsSuggestion::default();
                        SuggestAction::Accept(text)
                    },
                    None => SuggestAction::Pass,
                }
            },
            _ => SuggestAction::Pass,
        }
    }
}

/// The ticket editor: the text, and the suggestions for it.
#[derive(Debug)]
pub struct Ticket {
    pub buf: BufEditBehavior,
    pub suggestion: TicketsSuggestion,
}

pub struct TicketView {
    pub buf: Seq<char>,
    pub suggestion: TicketsSuggestionView,
}

impl View for Ticket {
    type V = TicketView;

    open spec fn view(&self) -> TicketView {
        TicketView { buf: self.buf@, suggestion: self.suggestion@ }
    }
}

impl TicketView {
    /// What a key does to the open ticket editor. The overlay has the key
    /// first and may use it up; a suggestion that it hands over replaces
    /// the text. Then the key does what it does in any text editor. At the
    /// end a text that differs from the last query becomes the query, and
    /// suggestions for it are asked for.
    pub open spec fn key_step(self, state: HomeStateView, code: KeyCode) -> (
        TicketView,
        HomeStateView,
        HomeActionView,
    ) {
        let (suggestion, taken) = self.suggestion.key_step(code);
        if taken is Done {
            (TicketView { buf: self.buf, suggestion }, state, HomeActionView::Nothing)
        } else {
            let text = match taken {
                SuggestActionView::Accept(suggested) => suggested,
                _ => self.buf,
            };
            let (buf, after, action) = text_key_step(TextField::Ticket, text, state, code);
            if buf != suggestion.query {
                (
                    TicketView { buf, suggestion: TicketsSuggestionView { query: buf, ..suggestion } },
                    after,
                    action.add(HomeActionView::SuggestTickets(buf)),
                )
            } else {
                (TicketView { buf, suggestion }, after, action)
            }
        }
    }

    /// The editor after an answer from the store: only suggestions are
    /// taken.
    pub open spec fn with_event(self, event: EventView) -> TicketView {
        match event {
            EventView::TicketsSuggested { query, ticket_keys } => TicketView {
                suggestion: self.suggestion.with_result(query, ticket_keys),
                ..self
            },
            _ => self,
        }
    }
}

impl Ticket {
    pub fn handle_key_event(&mut self, state: &mut HomeState, key: KeyEvent) -> (action: HomeAction)
        requires
            old(state).wf(),
        ensures
            final(state).wf(),
            (final(self)@, final(state)@, action@) == old(self)@.key_step(old(state)@, key.code),
            old(self)@.suggestion.wf() ==> final(self)@.suggestion.wf(),
    {
        match self.suggestion.handle_key_event(key) {
            SuggestAction::Done => {
                return HomeAction::Nothing;
            },
            SuggestAction::Accept(suggested) => {
                self.buf = BufEditBehavior { buf: suggested };
            },
            SuggestAction::Pass => {},
        }
        let action = self.buf.handle_text_key(TextField::Ticket, state, key);
        if self.buf.buf != self.suggestion.query {
            self.suggestion.query = self.buf.buf.clone();
            action.add(HomeAction::SuggestTickets(self.buf.buf.clone()))
        } else {
            action
        }
    }

    /// Takes an answer from the store.
    pub fn handle_persisted(&mut self, event: Event)
        ensures
            final(self)@ == old(self)@.with_event(event@),
            old(self)@.suggestion.wf() ==> final(self)@.suggestion.wf(),
    {
        match event {
            Event::TicketsSuggested { query, ticket_keys } => {
                self.suggestion.handle_result(query, ticket_keys);
            },
            _ => {},
        }
    }

    /// An editor that starts from the ticket of the selected row.
    pub fn new(state: &HomeState) -> (editor: Self)
        requires
            state@.has_selected_item(),
        ensures
            editor@ == (TicketView {
                buf: state@.items[state.table.row.unwrap() as int].ticket,
                suggestion: TicketsSuggestionView::cleared(),
            }),
    {
        let item = state.expect_selected_item();
        Self {
            buf: BufEditBehavior::new(item.ticket.as_str()),
            suggestion: TicketsSuggestion::default(),
        }
    }
}

} // verus!
