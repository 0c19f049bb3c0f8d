//! The status bar: one line of news, and the legend of keys.

use vstd::prelude::*;
use crate::action::{Action, ActionView, RelevantKey, RelevantKeyView};
use crate::seqs::views;

verus! {

#[derive(Debug)]
pub struct StatusBar {
    pub status_line: String,
    pub keys: Vec<RelevantKey>,
}

pub struct StatusBarView {
    pub status_line: Seq<char>,
    pub keys: Seq<RelevantKeyView>,
}

impl View for StatusBar {
    type V = StatusBarView;

    open spec fn view(&self) -> StatusBarView {
        StatusBarView { status_line: self.status_line@, keys: views(self.keys@) }
    }
}

impl StatusBarView {
    /// The bar as it is when the application starts.
    pub open spec fn initial() -> StatusBarView {
        StatusBarView {
            status_line: "Hello, world!"@,
            keys: seq![
                RelevantKeyView { key: "q"@, text: "Quit"@ },
                RelevantKeyView { key: "Space"@, text: "Edit cell"@ },
            ],
        }
    }

    /// The bar after a message of the application: it takes a new status
    /// line or a new legend, and nothing else.
    pub open spec fn updated(self, action: ActionView) -> StatusBarView {
        match action {
            ActionView::SetStatusLine(msg) => StatusBarView { status_line: msg, ..self },
            ActionView::SetRelevantKeys(keys) => StatusBarView { keys, ..self },
            _ => self,
        }
    }
}

impl Default for StatusBar {
    fn default() -> (bar: Self)
        ensures
            bar@ == StatusBarView::initial(),
    {
        let mut keys: Vec<RelevantKey> = Vec::new();
        keys.push(RelevantKey::new("q", "Quit"));
        keys.push(RelevantKey::new("Space", "Edit cell"));
        let bar = StatusBar { status_line: "Hello, world!".to_owned(), keys };
        assert(bar@.keys =~= StatusBarView::initial().keys);
        bar
    }
}

impl StatusBar {
    /// Takes a message of the application.
    pub fn update(&mut self, action: Action)
        ensures
            final(self)@ == old(self)@.updated(action@),
    {
        match action {
            Action::SetStatusLine(msg) => {
                self.status_line = msg;
            },
            Action::SetRelevantKeys(keys) => {
                self.keys = keys;
            },
            _ => {},
        }
    }
}

} // verus!
