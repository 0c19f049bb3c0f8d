//! What the parts of the interface tell the application as a whole.

use vstd::prelude::*;
use crate::seqs::views;
use crate::shared::Day;

verus! {

/// A key and what it does, for the legend at the bottom of the screen.
#[derive(Debug)]
pub struct RelevantKey {
    pub key: String,
    pub text: String,
}

pub struct RelevantKeyView {
    pub key: Seq<char>,
    pub text: Seq<char>,
}

impl View for RelevantKey {
    type V = RelevantKeyView;

    open spec fn view(&self) -> RelevantKeyView {
        RelevantKeyView { key: self.key@, text: self.text@ }
    }
}

impl Clone for RelevantKey {
    fn clone(&self) -> (copy: Self)
        ensures
            copy == *self,
    {
        RelevantKey { key: self.key.clone(), text: self.text.clone() }
    }
}

impl RelevantKey {
    pub fn new(key: &'static str, text: &'static str) -> (k: Self)
        ensures
            k@ == (RelevantKeyView { key: key@, text: text@ }),
    {
        Self { key: key.to_owned(), text: text.to_owned() }
    }
}

/// The page that fills the screen.
#[derive(Debug, Clone, Copy)]
pub enum Page {
    Home { day: Day },
    Calendar { day: Day },
}

/// A message to the application and its parts.
#[derive(Debug)]
pub enum Action {
    Tick,
    Render,
    Resize(u16, u16),
    Suspend,
    Resume,
    Quit,
    ClearScreen,
    Error(String),
    SetStatusLine(String),
    SetRelevantKeys(Vec<RelevantKey>),
    SetActivePage(Page),
}

pub enum ActionView {
    Tick,
    Render,
    Resize(u16, u16),
    Suspend,
    Resume,
    Quit,
    ClearScreen,
    Error(Seq<char>),
    SetStatusLine(Seq<char>),
    SetRelevantKeys(Seq<RelevantKeyView>),
    SetActivePage(Page),
}

impl View for Action {
    type V = ActionView;

    open spec fn view(&self) -> ActionView {
        match self {
            Action::Tick => ActionView::Tick,
            Action::Render => ActionView::Render,
            Action::Resize(w, h) => ActionView::Resize(*w, *h),
            Action::Suspend => ActionView::Suspend,
            Action::Resume => ActionView::Resume,
            Action::Quit => ActionView::Quit,
            Action::ClearScreen => ActionView::ClearScreen,
            Action::Error(msg) => ActionView::Error(msg@),
            Action::SetStatusLine(msg) => ActionView::SetStatusLine(msg@),
            Action::SetRelevantKeys(keys) => ActionView::SetRelevantKeys(views(keys@)),
            Action::SetActivePage(page) => ActionView::SetActivePage(*page),
        }
    }
}

impl ActionView {
    pub open spec fn is_status_line(self) -> bool {
        self is SetStatusLine
    }
}

impl Action {
    /// Whether the message sets the status line.
    pub fn is_status_line(&self) -> (b: bool)
        ensures
            b == self@.is_status_line(),
    {
        match self {
            Action::SetStatusLine(_) => true,
            _ => false,
        }
    }
}

} // verus!
