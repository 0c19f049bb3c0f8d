//! The keys of the calendar page that move the day, and what is asked of
//! the store for the day that is shown then.

use vstd::prelude::*;
use crate::components::home::keys::{KeyCode, KeyEvent, KeyEventKind};
use crate::persist::model::{Command, CommandView};
use crate::seqs::views;
use crate::shared::{day_outcome, day_shifted, Day};

verus! {

/// A key that moves the day of the calendar page.
#[derive(Debug, Clone, Copy)]
pub enum DayKey {
    PageUp,
    Up,
    Left,
    Right,
    Down,
    PageDown,
}

/// How many days the key moves the day on: a day, a week, or a year of 365
/// days, back for a negative number.
pub open spec fn days_moved(key: DayKey) -> int {
    match key {
        DayKey::PageUp => -365,
        DayKey::Up => -7,
        DayKey::Left => -1,
        DayKey::Right => 1,
        DayKey::Down => 7,
        DayKey::PageDown => 365,
    }
}

/// The key that moves the day, if `code` is one.
pub open spec fn day_key_of(code: KeyCode) -> Option<DayKey> {
    match code {
        KeyCode::PageUp => Some(DayKey::PageUp),
        KeyCode::Up => Some(DayKey::Up),
        KeyCode::Left => Some(DayKey::Left),
        KeyCode::Right => Some(DayKey::Right),
        KeyCode::Down => Some(DayKey::Down),
        KeyCode::PageDown => Some(DayKey::PageDown),
        _ => None,
    }
}

/// What a key asks of the calendar page.
#[derive(Debug, Clone, Copy)]
pub enum CalendarStep {
    /// The key is none of the page's.
    Nothing,
    /// Another day is to be shown.
    MoveTo(Day),
    /// The key leads to a day that the calendar does not have.
    NoSuchDay,
    /// The timeline of the day is to be opened.
    Open(Day),
    /// The summary of the day is to be copied.
    CopySummary,
    /// The summary of the day is to be booked.
    BookInJira,
}

/// What a key does on the calendar page that shows `day`. Only presses
/// count. The arrows and the page keys move the day, Enter opens it, `c`
/// copies its summary and `j` books it.
pub open spec fn key_step(day: Day, key: KeyEvent) -> CalendarStep {
    if !(key.kind is Press) {
        CalendarStep::Nothing
    } else {
        match day_key_of(key.code) {
            Some(day_key) => match day_shifted(
                day.year as int,
                day.month as int,
                day.day as int,
                days_moved(day_key),
            ) {
                Some(ymd) => CalendarStep::MoveTo(
                    Day { year: ymd.0 as i32, month: ymd.1 as u8, day: ymd.2 as u8 },
                ),
                None => CalendarStep::NoSuchDay,
            },
            None => if key.code is Enter {
                CalendarStep::Open(day)
            } else if key.code == KeyCode::Char('c') {
                CalendarStep::CopySummary
            } else if key.code == KeyCode::Char('j') {
                CalendarStep::BookInJira
            } else {
                CalendarStep::Nothing
            },
        }
    }
}

/// What is asked of the store when `day` comes to be shown: which days of
/// its month have a sheet, and then its own sheet.
pub open spec fn fetch_commands_of(day: Day) -> Seq<CommandView> {
    seq![CommandView::LoadTimesheetsOfMonth { day }, CommandView::LoadTimesheet { day }]
}

/// How many days `key` moves the day on.
pub fn day_offset(key: DayKey) -> (days: i32)
    ensures
        days == days_moved(key),
{
    match key {
        DayKey::PageUp => -365,
        DayKey::Up => -7,
        DayKey::Left => -1,
        DayKey::Right => 1,
        DayKey::Down => 7,
        DayKey::PageDown => 365,
    }
}

/// The day that `key` leads to from `day`, if the calendar has it.
pub fn moved_day(day: Day, key: DayKey) -> (r: Option<Day>)
    ensures
        day_outcome(r) == day_shifted(
            day.year as int,
            day.month as int,
            day.day as int,
            days_moved(key),
        ),
{
    day.shifted(day_offset(key))
}

/// The key that moves the day, if `code` is one.
pub fn day_key(code: KeyCode) -> (key: Option<DayKey>)
    ensures
        key == day_key_of(code),
{
    match code {
        KeyCode::PageUp => Some(DayKey::PageUp),
        KeyCode::Up => Some(DayKey::Up),
        KeyCode::Left => Some(DayKey::Left),
        KeyCode::Right => Some(DayKey::Right),
        KeyCode::Down => Some(DayKey::Down),
        KeyCode::PageDown => Some(DayKey::PageDown),
        _ => None,
    }
}

/// Decides what a key asks of the calendar page that shows `day`.
pub fn handle_key(day: Day, key: KeyEvent) -> (step: CalendarStep)
    ensures
        step == key_step(day, key),
{
    match key.kind {
        KeyEventKind::Press => {},
        _ => {
            return CalendarStep::Nothing;
        },
    }
    match day_key(key.code) {
        Some(moving) => match moved_day(day, moving) {
            Some(new_day) => CalendarStep::MoveTo(new_day),
            None => CalendarStep::NoSuchDay,
        },
        None => match key.code {
            KeyCode::Enter => CalendarStep::Open(day),
            KeyCode::Char(c) => if c == 'c' {
                CalendarStep::CopySummary
            } else if c == 'j' {
                CalendarStep::BookInJira
            } else {
                CalendarStep::Nothing
            },
            _ => CalendarStep::Nothing,
        },
    }
}

/// The commands that fetch what the calendar page shows of `day`.
pub fn fetch_commands(day: Day) -> (commands: Vec<Command>)
    ensures
        views(commands@) == fetch_commands_of(day),
{
    let mut commands: Vec<Command> = Vec::new();
    commands.push(Command::LoadTimesheetsOfMonth { day });
    commands.push(Command::LoadTimesheet { day });
    assert(views(commands@) =~= fetch_commands_of(day));
    commands
}

} // verus!
