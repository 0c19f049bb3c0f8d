use sheet_shark::components::home::action::HomeAction;
use sheet_shark::components::home::editing::description::Description;
use sheet_shark::components::home::editing::duration::Duration;
use sheet_shark::components::home::editing::mode::EditMode;
use sheet_shark::components::home::editing::project::Project;
use sheet_shark::components::home::editing::select::Select;
use sheet_shark::components::home::editing::shared::BufEditBehavior;
use sheet_shark::components::home::editing::ticket::{SuggestAction, Ticket, TicketsSuggestion};
use sheet_shark::components::home::editing::time::Time;
use sheet_shark::components::home::keys::{KeyCode, KeyEvent, KeyEventKind};
use sheet_shark::components::home::movement::{handle_movement, is_movement};
use sheet_shark::components::home::state::{HomeState, Selection, TimeItem};
use sheet_shark::persist::model::{Event, Timesheet};
use sheet_shark::shared::DataVersion;

fn at(hour: u32, minute: u32) -> u32 {
    hour * 60 + minute
}

fn block(id: &str, start: u32, duration: u32, description: &str) -> TimeItem {
    TimeItem {
        id: id.to_string(),
        start_time: start,
        project: "P".to_string(),
        ticket: "T-1".to_string(),
        description: description.to_string(),
        duration,
        version: DataVersion::loaded(),
    }
}

fn day() -> HomeState {
    HomeState {
        table: Selection { row: Some(0), column: Some(0) },
        timesheet: Some(Timesheet { day: "2026-01-08".to_string(), status: "OPEN".to_string() }),
        items: vec![
            block("a", at(9, 0), 60, "one"),
            block("b", at(10, 0), 30, "two"),
            block("c", at(10, 30), 0, ""),
        ],
        items_to_delete: vec![],
    }
}

fn press(code: KeyCode) -> KeyEvent {
    KeyEvent::press(code)
}

fn shape(state: &HomeState) -> Vec<(u32, u32)> {
    state.items.iter().map(|it| (it.start_time, it.duration)).collect()
}

fn type_text(buf: &mut BufEditBehavior, state: &mut HomeState, text: &str) {
    for c in text.chars() {
        let action = buf.handle_key_event(state, press(KeyCode::Char(c)));
        assert!(matches!(action, HomeAction::Nothing));
    }
}

#[test]
fn movement_keys_are_told_apart() {
    for code in [KeyCode::Left, KeyCode::Right, KeyCode::Tab, KeyCode::BackTab, KeyCode::Up, KeyCode::Down] {
        assert!(is_movement(press(code)));
    }
    for code in [KeyCode::Enter, KeyCode::Esc, KeyCode::End, KeyCode::Backspace, KeyCode::Char('a'), KeyCode::Other] {
        assert!(!is_movement(press(code)));
    }
}

#[test]
fn arrows_move_within_the_table() {
    let mut state = day();
    state.table = Selection { row: None, column: None };
    assert!(handle_movement(&mut state, press(KeyCode::Down)));
    assert_eq!((state.table.row, state.table.column), (Some(0), None));
    assert!(handle_movement(&mut state, press(KeyCode::Down)));
    assert!(handle_movement(&mut state, press(KeyCode::Down)));
    assert_eq!((state.table.row, state.table.column), (Some(2), None));
    // in the last row a step down only makes sure of the column
    assert!(handle_movement(&mut state, press(KeyCode::Down)));
    assert_eq!((state.table.row, state.table.column), (Some(2), Some(0)));
    assert!(handle_movement(&mut state, press(KeyCode::Up)));
    assert!(handle_movement(&mut state, press(KeyCode::Up)));
    assert!(handle_movement(&mut state, press(KeyCode::Up)));
    assert_eq!((state.table.row, state.table.column), (Some(0), Some(0)));
    assert!(!handle_movement(&mut state, press(KeyCode::Enter)));
    assert_eq!((state.table.row, state.table.column), (Some(0), Some(0)));
}

#[test]
fn up_without_a_selection_goes_to_the_last_row() {
    let mut state = day();
    state.table = Selection { row: None, column: None };
    assert!(handle_movement(&mut state, press(KeyCode::Up)));
    assert_eq!(state.table.row, Some(2));
}

#[test]
fn columns_wrap_into_the_next_row_but_not_out_of_the_table() {
    let mut state = day();
    state.table = Selection { row: Some(0), column: Some(3) };
    assert!(handle_movement(&mut state, press(KeyCode::Right)));
    assert_eq!((state.table.row, state.table.column), (Some(0), Some(4)));
    assert!(handle_movement(&mut state, press(KeyCode::Tab)));
    assert_eq!((state.table.row, state.table.column), (Some(1), Some(0)));
    assert!(handle_movement(&mut state, press(KeyCode::Left)));
    assert_eq!((state.table.row, state.table.column), (Some(0), Some(4)));
    state.table = Selection { row: Some(0), column: Some(0) };
    assert!(handle_movement(&mut state, press(KeyCode::BackTab)));
    assert_eq!((state.table.row, state.table.column), (Some(0), Some(0)));
    state.table = Selection { row: Some(2), column: Some(4) };
    assert!(handle_movement(&mut state, press(KeyCode::Right)));
    assert_eq!((state.table.row, state.table.column), (Some(2), Some(4)));
    // a step to the side selects the first row if none is selected
    state.table = Selection { row: None, column: None };
    assert!(handle_movement(&mut state, press(KeyCode::Right)));
    assert_eq!((state.table.row, state.table.column), (Some(0), Some(0)));
    state.table = Selection { row: None, column: None };
    assert!(handle_movement(&mut state, press(KeyCode::Left)));
    assert_eq!((state.table.row, state.table.column), (Some(0), Some(4)));
}

#[test]
fn buffer_takes_characters_and_gives_them_back() {
    let mut state = day();
    let mut buf = BufEditBehavior::new("ab");
    buf.push('c');
    assert_eq!(buf.as_str(), "abc");
    type_text(&mut buf, &mut state, "dé");
    assert_eq!(buf.as_str(), "abcdé");
    // backspace takes a whole character, however many bytes it has
    assert!(matches!(buf.handle_key_event(&mut state, press(KeyCode::Backspace)), HomeAction::Nothing));
    assert_eq!(buf.as_str(), "abcd");
    assert!(matches!(buf.handle_key_event(&mut state, press(KeyCode::Char('^'))), HomeAction::Nothing));
    assert_eq!(buf.as_str(), "");
    assert!(buf.is_empty());
    assert!(matches!(buf.handle_key_event(&mut state, press(KeyCode::Backspace)), HomeAction::Nothing));
    assert_eq!(buf.as_str(), "");
    assert!(matches!(buf.handle_key_event(&mut state, press(KeyCode::Other)), HomeAction::Nothing));
    // nothing of this touched the day
    assert_eq!(state.items[0].description, "one");
    assert_eq!(state.items[0].version.local, 1);
}

#[test]
fn enter_and_esc_close_the_editor() {
    let mut state = day();
    let mut buf = BufEditBehavior::new("x");
    assert!(matches!(buf.handle_key_event(&mut state, press(KeyCode::Enter)), HomeAction::ExitEdit));
    assert!(matches!(buf.handle_key_event(&mut state, press(KeyCode::Esc)), HomeAction::ExitEdit));
    assert!(buf.should_save(press(KeyCode::Enter)));
    assert!(buf.should_save(press(KeyCode::Tab)));
    assert!(!buf.should_save(press(KeyCode::Esc)));
    assert!(!buf.should_save(press(KeyCode::Char('a'))));
}

#[test]
fn a_step_opens_the_editor_of_the_next_cell() {
    let mut state = day();
    state.table = Selection { row: Some(0), column: Some(2) };
    let mut buf = BufEditBehavior::new("x");
    let action = buf.handle_key_event(&mut state, press(KeyCode::Right));
    assert_eq!(state.table.column, Some(3));
    match action {
        HomeAction::EnterEditSpecific(Some(EditMode::Description(d))) => {
            assert_eq!(d.buf.as_str(), "one")
        }
        other => panic!("unexpected {other:?}"),
    }
    let action = buf.handle_key_event(&mut state, press(KeyCode::Down));
    assert_eq!((state.table.row, state.table.column), (Some(1), Some(3)));
    match action {
        HomeAction::EnterEditSpecific(Some(EditMode::Description(d))) => {
            assert_eq!(d.buf.as_str(), "two")
        }
        other => panic!("unexpected {other:?}"),
    }
}

#[test]
fn editors_open_on_their_columns() {
    let state = day();
    assert_eq!(EditMode::of_time().get_column_num(), 0);
    assert_eq!(EditMode::of_project(&state).get_column_num(), 1);
    assert_eq!(EditMode::of_ticket(&state).get_column_num(), 2);
    assert_eq!(EditMode::of_description(&state).get_column_num(), 3);
    assert_eq!(EditMode::of_duration().get_column_num(), 4);
    for idx in 0..5 {
        let mode = EditMode::from_column_num(idx, &state).unwrap();
        assert_eq!(mode.get_column_num(), idx);
    }
    assert!(matches!(EditMode::from_column_num(usize::MAX, &state), Some(EditMode::Duration(_))));
    assert!(EditMode::from_column_num(5, &state).is_none());
    match EditMode::from_column_num(1, &state) {
        Some(EditMode::Project(p)) => assert_eq!(p.buf.as_str(), "P"),
        other => panic!("unexpected {other:?}"),
    }
    match EditMode::from_column_num(2, &state) {
        Some(EditMode::Ticket(t)) => {
            assert_eq!(t.buf.as_str(), "T-1");
            assert!(!t.suggestion.is_active());
        }
        other => panic!("unexpected {other:?}"),
    }
    match EditMode::of_time() {
        EditMode::Time(t) => assert_eq!(t.buf.as_str(), ""),
        other => panic!("unexpected {other:?}"),
    }
    assert_eq!(Time::new(&state).buf.as_str(), "0900");
    assert_eq!(Description::new(&state).buf.as_str(), "one");
    assert_eq!(Project::new(&state).buf.as_str(), "P");
    assert_eq!(Ticket::new(&state).buf.as_str(), "T-1");
}

#[test]
fn description_is_written_on_enter_and_dropped_on_esc() {
    let mut state = day();
    state.table = Selection { row: Some(1), column: Some(3) };
    let mut editor = Description::new(&state);
    for c in " more".chars() {
        let a = editor.handle_key_event(&mut state, press(KeyCode::Char(c)), "n".to_string());
        assert!(matches!(a, HomeAction::Nothing));
    }
    assert_eq!(state.items[1].description, "two");
    let a = editor.handle_key_event(&mut state, press(KeyCode::Esc), "n".to_string());
    assert!(matches!(a, HomeAction::ExitEdit));
    assert_eq!(state.items[1].description, "two");
    assert_eq!(state.items[1].version.local, 1);
    let a = editor.handle_key_event(&mut state, press(KeyCode::Enter), "n".to_string());
    assert!(matches!(a, HomeAction::ExitEdit));
    assert_eq!(state.items[1].description, "two more");
    assert_eq!(state.items[1].version.local, 2);
}

#[test]
fn a_step_writes_the_text_and_moves_on() {
    let mut state = day();
    state.table = Selection { row: Some(0), column: Some(1) };
    let mut editor = Project::new(&state);
    let _ = editor.handle_key_event(&mut state, press(KeyCode::Char('Q')));
    let a = editor.handle_key_event(&mut state, press(KeyCode::Tab));
    assert_eq!(state.items[0].project, "PQ");
    assert_eq!(state.table.column, Some(2));
    assert!(matches!(a, HomeAction::EnterEditSpecific(Some(EditMode::Ticket(_)))));
}

#[test]
fn text_editor_without_a_row_tells_so() {
    let mut state = day();
    state.table = Selection { row: None, column: None };
    let mut editor = Project { buf: BufEditBehavior::new("x") };
    match editor.handle_key_event(&mut state, press(KeyCode::Enter)) {
        HomeAction::SetStatusLine(msg) => assert_eq!(msg, "no item selected"),
        other => panic!("unexpected {other:?}"),
    }
    assert_eq!(state.items[0].project, "P");
}

#[test]
fn description_in_the_last_cell_of_the_last_row_continues_with_a_new_row() {
    let mut state = day();
    state.items[2].duration = 15;
    state.table = Selection { row: Some(2), column: Some(4) };
    let mut editor = Description { buf: BufEditBehavior::new("wrap up") };
    let a = editor.handle_key_event(&mut state, press(KeyCode::Right), "next".to_string());
    assert!(matches!(a, HomeAction::EnterEditSpecific(Some(EditMode::Time(_)))));
    assert_eq!(state.items.len(), 4);
    assert_eq!(state.items[2].description, "wrap up");
    assert_eq!(state.items[3].id, "next");
    assert_eq!((state.items[3].start_time, state.items[3].duration), (at(10, 45), 0));
    assert_eq!((state.table.row, state.table.column), (Some(3), Some(0)));
}

#[test]
fn duration_in_minutes_is_taken_from_the_next_block() {
    let mut state = day();
    state.table = Selection { row: Some(0), column: Some(4) };
    let mut editor = Duration::default();
    for c in "45".chars() {
        let _ = editor.handle_key_event(&mut state, press(KeyCode::Char(c)), "n".to_string());
    }
    let a = editor.handle_key_event(&mut state, press(KeyCode::Enter), "n".to_string());
    assert!(matches!(a, HomeAction::ExitEdit));
    assert_eq!(editor.buf.as_str(), "45m");
    assert_eq!(shape(&state), vec![(at(9, 0), 45), (at(9, 45), 45), (at(10, 30), 0)]);
}

#[test]
fn duration_understands_hours_and_minutes() {
    let mut state = day();
    state.table = Selection { row: Some(0), column: Some(4) };
    let mut editor = Duration { buf: BufEditBehavior::new("1h 15m") };
    let a = editor.handle_key_event(&mut state, press(KeyCode::Enter), "n".to_string());
    assert!(matches!(a, HomeAction::ExitEdit));
    assert_eq!(shape(&state), vec![(at(9, 0), 75), (at(10, 15), 15), (at(10, 30), 0)]);
}

#[test]
fn duration_on_the_last_row_opens_the_time_of_the_new_row() {
    let mut state = day();
    state.table = Selection { row: Some(2), column: Some(4) };
    let mut editor = Duration { buf: BufEditBehavior::new("20") };
    let a = editor.handle_key_event(&mut state, press(KeyCode::Tab), "next".to_string());
    assert_eq!(
        shape(&state),
        vec![(at(9, 0), 60), (at(10, 0), 30), (at(10, 30), 20), (at(10, 50), 0)]
    );
    assert_eq!(state.items[3].id, "next");
    // the new row was selected in its first cell, and the step moved on from there
    assert_eq!((state.table.row, state.table.column), (Some(3), Some(1)));
    assert!(matches!(a, HomeAction::EnterEditSpecific(Some(EditMode::Project(_)))));
}

#[test]
fn duration_that_is_no_duration_keeps_the_editor_open() {
    let mut state = day();
    state.table = Selection { row: Some(0), column: Some(4) };
    for (text, message) in [
        ("abc", "Invalid: expected number at 0"),
        ("30s", "Duration must be a whole number of minutes (e.g. 15m)"),
        ("0", "Duration must be a whole number of minutes (e.g. 15m)"),
        ("90s", "Duration must be a whole number of minutes (e.g. 15m)"),
        ("60s 5ms", "Duration must be a whole number of minutes (e.g. 15m)"),
        ("", "Invalid: value was empty"),
        ("5x", "Invalid: unknown time unit \"x\", supported units: ns, us/µs, ms, sec, min, hours, days, weeks, months, years (and few variations)"),
        ("123456789012m", "does not fit into the day"),
        ("600000000000s 60s", "does not fit into the day"),
        ("24h", "does not fit into the day"),
    ] {
        let mut editor = Duration { buf: BufEditBehavior::new(text) };
        match editor.handle_key_event(&mut state, press(KeyCode::Enter), "n".to_string()) {
            HomeAction::SetStatusLine(msg) => assert_eq!(msg, message, "for {text:?}"),
            other => panic!("unexpected {other:?} for {text:?}"),
        }
        assert_eq!(shape(&state), vec![(at(9, 0), 60), (at(10, 0), 30), (at(10, 30), 0)]);
        assert_eq!(state.items[0].version.local, 1);
    }
    // what was typed is still there, a bare number with its unit
    let mut editor = Duration { buf: BufEditBehavior::new("0") };
    let _ = editor.handle_key_event(&mut state, press(KeyCode::Enter), "n".to_string());
    assert_eq!(editor.buf.as_str(), "0m");
}

#[test]
fn time_is_typed_as_four_digits() {
    let mut state = day();
    state.table = Selection { row: Some(1), column: Some(0) };
    let mut editor = Time::default();
    for c in "09301".chars() {
        let a = editor.handle_key_event(&mut state, press(KeyCode::Char(c)));
        assert!(matches!(a, HomeAction::Nothing));
    }
    // the fifth digit was not taken
    assert_eq!(editor.buf.as_str(), "0930");
    let a = editor.handle_key_event(&mut state, press(KeyCode::Enter));
    assert!(matches!(a, HomeAction::ExitEdit));
    assert_eq!(shape(&state), vec![(at(9, 0), 30), (at(9, 30), 60), (at(10, 30), 0)]);
}

#[test]
fn empty_time_changes_nothing() {
    let mut state = day();
    state.table = Selection { row: Some(1), column: Some(0) };
    let mut editor = Time::default();
    let a = editor.handle_key_event(&mut state, press(KeyCode::Enter));
    assert!(matches!(a, HomeAction::ExitEdit));
    assert_eq!(shape(&state), vec![(at(9, 0), 60), (at(10, 0), 30), (at(10, 30), 0)]);
    assert_eq!(state.items[1].version.local, 1);
}

#[test]
fn time_that_is_refused_keeps_the_editor_open() {
    let mut state = day();
    state.table = Selection { row: Some(1), column: Some(0) };
    for (text, message) in [
        ("0859", "cannot be before previous item's start (09:00:00)"),
        ("1031", "cannot be after next item's start (10:30:00)"),
        ("2500", "invalid: input is out of range"),
        ("ab", "invalid: input contains invalid characters"),
        ("9", "invalid: premature end of input"),
    ] {
        let mut editor = Time { buf: BufEditBehavior::new(text) };
        match editor.handle_key_event(&mut state, press(KeyCode::Enter)) {
            HomeAction::SetStatusLine(msg) => assert_eq!(msg, message, "for {text:?}"),
            other => panic!("unexpected {other:?} for {text:?}"),
        }
        assert_eq!(editor.buf.as_str(), text);
        assert_eq!(shape(&state), vec![(at(9, 0), 60), (at(10, 0), 30), (at(10, 30), 0)]);
    }
}

#[test]
fn suggestions_follow_the_query() {
    let mut s = TicketsSuggestion::default();
    assert!(!s.is_active());
    s.query = "sc".to_string();
    s.handle_result("old".to_string(), vec!["x-1".to_string()]);
    assert!(!s.is_active());
    assert_eq!(s.selected(), None);
    s.handle_result("sc".to_string(), vec!["scrum-1".to_string(), "scrum-2".to_string()]);
    assert!(s.is_active());
    assert_eq!(s.selected(), Some("scrum-1"));
    assert!(matches!(s.handle_key_event(press(KeyCode::Down)), SuggestAction::Done));
    assert_eq!(s.selected(), Some("scrum-2"));
    assert!(matches!(s.handle_key_event(press(KeyCode::Down)), SuggestAction::Done));
    assert_eq!(s.selected(), Some("scrum-2"));
    assert!(matches!(s.handle_key_event(press(KeyCode::Up)), SuggestAction::Done));
    assert!(matches!(s.handle_key_event(press(KeyCode::Up)), SuggestAction::Done));
    assert_eq!(s.selected(), None);
    assert!(matches!(s.handle_key_event(press(KeyCode::Enter)), SuggestAction::Pass));
    assert!(matches!(s.handle_key_event(press(KeyCode::Up)), SuggestAction::Done));
    assert_eq!(s.selected(), Some("scrum-2"));
    assert!(matches!(s.handle_key_event(press(KeyCode::Char('a'))), SuggestAction::Pass));
    match s.handle_key_event(press(KeyCode::Tab)) {
        SuggestAction::Accept(text) => assert_eq!(text, "scrum-2"),
        other => panic!("unexpected {other:?}"),
    }
    assert!(!s.is_active());
    assert_eq!(s.query, "");
    // Esc closes the overlay
    s.query = "q".to_string();
    s.handle_result("q".to_string(), vec!["q-1".to_string()]);
    assert!(s.is_active());
    assert!(matches!(s.handle_key_event(press(KeyCode::Esc)), SuggestAction::Done));
    assert!(!s.is_active());
    assert!(matches!(s.handle_key_event(press(KeyCode::Esc)), SuggestAction::Pass));
}

#[test]
fn ticket_editor_asks_for_suggestions_and_takes_one() {
    let mut state = day();
    state.table = Selection { row: Some(0), column: Some(2) };
    let mut editor = Ticket { buf: BufEditBehavior::empty(), suggestion: TicketsSuggestion::default() };
    match editor.handle_key_event(&mut state, press(KeyCode::Char('s'))) {
        HomeAction::SuggestTickets(q) => assert_eq!(q, "s"),
        other => panic!("unexpected {other:?}"),
    }
    assert_eq!(editor.suggestion.query, "s");
    // an answer to an older query is dropped
    editor.handle_persisted(Event::TicketsSuggested { query: "x".to_string(), ticket_keys: vec!["x-9".to_string()] });
    assert!(!editor.suggestion.is_active());
    editor.handle_persisted(Event::TicketsSuggested { query: "s".to_string(), ticket_keys: vec!["scrum-17".to_string()] });
    assert!(editor.suggestion.is_active());
    editor.handle_persisted(Event::Deleted);
    assert!(editor.suggestion.is_active());
    // Down is used up by the overlay
    assert!(matches!(editor.handle_key_event(&mut state, press(KeyCode::Down)), HomeAction::Nothing));
    assert_eq!(state.table.row, Some(0));
    // Enter takes the suggestion, writes it into the row and closes the editor
    match editor.handle_key_event(&mut state, press(KeyCode::Enter)) {
        HomeAction::Many(actions) => {
            assert_eq!(actions.len(), 2);
            assert!(matches!(actions[0], HomeAction::ExitEdit));
            match &actions[1] {
                HomeAction::SuggestTickets(q) => assert_eq!(q, "scrum-17"),
                other => panic!("unexpected {other:?}"),
            }
        }
        other => panic!("unexpected {other:?}"),
    }
    assert_eq!(editor.buf.as_str(), "scrum-17");
    assert_eq!(state.items[0].ticket, "scrum-17");
    assert!(!editor.suggestion.is_active());
}

#[test]
fn ticket_overlay_goes_when_the_text_is_empty() {
    let mut state = day();
    state.table = Selection { row: Some(0), column: Some(2) };
    let mut editor = Ticket { buf: BufEditBehavior::new("s"), suggestion: TicketsSuggestion::default() };
    editor.suggestion.query = "s".to_string();
    editor.handle_persisted(Event::TicketsSuggested { query: "s".to_string(), ticket_keys: vec!["scrum-17".to_string()] });
    assert!(editor.suggestion.is_active());
    match editor.handle_key_event(&mut state, press(KeyCode::Backspace)) {
        HomeAction::SuggestTickets(q) => assert_eq!(q, ""),
        other => panic!("unexpected {other:?}"),
    }
    assert!(!editor.suggestion.is_active());
}

#[test]
fn actions_add_up_to_lists() {
    let both = HomeAction::Nothing.add(HomeAction::ExitEdit);
    assert!(matches!(both, HomeAction::ExitEdit));
    let both = HomeAction::ExitEdit.add(HomeAction::EnterSelect);
    match both.add(HomeAction::ExitToCalendar) {
        HomeAction::Many(actions) => {
            assert_eq!(actions.len(), 3);
            assert!(matches!(actions[0], HomeAction::ExitEdit));
            assert!(matches!(actions[1], HomeAction::EnterSelect));
            assert!(matches!(actions[2], HomeAction::ExitToCalendar));
        }
        other => panic!("unexpected {other:?}"),
    }
}

#[test]
fn select_opens_editors_and_gives_the_selection_up() {
    let mut state = day();
    state.table = Selection { row: None, column: None };
    let mut select = Select {};
    // a jump key selects the first row
    let a = select.handle_key_event(&mut state, press(KeyCode::Char('x')));
    assert!(matches!(a, HomeAction::EnterEditSpecific(Some(EditMode::Description(_)))));
    assert_eq!(state.table.row, Some(0));
    assert!(matches!(
        select.handle_key_event(&mut state, press(KeyCode::Char('#'))),
        HomeAction::EnterEditSpecific(Some(EditMode::Time(_)))
    ));
    assert!(matches!(
        select.handle_key_event(&mut state, press(KeyCode::Char('t'))),
        HomeAction::EnterEditSpecific(Some(EditMode::Ticket(_)))
    ));
    assert!(matches!(
        select.handle_key_event(&mut state, press(KeyCode::Char('d'))),
        HomeAction::EnterEditSpecific(Some(EditMode::Duration(_)))
    ));
    // Space without a column opens nothing
    assert!(matches!(
        select.handle_key_event(&mut state, press(KeyCode::Char(' '))),
        HomeAction::EnterEditSpecific(None)
    ));
    assert!(matches!(select.handle_key_event(&mut state, press(KeyCode::Right)), HomeAction::Nothing));
    assert!(matches!(select.handle_key_event(&mut state, press(KeyCode::Right)), HomeAction::Nothing));
    assert_eq!(state.table.column, Some(1));
    assert!(matches!(
        select.handle_key_event(&mut state, press(KeyCode::Char(' '))),
        HomeAction::EnterEditSpecific(Some(EditMode::Project(_)))
    ));
    assert!(matches!(select.handle_key_event(&mut state, press(KeyCode::End)), HomeAction::Nothing));
    assert_eq!((state.table.row, state.table.column), (Some(2), Some(4)));
    assert!(matches!(select.handle_key_event(&mut state, press(KeyCode::Char('q'))), HomeAction::Nothing));
    assert!(matches!(select.handle_key_event(&mut state, press(KeyCode::Esc)), HomeAction::ExitSelect));
    assert_eq!((state.table.row, state.table.column), (None, Some(4)));
}

#[test]
fn key_event_kinds_are_kept() {
    let key = KeyEvent { code: KeyCode::Enter, kind: KeyEventKind::Release };
    assert!(matches!(key.kind, KeyEventKind::Release));
    assert!(matches!(press(KeyCode::Enter).kind, KeyEventKind::Press));
}

#[test]
fn time_and_duration_editors_open_without_a_selected_row() {
    let mut state = day();
    state.table = Selection { row: None, column: None };
    assert!(matches!(EditMode::from_column_num(0, &state), Some(EditMode::Time(t)) if t.buf.as_str().is_empty()));
    assert!(matches!(EditMode::from_column_num(4, &state), Some(EditMode::Duration(d)) if d.buf.as_str().is_empty()));
    assert!(matches!(EditMode::from_column_num(usize::MAX, &state), Some(EditMode::Duration(_))));
    assert!(EditMode::from_column_num(5, &state).is_none());
}
