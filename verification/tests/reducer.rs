use sheet_shark::action::{Action, Page};
use sheet_shark::components::home::action::{
    do_perform, editing_keys, outside_keys, perform, save_any_dirty_state, selecting_keys,
    HomeAction,
};
use sheet_shark::components::home::editing::mode::EditMode;
use sheet_shark::components::home::keys::{KeyCode, KeyEvent, KeyEventKind};
use sheet_shark::components::home::state::{into_state, HomeState, Selection, TimeItem};
use sheet_shark::components::home::{key_handling, persist_handling, Home};
use sheet_shark::persist::model::{Command, Event, TimeEntry, Timesheet};
use sheet_shark::shared::{DataVersion, Day};

const DAY: Day = Day { year: 2026, month: 1, day: 8 };

fn at(hour: u32, minute: u32) -> u32 {
    hour * 60 + minute
}

fn block(id: &str, start: u32, duration: u32, description: &str) -> TimeItem {
    TimeItem {
        id: id.to_string(),
        start_time: start,
        project: String::new(),
        ticket: String::new(),
        description: description.to_string(),
        duration,
        version: DataVersion::loaded(),
    }
}

fn home() -> Home {
    let mut home = Home::new(DAY);
    home.state = HomeState {
        table: Selection { row: None, column: None },
        timesheet: Some(Timesheet { day: "2026-01-08".to_string(), status: "OPEN".to_string() }),
        items: vec![
            block("a", at(9, 0), 60, "one"),
            block("b", at(10, 0), 30, "two"),
            block("c", at(10, 30), 0, ""),
        ],
        items_to_delete: vec![],
    };
    home
}

fn press(code: KeyCode) -> KeyEvent {
    KeyEvent::press(code)
}

fn shape(home: &Home) -> Vec<(u32, u32)> {
    home.state.items.iter().map(|it| (it.start_time, it.duration)).collect()
}

fn status_lines(actions: &[Action]) -> Vec<String> {
    actions
        .iter()
        .filter_map(|a| match a {
            Action::SetStatusLine(msg) => Some(msg.clone()),
            _ => None,
        })
        .collect()
}

fn legend(actions: &[Action]) -> Vec<Vec<String>> {
    actions
        .iter()
        .filter_map(|a| match a {
            Action::SetRelevantKeys(keys) => Some(keys.iter().map(|k| k.key.clone()).collect()),
            _ => None,
        })
        .collect()
}

fn entry(id: &str, start: &str, minutes: i32) -> TimeEntry {
    TimeEntry {
        id: id.to_string(),
        timesheet_day: "2026-01-08".to_string(),
        project_key: "P".to_string(),
        ticket_key: Some("T-1".to_string()),
        duration_mins: minutes,
        description: "words".to_string(),
        start_time: start.to_string(),
    }
}

const ID_1: &str = "tent_01h2xcejqtf2nbrexx3vqjhp41";
const ID_2: &str = "tent_01h2xcejqtf2nbrexx3vqjhp42";

#[test]
fn legends_name_their_keys() {
    let keys: Vec<String> = outside_keys().iter().map(|k| format!("{}={}", k.key, k.text)).collect();
    assert_eq!(keys, vec!["Arrows=Move", "Esc=Exit to calendar", "e=Export CSV"]);
    let keys: Vec<String> = selecting_keys().iter().map(|k| format!("{}={}", k.key, k.text)).collect();
    assert_eq!(keys, vec!["Space=Edit", "s=Split", "Arrows=Move", "e=Export CSV"]);
    let keys: Vec<String> = editing_keys().iter().map(|k| format!("{}={}", k.key, k.text)).collect();
    assert_eq!(keys, vec!["^=Clear"]);
}

#[test]
fn entering_an_editor_selects_its_column() {
    let mut home = home();
    home.state.table = Selection { row: Some(1), column: Some(0) };
    let mut ids = vec![];
    let out = do_perform(&mut home, HomeAction::EnterEditSpecific(Some(EditMode::of_duration())), &mut ids);
    assert!(matches!(home.edit_mode, Some(EditMode::Duration(_))));
    assert_eq!(home.state.table.column, Some(4));
    assert_eq!(legend(&out.actions), vec![vec!["^".to_string()]]);
    assert!(out.commands.is_empty());

    let out = do_perform(&mut home, HomeAction::ExitEdit, &mut ids);
    assert!(home.edit_mode.is_none());
    assert_eq!(legend(&out.actions)[0][0], "Space");

    let out = do_perform(&mut home, HomeAction::EnterEditSpecific(None), &mut ids);
    assert_eq!(status_lines(&out.actions), vec!["\u{26d4}\u{26d4}\u{26d4}".to_string()]);
    let out = do_perform(&mut home, HomeAction::EnterSelect, &mut ids);
    assert_eq!(legend(&out.actions)[0][0], "Space");
    let out = do_perform(&mut home, HomeAction::ExitSelect, &mut ids);
    assert_eq!(legend(&out.actions)[0][0], "Arrows");
    let out = do_perform(&mut home, HomeAction::Nothing, &mut ids);
    assert!(out.actions.is_empty() && out.commands.is_empty());
    let out = do_perform(&mut home, HomeAction::ExitToCalendar, &mut ids);
    assert!(matches!(out.actions[0], Action::SetActivePage(Page::Calendar { day }) if day.day == 8));
}

#[test]
fn suggestions_are_asked_for_only_with_a_query() {
    let mut home = home();
    let mut ids = vec![];
    let out = do_perform(&mut home, HomeAction::SuggestTickets(String::new()), &mut ids);
    assert!(out.commands.is_empty());
    let out = do_perform(&mut home, HomeAction::SuggestTickets("sc".to_string()), &mut ids);
    assert!(matches!(&out.commands[0], Command::SuggestTickets { query } if query == "sc"));
}

#[test]
fn split_and_merge_are_carried_out_or_explained() {
    let mut home = home();
    let mut ids = vec!["spare".to_string(), "new".to_string()];
    let out = do_perform(&mut home, HomeAction::SplitItemDown(0), &mut ids);
    assert!(out.actions.is_empty());
    assert_eq!(ids, vec!["spare".to_string()]);
    assert_eq!(home.state.items[1].id, "new");
    assert_eq!(shape(&home), vec![(at(9, 0), 30), (at(9, 30), 30), (at(10, 0), 30), (at(10, 30), 0)]);

    let out = do_perform(&mut home, HomeAction::SplitItemDown(3), &mut ids);
    assert_eq!(status_lines(&out.actions), vec!["cannot split further".to_string()]);
    assert_eq!(ids, vec!["spare".to_string()]);
    let out = do_perform(&mut home, HomeAction::SplitItemDown(9), &mut ids);
    assert_eq!(status_lines(&out.actions), vec!["no item selected".to_string()]);

    let out = do_perform(&mut home, HomeAction::MergeItemDown(3), &mut ids);
    assert_eq!(status_lines(&out.actions), vec!["no item to merge with".to_string()]);
    let out = do_perform(&mut home, HomeAction::MergeItemDown(0), &mut ids);
    assert!(out.actions.is_empty());
    assert_eq!(shape(&home), vec![(at(9, 0), 60), (at(10, 0), 30), (at(10, 30), 0)]);
    assert_eq!(home.state.items_to_delete.len(), 1);
}

#[test]
fn lists_are_carried_out_in_order() {
    let mut home = home();
    let mut ids = vec!["second".to_string(), "first".to_string()];
    let action = HomeAction::Many(vec![
        HomeAction::SplitItemDown(0),
        HomeAction::Many(vec![HomeAction::SetStatusLine("hello".to_string()), HomeAction::SplitItemDown(0)]),
        HomeAction::SuggestTickets("q".to_string()),
        HomeAction::ExitEdit,
    ]);
    let out = do_perform(&mut home, action, &mut ids);
    assert!(ids.is_empty());
    assert_eq!(
        shape(&home),
        vec![(at(9, 0), 15), (at(9, 15), 15), (at(9, 30), 30), (at(10, 0), 30), (at(10, 30), 0)]
    );
    assert_eq!(home.state.items[1].id, "second");
    assert_eq!(home.state.items[2].id, "first");
    assert_eq!(out.actions.len(), 2);
    assert!(matches!(&out.actions[0], Action::SetStatusLine(m) if m == "hello"));
    assert!(matches!(&out.actions[1], Action::SetRelevantKeys(_)));
    assert_eq!(out.commands.len(), 1);
}

#[test]
fn status_line_is_cleared_by_the_next_step() {
    let mut home = home();
    let mut ids = vec![];
    let out = perform(&mut home, HomeAction::SetStatusLine("oops".to_string()), &mut ids);
    assert_eq!(status_lines(&out.actions), vec!["oops".to_string()]);
    assert!(home.need_status_line_reset);
    let out = perform(&mut home, HomeAction::Nothing, &mut ids);
    assert_eq!(status_lines(&out.actions), vec![String::new()]);
    assert!(!home.need_status_line_reset);
    let out = perform(&mut home, HomeAction::Nothing, &mut ids);
    assert!(out.actions.is_empty());
    let _ = perform(&mut home, HomeAction::SetStatusLine("a".to_string()), &mut ids);
    let out = perform(&mut home, HomeAction::SetStatusLine("b".to_string()), &mut ids);
    assert_eq!(status_lines(&out.actions), vec![String::new(), "b".to_string()]);
    assert!(home.need_status_line_reset);
}

#[test]
fn dirty_blocks_are_saved_once_and_removed_blocks_deleted() {
    let mut home = home();
    home.state.items[0].version.touch();
    home.state.items[2].version = DataVersion::fresh();
    home.state.items[2].ticket = "T-9".to_string();
    home.state.items_to_delete.push(block("gone", at(8, 0), 5, ""));
    let commands = save_any_dirty_state(&mut home);
    assert_eq!(commands.len(), 3);
    match &commands[0] {
        Command::StoreEntry { entry, version } => {
            assert_eq!(*version, 2);
            assert_eq!(entry.id, "a");
            assert_eq!(entry.timesheet_day, "2026-01-08");
            assert_eq!(entry.start_time, "09:00");
            assert_eq!(entry.duration_mins, 60);
            assert_eq!(entry.description, "one");
            assert_eq!(entry.ticket_key, None);
            assert_eq!(entry.project_key, "");
        }
        other => panic!("unexpected {other:?}"),
    }
    match &commands[1] {
        Command::StoreEntry { entry, version } => {
            assert_eq!(*version, 1);
            assert_eq!(entry.id, "c");
            assert_eq!(entry.start_time, "10:30");
            assert_eq!(entry.ticket_key, Some("T-9".to_string()));
        }
        other => panic!("unexpected {other:?}"),
    }
    assert!(matches!(&commands[2], Command::DeleteEntry(id) if id == "gone"));
    assert_eq!(home.state.items[0].version.sent, Some(2));
    assert_eq!(home.state.items[1].version.sent, None);
    assert_eq!(home.state.items[2].version.sent, Some(1));
    assert!(home.state.items_to_delete.is_empty());
    // nothing is sent twice
    assert!(save_any_dirty_state(&mut home).is_empty());
    // an edit while the save is under way joins the version in flight
    home.state.items[0].version.touch();
    assert!(save_any_dirty_state(&mut home).is_empty());
    // once confirmed, the next edit is a new version and is sent
    home.state.items[0].version.notify_saved(2);
    home.state.items[0].version.touch();
    let commands = save_any_dirty_state(&mut home);
    assert!(matches!(&commands[..], [Command::StoreEntry { version: 3, .. }]));
}

#[test]
fn nothing_is_saved_before_the_day_is_loaded() {
    let mut home = Home::new(DAY);
    assert!(home.state.timesheet.is_none());
    assert_eq!(home.state.items.len(), 1);
    assert_eq!(home.state.items[0].description, "Loading...");
    assert_eq!(home.state.items[0].id, "tent_3s3pcceez08nfrqywmet8k291w");
    assert!(home.state.items[0].version.should_save());
    home.state.items_to_delete.push(block("gone", 0, 0, ""));
    assert!(save_any_dirty_state(&mut home).is_empty());
    assert_eq!(home.state.items_to_delete.len(), 1);
    // and keys do nothing
    let action = key_handling::handle(&mut home, press(KeyCode::Down), "n".to_string());
    assert!(matches!(action, HomeAction::Nothing));
    assert_eq!(home.state.table.row, None);
}

#[test]
fn keys_outside_an_editor() {
    let mut home = home();
    // only presses count
    let release = KeyEvent { code: KeyCode::Down, kind: KeyEventKind::Release };
    assert!(matches!(key_handling::handle(&mut home, release, "n".to_string()), HomeAction::Nothing));
    assert_eq!(home.state.table.row, None);
    assert!(matches!(
        key_handling::handle(&mut home, press(KeyCode::Esc), "n".to_string()),
        HomeAction::ExitToCalendar
    ));
    assert!(matches!(
        key_handling::handle(&mut home, press(KeyCode::Char('s')), "n".to_string()),
        HomeAction::Nothing
    ));
    assert!(matches!(
        key_handling::handle(&mut home, press(KeyCode::Down), "n".to_string()),
        HomeAction::EnterSelect
    ));
    assert_eq!(home.state.table.row, Some(0));
    assert!(matches!(
        key_handling::handle(&mut home, press(KeyCode::Down), "n".to_string()),
        HomeAction::Nothing
    ));
    assert_eq!(home.state.table.row, Some(1));
    assert!(matches!(
        key_handling::handle(&mut home, press(KeyCode::Char('s')), "n".to_string()),
        HomeAction::SplitItemDown(1)
    ));
    assert!(matches!(
        key_handling::handle(&mut home, press(KeyCode::Char('S')), "n".to_string()),
        HomeAction::MergeItemDown(1)
    ));
    assert!(matches!(
        key_handling::handle(&mut home, press(KeyCode::Char('d')), "n".to_string()),
        HomeAction::EnterEditSpecific(Some(EditMode::Duration(_)))
    ));
    assert!(matches!(
        key_handling::handle(&mut home, press(KeyCode::Esc), "n".to_string()),
        HomeAction::ExitSelect
    ));
    assert_eq!(home.state.table.row, None);
}

#[test]
fn a_whole_edit_through_the_keyboard() {
    let mut home = home();
    let mut sent = vec![];
    for code in [
        KeyCode::Down,
        KeyCode::Char('d'),
        KeyCode::Char('4'),
        KeyCode::Char('5'),
        KeyCode::Enter,
    ] {
        let out = home.handle_key_event_with(press(code), "spare".to_string());
        sent.extend(out.commands);
    }
    assert!(home.edit_mode.is_none());
    assert_eq!(shape(&home), vec![(at(9, 0), 45), (at(9, 45), 45), (at(10, 30), 0)]);
    // both changed blocks were sent, each once
    let stored: Vec<(String, i32, i32)> = sent
        .iter()
        .map(|c| match c {
            Command::StoreEntry { entry, version } => (entry.id.clone(), entry.duration_mins, *version),
            other => panic!("unexpected {other:?}"),
        })
        .collect();
    assert_eq!(stored, vec![("a".to_string(), 45, 2), ("b".to_string(), 45, 2)]);

    // the confirmations arrive, the second one twice
    let out = home.handle_persisted_with(Event::EntryStored { id: "a".to_string(), version: 2 }, "x".to_string());
    assert_eq!(status_lines(&out.actions), vec!["Stored: a v2".to_string()]);
    let out = home.handle_persisted_with(Event::EntryStored { id: "b".to_string(), version: 2 }, "x".to_string());
    assert_eq!(status_lines(&out.actions), vec![String::new(), "Stored: b v2".to_string()]);
    let _ = home.handle_persisted_with(Event::EntryStored { id: "b".to_string(), version: 1 }, "x".to_string());
    assert_eq!(home.state.items[0].version.saved, 2);
    assert_eq!(home.state.items[1].version.saved, 2);
    assert_eq!(home.state.items[1].version.sent, None);
    assert!(!home.state.items[1].version.should_save());
}

#[test]
fn split_through_the_keyboard_uses_the_spare_identifier() {
    let mut home = home();
    let _ = home.handle_key_event_with(press(KeyCode::Down), "unused".to_string());
    let out = home.handle_key_event_with(press(KeyCode::Char('s')), "fresh".to_string());
    assert_eq!(shape(&home), vec![(at(9, 0), 30), (at(9, 30), 30), (at(10, 0), 30), (at(10, 30), 0)]);
    assert_eq!(home.state.items[1].id, "fresh");
    let ids: Vec<String> = out
        .commands
        .iter()
        .map(|c| match c {
            Command::StoreEntry { entry, .. } => entry.id.clone(),
            other => panic!("unexpected {other:?}"),
        })
        .collect();
    assert_eq!(ids, vec!["a".to_string(), "fresh".to_string()]);
}

#[test]
fn new_blocks_get_identifiers_of_their_own() {
    let mut home = home();
    let _ = home.handle_key_event(press(KeyCode::Down));
    let _ = home.handle_key_event(press(KeyCode::Char('s')));
    let _ = home.handle_key_event(press(KeyCode::Char('s')));
    assert_eq!(home.state.items.len(), 5);
    let first = home.state.items[1].id.clone();
    let second = home.state.items[2].id.clone();
    assert!(first.starts_with("tent_"));
    assert_eq!(first.len(), 31);
    assert!(second.starts_with("tent_"));
    assert_ne!(first, second);
    let item = TimeItem::new(5, 7);
    assert!(item.id.starts_with("tent_"));
    assert_eq!((item.duration, item.start_time), (5, 7));
    assert_eq!(item.version.local, 1);
    assert_eq!(item.version.saved, 0);
}

#[test]
fn stored_answers_find_their_block() {
    let mut home = home();
    home.state.items[1].version = DataVersion { local: 3, saved: 1, sent: Some(3) };
    let a = persist_handling::handle(
        &mut home,
        Event::EntryStored { id: "b".to_string(), version: 3 },
        "n".to_string(),
    );
    assert!(matches!(&a, HomeAction::SetStatusLine(m) if m == "Stored: b v3"));
    assert_eq!(home.state.items[1].version.saved, 3);
    assert_eq!(home.state.items[1].version.sent, None);
    // an answer for an unknown block, and one that stored nothing
    let a = persist_handling::handle(
        &mut home,
        Event::EntryStored { id: "zz".to_string(), version: 3 },
        "n".to_string(),
    );
    assert!(matches!(a, HomeAction::Nothing));
    let a = persist_handling::handle(
        &mut home,
        Event::EntryStored { id: "a".to_string(), version: -1 },
        "n".to_string(),
    );
    assert!(matches!(a, HomeAction::Nothing));
    assert_eq!(home.state.items[0].version.saved, 1);
    let a = persist_handling::handle(
        &mut home,
        Event::EntryStored { id: "a".to_string(), version: -7 },
        "n".to_string(),
    );
    assert!(
        matches!(&a, HomeAction::SetStatusLine(m) if m == "Ignored out-of-order confirmation: a v-7")
    );
    assert_eq!(home.state.items[0].version.saved, 1);
    // a confirmation of a version that the block never reached
    home.state.items[0].version = DataVersion { local: 2, saved: 1, sent: Some(2) };
    let a = persist_handling::handle(
        &mut home,
        Event::EntryStored { id: "a".to_string(), version: 5 },
        "n".to_string(),
    );
    assert!(
        matches!(&a, HomeAction::SetStatusLine(m) if m == "Ignored out-of-order confirmation: a v5")
    );
    assert_eq!(home.state.items[0].version.saved, 1);
    assert_eq!(home.state.items[0].version.local, 2);
    assert_eq!(home.state.items[0].version.sent, Some(2));
    // stored answers count even while the view is suspended
    home.suspended = true;
    home.state.items[0].version = DataVersion { local: 2, saved: 1, sent: Some(2) };
    let _ = persist_handling::handle(
        &mut home,
        Event::EntryStored { id: "a".to_string(), version: 2 },
        "n".to_string(),
    );
    assert_eq!(home.state.items[0].version.saved, 2);
}

#[test]
fn a_loaded_day_replaces_the_timeline() {
    let mut home = home();
    home.state.table = Selection { row: Some(2), column: Some(1) };
    let event = Event::TimesheetLoaded {
        day: DAY,
        timesheet: Timesheet { day: "2026-01-09".to_string(), status: "OPEN".to_string() },
        entries: vec![
            entry(ID_1, "08:40", 20),
            entry("tent_nonsense", "09:00", 15),
            entry(ID_2, "9 o'clock", 15),
            entry(ID_2, "09:00:30", 15),
            entry("user_01h2xcejqtf2nbrexx3vqjhp41", "09:15", 15),
            entry(ID_1, "23:00", 120),
            entry(ID_1, "10:00", -5),
        ],
    };
    let out = home.handle_persisted_with(event, "spare".to_string());
    assert_eq!(status_lines(&out.actions), vec!["Loaded: 2026-01-09".to_string()]);
    assert!(out.commands.is_empty());
    // the evening's block reaches past midnight and is kept as it is
    assert_eq!(shape(&home), vec![(at(8, 40), 20), (at(9, 0), 15), (at(23, 0), 120)]);
    assert!(home.is_well_formed());
    assert_eq!(home.state.items[0].id, ID_1);
    assert_eq!(home.state.items[0].project, "P");
    assert_eq!(home.state.items[0].ticket, "T-1");
    assert_eq!(home.state.items[0].description, "words");
    assert_eq!(home.state.items[0].version.saved, 1);
    assert!(!home.state.items[0].version.should_save());
    assert_eq!(home.state.table.row, None);
    assert_eq!(home.state.timesheet.as_ref().unwrap().day, "2026-01-09");
}

#[test]
fn a_day_without_entries_gets_an_open_block() {
    let mut home = home();
    let event = Event::TimesheetLoaded {
        day: DAY,
        timesheet: Timesheet { day: "2026-01-09".to_string(), status: "OPEN".to_string() },
        entries: vec![],
    };
    let out = home.handle_persisted_with(event, "spare".to_string());
    assert_eq!(shape(&home), vec![(0, 0)]);
    assert_eq!(home.state.items[0].id, "spare");
    // the blank block is new, so it is sent to the store, which will skip it
    assert!(matches!(&out.commands[..], [Command::StoreEntry { version: 1, entry }] if entry.start_time == "00:00"));
}

#[test]
fn a_suspended_view_loads_nothing() {
    let mut home = home();
    home.suspended = true;
    let event = Event::TimesheetLoaded {
        day: DAY,
        timesheet: Timesheet { day: "2026-01-09".to_string(), status: "OPEN".to_string() },
        entries: vec![],
    };
    let a = persist_handling::handle(&mut home, event, "spare".to_string());
    assert!(matches!(a, HomeAction::Nothing));
    assert_eq!(home.state.items.len(), 3);
    assert_eq!(home.state.timesheet.as_ref().unwrap().day, "2026-01-08");
}

#[test]
fn other_answers_go_to_the_open_editor() {
    let mut home = home();
    home.state.table = Selection { row: Some(0), column: Some(2) };
    let mut mode = EditMode::of_ticket(&home.state);
    if let EditMode::Ticket(t) = &mut mode {
        t.suggestion.query = "s".to_string();
    }
    home.edit_mode = Some(mode);
    let suggested = || Event::TicketsSuggested { query: "s".to_string(), ticket_keys: vec!["scrum-1".to_string()] };
    home.suspended = true;
    let _ = persist_handling::handle(&mut home, suggested(), "n".to_string());
    assert!(matches!(&home.edit_mode, Some(EditMode::Ticket(t)) if !t.suggestion.is_active()));
    home.suspended = false;
    let a = persist_handling::handle(&mut home, suggested(), "n".to_string());
    assert!(matches!(a, HomeAction::Nothing));
    assert!(matches!(&home.edit_mode, Some(EditMode::Ticket(t)) if t.suggestion.is_active()));
    let a = persist_handling::handle(&mut home, Event::Failure("disk full".to_string()), "n".to_string());
    assert!(matches!(a, HomeAction::Nothing));
    let a = persist_handling::handle(&mut home, Event::Deleted, "n".to_string());
    assert!(matches!(a, HomeAction::Nothing));
}

#[test]
fn into_state_counts_what_it_leaves_out() {
    let (state, skipped) = into_state(
        Timesheet { day: "2026-01-09".to_string(), status: "OPEN".to_string() },
        vec![entry(ID_1, "08:40", 20), entry("nope", "09:00", 15), entry(ID_2, "09:00", 15)],
    );
    assert_eq!(skipped, 1);
    assert_eq!(state.items.len(), 2);
    assert_eq!(state.items[1].id, ID_2);
    assert!(state.items_to_delete.is_empty());
}

#[test]
fn rows_go_to_the_store_and_come_back() {
    let mut item = block(ID_1, at(8, 5), 25, "words");
    item.project = "W".to_string();
    item.ticket = "T-2".to_string();
    let stored = item.to_persist("2026-01-08");
    assert_eq!(stored.id, ID_1);
    assert_eq!(stored.start_time, "08:05");
    assert_eq!(stored.duration_mins, 25);
    assert_eq!(stored.ticket_key, Some("T-2".to_string()));
    assert_eq!(stored.project_key, "W");
    let back = TimeItem::try_from(&stored).unwrap();
    assert_eq!(back.id, ID_1);
    assert_eq!((back.start_time, back.duration), (at(8, 5), 25));
    assert_eq!(back.project, "W");
    assert_eq!(back.ticket, "T-2");
    assert_eq!(back.description, "words");
    assert_eq!(back.next_start_time(), at(8, 30));
    // the readings decide, whatever the entry's own texts say
    assert!(TimeItem::from_readings(&stored, None, Some((8, 5))).is_none());
    assert!(TimeItem::from_readings(&stored, Some("id".to_string()), None).is_none());
    let other = TimeItem::from_readings(&stored, Some("id".to_string()), Some((23, 35))).unwrap();
    assert_eq!((other.id.as_str(), other.start_time), ("id", at(23, 35)));
    // a block may reach past midnight
    let late = TimeItem::from_readings(&stored, Some("id".to_string()), Some((23, 36))).unwrap();
    assert_eq!((late.start_time, late.duration), (at(23, 36), 25));
    assert_eq!(late.next_start_time(), 1441);
    let mut stored = stored;
    stored.duration_mins = i32::MAX;
    let kept = TimeItem::from_readings(&stored, Some("id".to_string()), Some((23, 59))).unwrap();
    assert_eq!(kept.duration, i32::MAX as u32);
    assert_eq!(kept.to_persist("2026-01-08").duration_mins, i32::MAX);
    // a negative duration stands for no block
    stored.duration_mins = -1;
    assert!(TimeItem::from_readings(&stored, Some("id".to_string()), Some((8, 5))).is_none());
    let mut evening = stored;
    evening.start_time = "23:00".to_string();
    evening.duration_mins = 120;
    let back = TimeItem::try_from(&evening).unwrap();
    assert_eq!((back.start_time, back.duration), (at(23, 0), 120));
}

#[test]
fn page_changes_suspend_and_resume_the_view() {
    let mut home = home();
    let out = home.update(&Action::SetActivePage(Page::Calendar { day: DAY }));
    assert!(home.is_suspended());
    assert!(out.actions.is_empty() && out.commands.is_empty());
    let other = Day { year: 2026, month: 2, day: 1 };
    let out = home.update(&Action::SetActivePage(Page::Home { day: other }));
    assert!(!home.is_suspended());
    assert_eq!(home.day.month, 2);
    assert!(matches!(&out.commands[..], [Command::LoadTimesheet { day }] if day.month == 2));
    assert_eq!(legend(&out.actions)[0][0], "Arrows");
    let out = home.update(&Action::Tick);
    assert!(out.actions.is_empty() && out.commands.is_empty());
    assert!(!home.is_suspended());
}

#[test]
fn the_day_view_knows_when_it_is_in_order() {
    let mut home = home();
    assert!(home.is_well_formed());
    home.state.table = Selection { row: Some(3), column: None };
    assert!(!home.is_well_formed());
    home.state.table = Selection { row: Some(2), column: Some(5) };
    assert!(!home.is_well_formed());
    home.state.table = Selection { row: Some(2), column: Some(4) };
    assert!(home.is_well_formed());
    home.state.items[1].start_time = 1440;
    assert!(!home.is_well_formed());
    home.state.items[1].start_time = 1439;
    home.state.items[1].duration = 2;
    assert!(home.is_well_formed());
    home.state.items[1].duration = i32::MAX as u32 + 1;
    assert!(!home.is_well_formed());
    home.state.items[1].duration = i32::MAX as u32;
    assert!(home.is_well_formed());
    home.state.items[0].version.saved = i32::MAX;
    assert!(!home.is_well_formed());
    home.state.items[0].version.saved = i32::MAX - 1;
    assert!(home.is_well_formed());
    home.state.items.clear();
    home.state.table = Selection { row: None, column: None };
    assert!(!home.is_well_formed());
    assert!(persist_handling::is_acceptable(&Event::Deleted));
    assert!(persist_handling::is_acceptable(&Event::EntryStored { id: "a".to_string(), version: 7 }));
    assert!(!persist_handling::is_acceptable(&Event::EntryStored { id: "a".to_string(), version: i32::MAX }));
}
