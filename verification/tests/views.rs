use sheet_shark::action::{Action, RelevantKey};
use sheet_shark::components::calendar::export::jira::{
    export_project_tickets, export_to_jira, format_booking_url, format_date, get_start_time,
};
use sheet_shark::persist::model::TimeEntry;
use sheet_shark::components::calendar::widgets::{
    can_be_totalled, create_data_rows, create_total_line, format_duration_display,
    format_project_display, format_ticket_display,
};
use sheet_shark::shared::summary::{can_be_summed, TimesheetSummary};
use sheet_shark::shared::Day;
use sheet_shark::components::home::editing::mode::EditMode;
use sheet_shark::components::home::editing::shared::BufEditBehavior;
use sheet_shark::components::home::editing::duration::Duration;
use sheet_shark::components::home::editing::time::Time;
use sheet_shark::components::home::export::{
    csv_header, csv_record, csv_records, get_project_key, json_entries, json_projects, ProjectKind,
};
use sheet_shark::config::{AppConfig, Config, ProjectConfig};
use sheet_shark::components::home::state::{HomeState, Selection, TimeItem};
use sheet_shark::components::statusbar::StatusBar;
use sheet_shark::layout::LayoutSlot;
use sheet_shark::shared::DataVersion;

fn item(start: u32, duration: u32, project: &str, ticket: &str, description: &str) -> TimeItem {
    TimeItem {
        id: "a".to_string(),
        start_time: start,
        project: project.to_string(),
        ticket: ticket.to_string(),
        description: description.to_string(),
        duration,
        version: DataVersion::fresh(),
    }
}

#[test]
fn cells_show_the_row() {
    let cells = item(8 * 60 + 40, 90, "P", "T-1", "words").as_cells();
    assert_eq!(cells, ["08:40", "P", "T-1", "words", "1h 30m"].map(String::from));
    let cells = item(0, 0, "", "", "").as_cells();
    assert_eq!(cells, ["00:00", "", "", "", ""].map(String::from));
    let cells = item(60, 1440 - 60, "", "", "").as_cells();
    assert_eq!(cells[4], "23h");
    let cells = item(60, 5, "", "", "").as_cells();
    assert_eq!(cells[4], "5m");
}

#[test]
fn the_open_editor_shows_what_is_typed() {
    let it = item(8 * 60 + 40, 90, "P", "T-1", "words");
    let mut state = HomeState::default();
    state.items = vec![item(8 * 60 + 40, 90, "P", "T-1", "words")];
    state.table = Selection { row: Some(0), column: Some(0) };
    let cells = EditMode::of_time().style_selected_item(&it);
    assert_eq!(cells, ["0840", "P", "T-1", "words", "1h 30m"].map(String::from));
    let cells = EditMode::Time(Time { buf: BufEditBehavior::new("09") }).style_selected_item(&it);
    assert_eq!(cells[0], "09");
    let cells = EditMode::of_duration().style_selected_item(&it);
    assert_eq!(cells, ["08:40", "P", "T-1", "words", "..."].map(String::from));
    let cells = EditMode::Duration(Duration { buf: BufEditBehavior::new("2h") }).style_selected_item(&it);
    assert_eq!(cells[4], "2h");
    let mut mode = EditMode::of_description(&state);
    if let EditMode::Description(d) = &mut mode {
        d.buf.push('!');
    }
    assert_eq!(mode.style_selected_item(&it)[3], "words!");
    assert_eq!(EditMode::of_project(&state).style_selected_item(&it)[1], "P");
    assert_eq!(EditMode::of_ticket(&state).style_selected_item(&it)[2], "T-1");
}

#[test]
fn the_status_bar_takes_lines_and_legends() {
    let mut bar = StatusBar::default();
    assert_eq!(bar.status_line, "Hello, world!");
    let keys: Vec<(&str, &str)> = bar.keys.iter().map(|k| (k.key.as_str(), k.text.as_str())).collect();
    assert_eq!(keys, vec![("q", "Quit"), ("Space", "Edit cell")]);
    bar.update(Action::SetStatusLine("saved".to_string()));
    assert_eq!(bar.status_line, "saved");
    assert_eq!(bar.keys.len(), 2);
    bar.update(Action::SetRelevantKeys(vec![RelevantKey::new("x", "Exit")]));
    assert_eq!(bar.keys.len(), 1);
    assert_eq!(bar.keys[0].key, "x");
    assert_eq!(bar.keys[0].clone().text, "Exit");
    bar.update(Action::Tick);
    bar.update(Action::Quit);
    assert_eq!(bar.status_line, "saved");
}

#[test]
fn slots_have_their_places() {
    assert_eq!(LayoutSlot::MainCanvas.index(), 0);
    assert_eq!(LayoutSlot::StatusBar.index(), 1);
}

#[test]
fn booking_addresses_are_put_together() {
    assert_eq!(
        format_booking_url("https://jira.example.com/", "SCRUM-17", 90, "08.01.26", "09:00"),
        "https://jira.example.com/browse/SCRUM-17?xxLogTime=90m&xxLogDate=08.01.26%2009:00"
    );
    assert_eq!(
        format_booking_url("https://jira.example.com///", "T", 0, "d", "t"),
        "https://jira.example.com/browse/T?xxLogTime=0m&xxLogDate=d%20t"
    );
    assert_eq!(format_booking_url("/", "T", -5, "", ""), "/browse/T?xxLogTime=-5m&xxLogDate=%20");
    assert_eq!(
        format_booking_url("x", "T", i64::MIN, "", ""),
        "x/browse/T?xxLogTime=-9223372036854775808m&xxLogDate=%20"
    );
}

#[test]
fn blocks_become_rows_of_a_sheet() {
    assert_eq!(
        csv_header().join(","),
        ",start,,,,end,,,,proj,tracking code,,,duration,min,h"
    );
    assert_eq!(get_project_key("", "TEST-PROJECT"), "TEST-PROJECT");
    assert_eq!(get_project_key("P", "TEST-PROJECT"), "P");
    let record = csv_record(&item(8 * 60 + 40, 20, "PROJECT-1", "TICKET-123", "test description"), "D").unwrap();
    assert_eq!(
        record.cells,
        [
            "", "8", "40", "08:40:00", "", "9", "0", "09:00:00", "", "PROJECT-1", "TICKET-123", "",
            "test description", "00:20:00", "20"
        ]
        .map(String::from)
    );
    assert_eq!(record.duration_secs, 1200);
    assert!(csv_record(&item(9 * 60, 0, "", "EMPTY-1", "should be skipped"), "D").is_none());
    let record = csv_record(&item(12 * 60 + 5, 50, "x", "", "lunch break"), "D").unwrap();
    assert_eq!(record.cells[9], "Pause");
    let record = csv_record(&item(23 * 60, 60, "", "", ""), "x").unwrap();
    assert_eq!(record.cells[5..10], ["0", "0", "00:00:00", "", "Pause"].map(String::from));
    let records = csv_records(
        &vec![
            item(8 * 60 + 40, 20, "", "SCRUM-17", "real work"),
            item(9 * 60, 0, "", "EMPTY-1", "should be skipped"),
            item(9 * 60, 15, "", "SCRUM-17", "more work"),
        ],
        "TEST-PROJECT",
    );
    assert_eq!(records.len(), 2);
    assert_eq!(records[0].cells[9], "TEST-PROJECT");
    assert_eq!(records[1].cells[12], "more work");
    assert_eq!(records[1].cells[13], "00:15:00");
}

#[test]
fn blocks_become_entries_of_an_export() {
    let config = Config {
        config: AppConfig { data_dir: String::new(), config_dir: String::new() },
        projects: vec![
            ("TEST-PROJECT".to_string(), ProjectConfig { internal_name: "Test Project".to_string(), jira_url: Some("https://test.atlassian.net".to_string()) }),
            ("W".to_string(), ProjectConfig { internal_name: "Work Project".to_string(), jira_url: None }),
            ("x".to_string(), ProjectConfig { internal_name: "Break".to_string(), jira_url: None }),
        ],
        default_project_key: "TEST-PROJECT".to_string(),
    };
    let items = vec![
        item(8 * 60 + 40, 20, "", "SCRUM-17", "post vacation catchup"),
        item(9 * 60, 0, "U", "EMPTY-1", "should be skipped"),
        item(9 * 60, 15, "W", "TICKET-123", "work task"),
        item(9 * 60 + 15, 5, "Z", "", ""),
        item(12 * 60 + 5, 50, "x", "", "lunch break"),
        item(23 * 60, 60, "W", "", ""),
    ];
    let entries = json_entries(&items, &config.default_project_key);
    assert_eq!(entries.len(), 5);
    assert_eq!(entries[0].start, "08:40");
    assert_eq!(entries[0].end, "09:00");
    assert_eq!(entries[0].project_key, "TEST-PROJECT");
    assert_eq!(entries[0].ticket, Some("SCRUM-17".to_string()));
    assert_eq!(entries[0].duration_mins, 20);
    assert_eq!(entries[0].description, "post vacation catchup");
    assert_eq!(entries[1].start, "09:00");
    assert_eq!(entries[1].end, "09:15");
    assert_eq!(entries[1].project_key, "W");
    assert_eq!(entries[2].ticket, None);
    assert_eq!(entries[3].project_key, "x");
    assert_eq!(entries[4].end, "00:00");
    let projects = json_projects(&items, &config.default_project_key, &config);
    let flat: Vec<(&str, &str)> = projects.iter().map(|p| (p.key.as_str(), p.internal_name.as_str())).collect();
    assert_eq!(flat, vec![("TEST-PROJECT", "Test Project"), ("W", "Work Project"), ("Z", "Z"), ("x", "Break")]);
    assert!(matches!(projects[0].kind, ProjectKind::Configured));
    assert!(matches!(projects[2].kind, ProjectKind::AdHoc));
    assert!(matches!(projects[3].kind, ProjectKind::SpecialBreak));
}

#[test]
fn the_selected_row_is_handed_out() {
    let mut state = HomeState::default();
    state.items = vec![item(60, 30, "", "", "first"), item(90, 0, "", "", "second")];
    assert!(state.maybe_selected_item().is_none());
    state.table = Selection { row: Some(1), column: None };
    assert_eq!(state.expect_selected_item().description, "second");
    assert_eq!(state.maybe_selected_item().unwrap().description, "second");
    assert!(state.is_last_row_selected());
    assert!(!state.is_last_column_selected());
    state.ensure_column_selected();
    assert_eq!(state.table.column, Some(0));
    state.table = Selection { row: Some(7), column: Some(4) };
    assert!(state.maybe_selected_item().is_none());
    assert!(state.is_last_column_selected());
    state.table = Selection { row: None, column: Some(4) };
    state.items[0].version = DataVersion::loaded();
    state.expect_selected_item_mut().description = "changed".to_string();
    assert_eq!(state.items[0].description, "changed");
    assert_eq!(state.items[0].version.local, 2);
    state.ensure_row_selected();
    assert_eq!(state.table.row, Some(0));
    state.expect_selected_item_mut().ticket = "T".to_string();
    assert_eq!(state.items[0].ticket, "T");
    assert_eq!(state.items[0].version.local, 2);
    assert_eq!(state.items[1].version.local, 1);
}

fn stored(start: &str, minutes: i32, project: &str, ticket: Option<&str>) -> TimeEntry {
    TimeEntry {
        id: "1".to_string(),
        timesheet_day: "2026-01-08".to_string(),
        start_time: start.to_string(),
        duration_mins: minutes,
        project_key: project.to_string(),
        ticket_key: ticket.map(|t| t.to_string()),
        description: String::new(),
    }
}

#[test]
fn a_days_work_is_booked_ticket_by_ticket() {
    let config = Config {
        config: AppConfig { data_dir: String::new(), config_dir: String::new() },
        projects: vec![
            ("W".to_string(), ProjectConfig { internal_name: "Work".to_string(), jira_url: Some("https://w.example/".to_string()) }),
            ("V".to_string(), ProjectConfig { internal_name: "Void".to_string(), jira_url: None }),
            ("x".to_string(), ProjectConfig { internal_name: "Break".to_string(), jira_url: Some("https://x.example".to_string()) }),
        ],
        default_project_key: "W".to_string(),
    };
    let summary = TimesheetSummary::new(
        vec![
            stored("09:30", 30, "W", Some("W-1")),
            stored("10:00", 15, "W", None),
            stored("10:15", 20, "V", Some("V-1")),
            stored("10:35", 10, "x", Some("X-1")),
            stored("10:45", 5, "U", Some("U-1")),
            stored("10:50", 25, "W", Some("W-2")),
            stored("11:15", -25, "W", Some("W-2")),
            stored("11:15", 45, "W", Some("W-1")),
        ],
        &config,
    );
    let day = Day { year: 2026, month: 1, day: 8 };
    assert_eq!(format_date(day), "08.01.26");
    assert_eq!(format_date(Day { year: 1999, month: 12, day: 31 }), "31.12.99");
    assert_eq!(format_date(Day { year: 2000, month: 2, day: 29 }), "29.02.00");
    assert_eq!(format_date(Day { year: -1, month: 1, day: 1 }), "01.01.99");
    assert_eq!(get_start_time(&summary), "09:30");
    assert_eq!(
        export_to_jira(day, &summary),
        vec!["https://w.example/browse/W-1?xxLogTime=75m&xxLogDate=08.01.26%2009:30".to_string()]
    );
    assert_eq!(
        export_project_tickets(&summary.projects[2].1, "d", "t"),
        vec!["https://x.example/browse/X-1?xxLogTime=10m&xxLogDate=d%20t".to_string()]
    );
    assert!(export_project_tickets(&summary.projects[1].1, "d", "t").is_empty());
    assert!(export_project_tickets(&summary.projects[3].1, "d", "t").is_empty());
    let empty = TimesheetSummary::new(vec![], &config);
    assert_eq!(get_start_time(&empty), "09:00");
    assert!(export_to_jira(day, &empty).is_empty());
}

#[test]
fn the_summary_panel_shows_rows_and_totals() {
    assert_eq!(format_duration_display(0), "-");
    assert_eq!(format_duration_display(5), "5m");
    assert_eq!(format_duration_display(59), "59m");
    assert_eq!(format_duration_display(60), "1h");
    assert_eq!(format_duration_display(65), "1h 05m");
    assert_eq!(format_duration_display(1439), "23h 59m");
    assert_eq!(format_duration_display(6000), "100h");
    assert_eq!(format_duration_display(-5), "-5m");
    assert_eq!(format_duration_display(-60), "-1h");
    assert_eq!(format_duration_display(-65), "-1h -5m");
    assert_eq!(format_duration_display(-75), "-1h -15m");
    assert_eq!(format_duration_display(i64::MIN), "-153722867280912930h -8m");
    let config = Config {
        config: AppConfig { data_dir: String::new(), config_dir: String::new() },
        projects: vec![
            ("W".to_string(), ProjectConfig { internal_name: "Work".to_string(), jira_url: Some("https://w.example/".to_string()) }),
            ("V".to_string(), ProjectConfig { internal_name: "Void".to_string(), jira_url: None }),
        ],
        default_project_key: "W".to_string(),
    };
    let summary = TimesheetSummary::new(
        vec![
            stored("09:30", 30, "W", Some("W-1")),
            stored("10:00", 15, "W", None),
            stored("10:15", 20, "V", None),
            stored("10:35", 10, "x", None),
            stored("10:45", 65, "U", Some("U-1")),
        ],
        &config,
    );
    let rows: Vec<(String, String, String)> =
        create_data_rows(&summary).into_iter().map(|r| (r.project, r.ticket, r.duration)).collect();
    assert_eq!(
        rows,
        vec![
            ("Work (W) ".to_string(), "W-1".to_string(), "30m".to_string()),
            ("Work (W) ".to_string(), "\u{203c}\u{fe0f} no ticket \u{203c}\u{fe0f}".to_string(), "15m".to_string()),
            ("Void (V) ".to_string(), "-".to_string(), "20m".to_string()),
            ("\u{2754} (U) ".to_string(), "U-1".to_string(), "1h 05m".to_string()),
        ]
    );
    assert_eq!(format_project_display("x", &summary.projects[2].1), "\u{1f3d6}\u{fe0f} Break");
    assert_eq!(format_ticket_display("T", &summary.projects[0].1), "T");
    assert!(can_be_totalled(&summary));
    assert_eq!(create_total_line(&summary), "09:30 - 11:50 | Working time: 2h 10m | Break: 10m");
    let empty = TimesheetSummary::new(vec![], &config);
    assert_eq!(create_total_line(&empty), "Working time: - | Break: -");
    assert!(can_be_summed(&vec![stored("09:30", i32::MAX, "W", None), stored("09:30", i32::MIN, "W", None)]));
}
