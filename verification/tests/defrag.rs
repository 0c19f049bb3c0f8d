use sheet_shark::config::{AppConfig, Config, ProjectConfig};
use sheet_shark::persist::model::TimeEntry;
use sheet_shark::shared::defrag::{
    allocate_project_tickets_with_breaks, calculate, collect_project_tickets_in_chronological_order,
    fits_in_counter, parse_breaks, parse_time_to_minutes, Break, ProjectTicket,
};
use sheet_shark::shared::summary::TimesheetSummary;
use sheet_shark::shared::BREAK_PROJECT_KEY;

fn entry(id: &str, start: &str, minutes: i32, project: &str, ticket: Option<&str>) -> TimeEntry {
    TimeEntry {
        id: id.to_string(),
        timesheet_day: "2026-01-08".to_string(),
        start_time: start.to_string(),
        duration_mins: minutes,
        project_key: project.to_string(),
        ticket_key: ticket.map(|t| t.to_string()),
        description: String::new(),
    }
}

fn ticket(project: &str, key: &str, minutes: u32) -> ProjectTicket {
    ProjectTicket { project_key: project.to_string(), ticket_key: key.to_string(), duration_mins: minutes }
}

#[test]
fn test_no_breaks() {
    let config = Config::default();
    let entries = vec![
        TimeEntry {
            id: "1".to_string(),
            timesheet_day: "2026-01-08".to_string(),
            start_time: "09:00".to_string(),
            duration_mins: 120,
            project_key: "PROJECT1".to_string(),
            ticket_key: Some("TICKET-1".to_string()),
            description: String::new(),
        },
        TimeEntry {
            id: "2".to_string(),
            timesheet_day: "2026-01-08".to_string(),
            start_time: "11:00".to_string(),
            duration_mins: 60,
            project_key: "PROJECT2".to_string(),
            ticket_key: Some("TICKET-2".to_string()),
            description: String::new(),
        },
    ];

    let summary = TimesheetSummary::new(entries, &config);
    let result = calculate(&summary);

    assert_eq!(result.len(), 2); // Now we have 2 separate entries

    // Projects should be ordered by first_start time
    // PROJECT1 starts at 09:00, PROJECT2 starts at 11:00
    assert_eq!(result[0].project_key, "PROJECT1");
    assert_eq!(result[0].ticket_key, "TICKET-1");
    assert_eq!(result[0].start_time, "09:00");
    assert_eq!(result[0].end_time, "11:00"); // 120 minutes

    assert_eq!(result[1].project_key, "PROJECT2");
    assert_eq!(result[1].ticket_key, "TICKET-2");
    assert_eq!(result[1].start_time, "11:00");
    assert_eq!(result[1].end_time, "12:00"); // 60 minutes
}

#[test]
fn test_with_break() {
    let config = Config::default();
    let entries = vec![
        TimeEntry {
            id: "1".to_string(),
            timesheet_day: "2026-01-08".to_string(),
            start_time: "09:00".to_string(),
            duration_mins: 120,
            project_key: "PROJECT1".to_string(),
            ticket_key: Some("TICKET-1".to_string()),
            description: String::new(),
        },
        TimeEntry {
            id: "2".to_string(),
            timesheet_day: "2026-01-08".to_string(),
            start_time: "11:00".to_string(),
            duration_mins: 30,
            project_key: BREAK_PROJECT_KEY.to_string(),
            ticket_key: None,
            description: String::new(),
        },
        TimeEntry {
            id: "3".to_string(),
            timesheet_day: "2026-01-08".to_string(),
            start_time: "11:30".to_string(),
            duration_mins: 60,
            project_key: "PROJECT2".to_string(),
            ticket_key: Some("TICKET-2".to_string()),
            description: String::new(),
        },
    ];

    let summary = TimesheetSummary::new(entries, &config);
    let result = calculate(&summary);

    // Should have 2 entries: PROJECT1 before break, PROJECT2 after break
    assert_eq!(result.len(), 2);

    // PROJECT1 starts at 09:00, gets allocated first
    assert_eq!(result[0].project_key, "PROJECT1");
    assert_eq!(result[0].ticket_key, "TICKET-1");
    assert_eq!(result[0].start_time, "09:00");
    assert_eq!(result[0].end_time, "11:00"); // Stops at break

    // PROJECT2 starts at 11:30, gets allocated after the break
    assert_eq!(result[1].project_key, "PROJECT2");
    assert_eq!(result[1].ticket_key, "TICKET-2");
    assert_eq!(result[1].start_time, "11:30"); // Resumes after break
    assert_eq!(result[1].end_time, "12:30"); // 60 minutes
}

#[test]
fn test_break_cuts_allocation() {
    let config = Config::default();
    let entries = vec![
        TimeEntry {
            id: "1".to_string(),
            timesheet_day: "2026-01-08".to_string(),
            start_time: "09:00".to_string(),
            duration_mins: 180, // 3 hours of project work
            project_key: "PROJECT1".to_string(),
            ticket_key: Some("TICKET-1".to_string()),
            description: String::new(),
        },
        TimeEntry {
            id: "2".to_string(),
            timesheet_day: "2026-01-08".to_string(),
            start_time: "10:30".to_string(),
            duration_mins: 30, // 30 min break in the middle
            project_key: BREAK_PROJECT_KEY.to_string(),
            ticket_key: None,
            description: String::new(),
        },
    ];

    let summary = TimesheetSummary::new(entries, &config);
    let result = calculate(&summary);

    assert_eq!(result.len(), 2);
    assert_eq!(result[0].project_key, "PROJECT1");
    assert_eq!(result[0].ticket_key, "TICKET-1");
    assert_eq!(result[0].start_time, "09:00");
    assert_eq!(result[0].end_time, "10:30"); // 90 minutes before break
    assert_eq!(result[1].project_key, "PROJECT1");
    assert_eq!(result[1].ticket_key, "TICKET-1");
    assert_eq!(result[1].start_time, "11:00"); // Resume after break
    assert_eq!(result[1].end_time, "12:30"); // 90 remaining minutes
}

#[test]
fn times_with_a_colon_are_read_as_minutes() {
    assert_eq!(parse_time_to_minutes("09:00"), Some(540));
    assert_eq!(parse_time_to_minutes("9:5"), Some(545));
    assert_eq!(parse_time_to_minutes("+1:+1"), Some(61));
    assert_eq!(parse_time_to_minutes("100:00"), Some(6000));
    assert_eq!(parse_time_to_minutes("0:4294967295"), Some(4294967295));
    assert_eq!(parse_time_to_minutes("1:4294967295"), None);
    assert_eq!(parse_time_to_minutes("0:4294967296"), None);
    assert_eq!(parse_time_to_minutes("09:00:00"), None);
    assert_eq!(parse_time_to_minutes("0900"), None);
    assert_eq!(parse_time_to_minutes(":"), None);
    assert_eq!(parse_time_to_minutes("9:"), None);
    assert_eq!(parse_time_to_minutes(":30"), None);
    assert_eq!(parse_time_to_minutes("a:30"), None);
    assert_eq!(parse_time_to_minutes("-1:30"), None);
    assert_eq!(parse_time_to_minutes(" 9:30"), None);
    assert_eq!(parse_time_to_minutes(""), None);
}

#[test]
fn breaks_have_started_or_not() {
    let b = Break { start_mins: 600, duration_mins: 30 };
    assert!(b.has_started_at(600));
    assert!(b.has_started_at(601));
    assert!(!b.has_started_at(599));
}

#[test]
fn work_goes_around_the_breaks() {
    let result = allocate_project_tickets_with_breaks(
        vec![ticket("A", "a-1", 100), ticket("B", "b-1", 0), ticket("B", "b-2", 50)],
        vec![
            Break { start_mins: 500, duration_mins: 20 },
            Break { start_mins: 540, duration_mins: 15 },
            Break { start_mins: 600, duration_mins: 30 },
            Break { start_mins: 630, duration_mins: 10 },
            Break { start_mins: 1000, duration_mins: 5 },
        ],
        540,
    );
    let flat: Vec<(String, String, String)> =
        result.iter().map(|e| (e.ticket_key.clone(), e.start_time.clone(), e.end_time.clone())).collect();
    // the break at 08:20 and the one at 09:00 have started at 09:00: work starts at 09:35.
    // It stops at 10:00, goes on at 10:40 after both breaks, and a-1 is done at 11:55.
    assert_eq!(
        flat,
        vec![
            ("a-1".to_string(), "09:35".to_string(), "10:00".to_string()),
            ("a-1".to_string(), "10:40".to_string(), "11:55".to_string()),
            ("b-2".to_string(), "11:55".to_string(), "12:45".to_string()),
        ]
    );
    assert_eq!(result[0].project_key, "A");
    assert_eq!(result[2].project_key, "B");
    assert!(allocate_project_tickets_with_breaks(vec![], vec![], 0).is_empty());
}

#[test]
fn a_break_that_starts_where_work_would_end_is_kept_for_later() {
    let result = allocate_project_tickets_with_breaks(
        vec![ticket("A", "a-1", 60), ticket("A", "a-2", 30)],
        vec![Break { start_mins: 600, duration_mins: 30 }],
        540,
    );
    let flat: Vec<(String, String)> = result.iter().map(|e| (e.start_time.clone(), e.end_time.clone())).collect();
    assert_eq!(
        flat,
        vec![("09:00".to_string(), "10:00".to_string()), ("10:30".to_string(), "11:00".to_string())]
    );
}

#[test]
fn the_counter_has_its_limit() {
    let tickets = vec![ticket("A", "a", u32::MAX - 100)];
    assert!(fits_in_counter(&tickets, &vec![Break { start_mins: 5, duration_mins: 40 }], 60));
    assert!(!fits_in_counter(&tickets, &vec![Break { start_mins: 5, duration_mins: 41 }], 60));
    assert!(!fits_in_counter(&vec![ticket("A", "a", u32::MAX), ticket("A", "b", 1)], &vec![], 0));
    assert!(!fits_in_counter(&vec![], &vec![Break { start_mins: 0, duration_mins: u32::MAX }; 2], 0));
    assert!(fits_in_counter(&vec![], &vec![], u32::MAX));
}

#[test]
fn the_summary_counts_tickets_and_breaks() {
    let config = Config {
        config: AppConfig { data_dir: String::new(), config_dir: String::new() },
        projects: vec![
            ("W".to_string(), ProjectConfig { internal_name: "Work".to_string(), jira_url: None }),
            ("W".to_string(), ProjectConfig { internal_name: "Shadowed".to_string(), jira_url: None }),
        ],
        default_project_key: "W".to_string(),
    };
    assert_eq!(config.project("W").unwrap().internal_name, "Work");
    assert!(config.project("w").is_none());
    let entries = vec![
        entry("1", "10:00", 30, "W", Some("T-1")),
        entry("2", "09:00", 45, "V", None),
        entry("3", "10:30", 15, BREAK_PROJECT_KEY, None),
        entry("4", "10:45", 0, "U", Some("T-0")),
        entry("5", "10:45", 20, "W", Some("T-2")),
        entry("6", "08:00", 10, "W", Some("T-1")),
        entry("7", "11:05", -5, "W", Some("T-2")),
        entry("8", "seven", 5, "V", None),
        entry("9", "12:00", 60, BREAK_PROJECT_KEY, None),
    ];
    let summary = TimesheetSummary::new(entries, &config);
    let keys: Vec<&str> = summary.projects.iter().map(|(k, _)| k.as_str()).collect();
    assert_eq!(keys, vec!["W", "V", BREAK_PROJECT_KEY]);
    let w = &summary.projects[0].1;
    assert_eq!(w.ticket_sums, vec![("T-1".to_string(), 40), ("T-2".to_string(), 15)]);
    assert_eq!(w.first_start, Some("08:00".to_string()));
    assert_eq!(w.display_name(), "Work");
    let v = &summary.projects[1].1;
    assert_eq!(v.ticket_sums, vec![("-".to_string(), 50)]);
    assert_eq!(v.first_start, Some("09:00".to_string()));
    assert_eq!(v.display_name(), "\u{2754}");
    assert_eq!(summary.start_time, Some("08:00".to_string()));
    assert_eq!(summary.end_time, Some("13:00".to_string()));
    let breaks: Vec<(&str, u32)> = summary.breaks.iter().map(|b| (b.start_time.as_str(), b.duration_mins)).collect();
    assert_eq!(breaks, vec![("10:30", 15), ("12:00", 60)]);
    assert_eq!(summary.calculate_total_duration(), 105);
    assert_eq!(summary.calculate_break_duration(), 75);

    let tickets = collect_project_tickets_in_chronological_order(&summary);
    let flat: Vec<(&str, &str, u32)> =
        tickets.iter().map(|t| (t.project_key.as_str(), t.ticket_key.as_str(), t.duration_mins)).collect();
    assert_eq!(flat, vec![("W", "T-1", 40), ("W", "T-2", 15), ("V", "-", 50)]);
    let read = parse_breaks(&summary);
    assert_eq!(read.len(), 2);
    assert_eq!((read[0].start_mins, read[0].duration_mins), (630, 15));

    let day = calculate(&summary);
    let flat: Vec<(&str, &str, &str)> =
        day.iter().map(|e| (e.ticket_key.as_str(), e.start_time.as_str(), e.end_time.as_str())).collect();
    assert_eq!(
        flat,
        vec![
            ("T-1", "08:00", "08:40"),
            ("T-2", "08:40", "08:55"),
            ("-", "08:55", "09:45"),
        ]
    );
}

#[test]
fn an_empty_day_has_an_empty_summary() {
    let summary = TimesheetSummary::new(vec![entry("1", "09:00", 0, "W", None)], &Config::default());
    assert!(summary.projects.is_empty());
    assert_eq!(summary.start_time, None);
    assert_eq!(summary.end_time, None);
    assert!(summary.breaks.is_empty());
    assert!(calculate(&summary).is_empty());
    assert_eq!(summary.calculate_total_duration(), 0);
    assert_eq!(summary.calculate_break_duration(), 0);
}

#[test]
fn breaks_are_sorted_by_their_start() {
    let entries = vec![
        entry("1", "12:00", 5, BREAK_PROJECT_KEY, None),
        entry("2", "10:00", 10, BREAK_PROJECT_KEY, Some("first")),
        entry("3", "noon", 15, BREAK_PROJECT_KEY, None),
        entry("4", "10:00", 20, BREAK_PROJECT_KEY, Some("second")),
        entry("5", "09:00", 25, BREAK_PROJECT_KEY, None),
    ];
    let summary = TimesheetSummary::new(entries, &Config::default());
    let read: Vec<(u32, u32)> = parse_breaks(&summary).iter().map(|b| (b.start_mins, b.duration_mins)).collect();
    assert_eq!(read, vec![(540, 25), (600, 10), (600, 20), (720, 5)]);
    // a day of breaks only has nothing to lay out
    assert!(calculate(&summary).is_empty());
}

#[test]
fn written_times_are_read_back() {
    for minutes in (0..3000u32).chain([59_999, 60_000, 1_000_000, u32::MAX]) {
        let text = sheet_shark::clock::minutes_to_string(minutes);
        assert_eq!(parse_time_to_minutes(&text), Some(minutes), "{text}");
    }
}

#[test]
fn stretches_account_for_every_ticket_and_do_not_overlap() {
    let tickets = vec![ticket("A", "A-1", 95), ticket("A", "A-2", 0), ticket("B", "B-7", 240)];
    let breaks = vec![
        Break { start_mins: 8 * 60, duration_mins: 10 },
        Break { start_mins: 10 * 60, duration_mins: 15 },
        Break { start_mins: 12 * 60, duration_mins: 45 },
        Break { start_mins: 23 * 60, duration_mins: 5 },
    ];
    let start = 9 * 60;
    let out = allocate_project_tickets_with_breaks(tickets, breaks, start);
    let mut worked_a1 = 0;
    let mut worked_b7 = 0;
    let mut last_end = start;
    for stretch in &out {
        let from = parse_time_to_minutes(&stretch.start_time).unwrap();
        let to = parse_time_to_minutes(&stretch.end_time).unwrap();
        assert!(last_end <= from && from < to, "{stretch:?}");
        last_end = to;
        match stretch.ticket_key.as_str() {
            "A-1" => worked_a1 += to - from,
            "B-7" => worked_b7 += to - from,
            other => panic!("unexpected {other}"),
        }
    }
    assert_eq!((worked_a1, worked_b7), (95, 240));
    // the day began with a break of ten minutes and passed two more
    assert_eq!(last_end, start + 95 + 240 + 10 + 15 + 45);
    let shape: Vec<(&str, &str)> =
        out.iter().map(|s| (s.start_time.as_str(), s.end_time.as_str())).collect();
    assert_eq!(
        shape,
        vec![("09:10", "10:00"), ("10:15", "11:00"), ("11:00", "12:00"), ("12:45", "15:45")]
    );
}
