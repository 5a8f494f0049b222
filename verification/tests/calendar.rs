use rusty_calendar::app::{CalendarChange, ClockTime, SyncStatus};
use rusty_calendar::calendar::{
    add_profile, calendar_styles, profile_exists, profile_rows, find_day, group_items_by_date, load_calendar_items, parse_calendar_datetime,
    remote_calendar_id, style_for, sync_targets, CalendarItemStyle, RoundAction, SyncRound, CalendarType, Config, ConfigCalendar, ConfigProfile,
    StoredItemRow,
};
use rusty_calendar::dates::CalDate;
use rusty_calendar::theme::{hex, light_theme};

fn calendar(label: &str, url: &str, color: Option<&str>, pill: Option<bool>) -> ConfigCalendar {
    ConfigCalendar {
        label: label.to_string(),
        account: "me".to_string(),
        cal_type: CalendarType::ICS,
        url: url.to_string(),
        color: color.map(|c| c.to_string()),
        pill,
    }
}

fn config() -> Config {
    Config {
        profile: vec![
            ConfigProfile {
                name: "work".to_string(),
                color: Some("#d20f39".to_string()),
                pill: true,
                calendar: vec![
                    calendar("team", "https://example.com/a.ics", None, None),
                    calendar("rota", "https://example.com/r.ics", Some("#40a02b"), Some(false)),
                ],
            },
            ConfigProfile {
                name: "home".to_string(),
                color: Some("not a color".to_string()),
                pill: false,
                calendar: vec![calendar("family", "https://example.com/b.ics", None, None)],
            },
        ],
    }
}

fn row(id: &str, title: &str, start: &str) -> StoredItemRow {
    StoredItemRow { calendar_id: id.to_string(), title: title.to_string(), start_at: start.to_string() }
}

#[test]
fn calendar_ids_are_url_namespace_uuids() {
    assert_eq!(remote_calendar_id("work", "https://example.com/a.ics"), "6e134a17-4d54-50fb-8417-c754ecdf29e6");
    assert_eq!(remote_calendar_id("home", "https://example.com/b.ics"), "4ff57890-47d6-519c-8117-3f36d72828dd");
}

#[test]
fn calendar_styles_fall_back_from_calendar_to_profile_to_theme() {
    let styles = calendar_styles(&config());
    assert_eq!(styles.len(), 3);
    assert_eq!(styles[0].0, "6e134a17-4d54-50fb-8417-c754ecdf29e6");
    assert_eq!(styles[0].1, CalendarItemStyle { color: hex(0xd20f39), pill: true });
    assert_eq!(styles[1].1, CalendarItemStyle { color: hex(0x40a02b), pill: false });
    assert_eq!(styles[2].1, CalendarItemStyle { color: light_theme().primary, pill: false });
    assert_eq!(style_for(&styles, "4ff57890-47d6-519c-8117-3f36d72828dd"), styles[2].1);
    assert_eq!(style_for(&styles, "unknown"), CalendarItemStyle { color: light_theme().primary, pill: false });
}

#[test]
fn stored_times_parse_with_or_without_fractions() {
    let t = parse_calendar_datetime("2026-07-01 09:30:15").unwrap();
    assert_eq!((t.date.year(), t.date.month(), t.date.day(), t.hour, t.minute, t.second), (2026, 7, 1, 9, 30, 15));
    let f = parse_calendar_datetime("2026-07-01 09:30:15.250").unwrap();
    assert_eq!((f.hour, f.minute, f.second), (9, 30, 15));
    assert!(parse_calendar_datetime("yesterday").is_err());
}

#[test]
fn items_are_grouped_by_start_date_in_date_order() {
    let styles = calendar_styles(&config());
    let id = "6e134a17-4d54-50fb-8417-c754ecdf29e6";
    let rows = vec![
        row(id, "late", "2026-07-03 08:00:00"),
        row("other", "early", "2026-07-01 10:00:00"),
        row(id, "late 2", "2026-07-03 09:00:00"),
    ];
    let days = group_items_by_date(&rows, &styles).unwrap();
    assert_eq!(days.len(), 2);
    assert_eq!(days[0].date.day(), 1);
    assert_eq!(days[0].items.len(), 1);
    assert_eq!(days[0].items[0].title, "early");
    assert_eq!(days[0].items[0].accent, light_theme().primary);
    assert_eq!(days[1].items.iter().map(|i| i.title.as_str()).collect::<Vec<_>>(), vec!["late", "late 2"]);
    assert!(days[1].items[0].pill);
    let found = find_day(&days, &CalDate::from_ymd(2026, 7, 3).unwrap());
    assert_eq!(found, Some(1));
    assert_eq!(find_day(&days, &CalDate::from_ymd(2026, 7, 2).unwrap()), None);
}

#[test]
fn loading_fails_on_a_bad_start_time() {
    let rows = vec![row("x", "ok", "2026-07-01 10:00:00"), row("x", "bad", "soon")];
    assert!(load_calendar_items(&config(), &rows).is_err());
    assert_eq!(load_calendar_items(&config(), &rows[..1]).unwrap().len(), 1);
}

#[test]
fn sync_targets_follow_the_filters() {
    let all = sync_targets(&config(), None, None);
    assert_eq!(all.iter().map(|t| t.label.as_str()).collect::<Vec<_>>(), vec!["team", "rota", "family"]);
    assert_eq!(all[0].calendar_id, "6e134a17-4d54-50fb-8417-c754ecdf29e6");
    let work = sync_targets(&config(), Some("work"), None);
    assert_eq!(work.len(), 2);
    let rota = sync_targets(&config(), Some("work"), Some("rota"));
    assert_eq!(rota.len(), 1);
    assert_eq!(rota[0].url, "https://example.com/r.ics");
    assert!(sync_targets(&config(), Some("nobody"), None).is_empty());
}

#[test]
fn nothing_to_sync_is_reported_as_a_failure() {
    let empty = Config { profile: vec![] };
    let round = SyncRound::new(sync_targets(&empty, None, None), 300);
    match round.start() {
        RoundAction::Finish(SyncStatus::Failed { calendar, error, next_sync_at }) => {
            assert_eq!(calendar, "config");
            assert_eq!(error, "no calendars configured");
            assert_eq!(next_sync_at, 300);
        }
        _ => panic!("expected a failure"),
    }
}

#[test]
fn a_sync_round_walks_the_calendars_and_collects_changes() {
    let mut round = SyncRound::new(sync_targets(&config(), Some("work"), None), 900);
    match round.start() {
        RoundAction::Fetch { index, report: SyncStatus::Syncing { calendar } } => {
            assert_eq!(index, 0);
            assert_eq!(calendar, "team");
        }
        _ => panic!("expected the first calendar"),
    }
    let created = CalendarChange::Created { title: "Dentist".to_string() };
    match round.fetched(Ok(vec![created.clone()]), ClockTime { hour: 8, minute: 30 }) {
        RoundAction::Fetch { index, report: SyncStatus::Syncing { calendar } } => {
            assert_eq!(index, 1);
            assert_eq!(calendar, "rota");
        }
        _ => panic!("expected the second calendar"),
    }
    match round.fetched(Ok(vec![]), ClockTime { hour: 8, minute: 31 }) {
        RoundAction::Finish(SyncStatus::Synced { synced_at, next_sync_at, changes }) => {
            assert_eq!(synced_at, ClockTime { hour: 8, minute: 31 });
            assert_eq!(next_sync_at, 900);
            assert_eq!(changes, vec![created]);
        }
        _ => panic!("expected the end of the round"),
    }
}

#[test]
fn a_failed_calendar_ends_the_round() {
    let mut round = SyncRound::new(sync_targets(&config(), None, None), 60);
    round.start();
    match round.fetched(Err("timeout".to_string()), ClockTime { hour: 0, minute: 0 }) {
        RoundAction::Finish(SyncStatus::Failed { calendar, error, next_sync_at }) => {
            assert_eq!(calendar, "team");
            assert_eq!(error, "timeout");
            assert_eq!(next_sync_at, 60);
        }
        _ => panic!("expected a failure"),
    }
}

#[test]
fn profiles_are_listed_and_added_once() {
    let mut c = config();
    assert!(profile_exists(&c, "work"));
    assert!(!profile_exists(&c, "club"));
    add_profile(&mut c, "club");
    assert!(profile_exists(&c, "club"));
    assert_eq!(c.profile.len(), 3);
    assert!(c.profile[2].calendar.is_empty());
    assert_eq!(
        profile_rows(&c),
        vec![
            vec!["1".to_string(), "work".to_string(), "2".to_string()],
            vec!["2".to_string(), "home".to_string(), "1".to_string()],
            vec!["3".to_string(), "club".to_string(), "0".to_string()],
        ]
    );
}

#[test]
fn calendars_are_listed_with_their_profile() {
    assert_eq!(
        rusty_calendar::calendar::calendar_rows(&config()),
        vec![
            vec!["work".to_string(), "team".to_string(), "https://example.com/a.ics".to_string()],
            vec!["work".to_string(), "rota".to_string(), "https://example.com/r.ics".to_string()],
            vec!["home".to_string(), "family".to_string(), "https://example.com/b.ics".to_string()],
        ]
    );
}
