use rusty_calendar::app::CalendarChange;
use rusty_calendar::dates::{CalDate, CalDateTime};
use rusty_calendar::ics::{
    datetime_text, diff_items, get_datetime_by_name, get_property_value_by_name, parse_item, select_items, IcsComponent, IcsEntry,
    IcsProperty, IcsValue,
};

fn at(y: i32, m: u32, d: u32, h: u32) -> CalDateTime {
    CalDateTime { date: CalDate::from_ymd(y, m, d).unwrap(), hour: h, minute: 0, second: 0 }
}

fn text(name: IcsProperty, value: &str) -> IcsEntry {
    IcsEntry { name, values: vec![IcsValue::Text(Some(value.to_string()))] }
}

fn when(name: IcsProperty, t: CalDateTime) -> IcsEntry {
    IcsEntry { name, values: vec![IcsValue::DateTime { date_time: Some(t), has_time: true, rfc3339: None }] }
}

fn event(uid: &str, start: Option<CalDateTime>) -> IcsComponent {
    let mut entries = vec![text(IcsProperty::Uid, uid), text(IcsProperty::Summary, "Meeting")];
    if let Some(s) = start {
        entries.push(when(IcsProperty::Dtstart, s));
    }
    IcsComponent { is_event: true, entries }
}

#[test]
fn properties_read_their_first_entry() {
    let mut c = event("u1", Some(at(2026, 7, 1, 9)));
    c.entries.push(text(IcsProperty::Summary, "Second"));
    assert_eq!(get_property_value_by_name(&c, &IcsProperty::Summary), "Meeting");
    assert_eq!(get_property_value_by_name(&c, &IcsProperty::Uid), "u1");
    // An absent description reads as empty.
    assert_eq!(get_property_value_by_name(&c, &IcsProperty::Description), "");
    assert_eq!(get_property_value_by_name(&c, &IcsProperty::Other("X-WR-TIMEZONE".to_string())), "");
}

#[test]
fn date_time_values_read_as_text() {
    let with_rfc = IcsComponent {
        is_event: true,
        entries: vec![IcsEntry {
            name: IcsProperty::Created,
            values: vec![IcsValue::DateTime { date_time: None, has_time: true, rfc3339: Some("2026-07-01T09:00:00Z".to_string()) }],
        }],
    };
    assert_eq!(get_property_value_by_name(&with_rfc, &IcsProperty::Created), "2026-07-01T09:00:00Z");
    let local_time = IcsComponent { is_event: true, entries: vec![when(IcsProperty::Created, at(2026, 7, 1, 9))] };
    assert_eq!(get_property_value_by_name(&local_time, &IcsProperty::Created), "2026-07-01");
    let date_only = IcsComponent {
        is_event: true,
        entries: vec![IcsEntry {
            name: IcsProperty::Created,
            values: vec![IcsValue::DateTime { date_time: Some(at(2026, 7, 1, 0)), has_time: false, rfc3339: None }],
        }],
    };
    assert_eq!(get_property_value_by_name(&date_only, &IcsProperty::Created), "2026-07-01 00:00:00");
    assert_eq!(datetime_text(&at(2026, 12, 31, 23)), "2026-12-31 23:00:00");
}

#[test]
fn items_need_a_start() {
    assert!(parse_item(&event("u", None)).is_none());
    let item = parse_item(&event("u", Some(at(2026, 7, 1, 9)))).unwrap();
    assert_eq!(item.uid, "u");
    assert_eq!(item.label, "Meeting");
    assert_eq!(item.description, "");
    assert_eq!(item.start_at, at(2026, 7, 1, 9));
    assert_eq!(item.end_at, None);
    let c = event("u", Some(at(2026, 7, 1, 9)));
    assert_eq!(get_datetime_by_name(&c, &IcsProperty::Dtstart), Some(at(2026, 7, 1, 9)));
    assert_eq!(get_datetime_by_name(&c, &IcsProperty::Dtend), None);
}

#[test]
fn the_sync_keeps_recent_events_in_file_order() {
    let mut not_event = event("todo", Some(at(2026, 1, 1, 0)));
    not_event.is_event = false;
    let components = vec![
        event("old", Some(at(2024, 12, 31, 9))),
        event("a", Some(at(2025, 1, 1, 9))),
        not_event,
        event("no start", None),
        event("b", Some(at(2026, 5, 5, 5))),
    ];
    let items = select_items(&components, 2025);
    assert_eq!(items.iter().map(|i| i.uid.as_str()).collect::<Vec<_>>(), vec!["a", "b"]);
}

fn synced(uid: &str, label: &str, start: CalDateTime) -> rusty_calendar::ics::SyncedItem {
    rusty_calendar::ics::SyncedItem {
        uid: uid.to_string(),
        label: label.to_string(),
        description: String::new(),
        start_at: start,
        end_at: None,
        created_at: None,
        last_modified: None,
    }
}

fn stored(uid: &str, title: &str, start: &str) -> rusty_calendar::ics::StoredItem {
    rusty_calendar::ics::StoredItem { uid: uid.to_string(), title: title.to_string(), start_at: start.to_string() }
}

#[test]
fn diff_reports_created_updated_and_removed_items() {
    let before = vec![
        stored("a", "Standup", "2026-07-01 09:00:00"),
        stored("b", "Review", "2026-07-01 10:00:00"),
        stored("c", "Gone", "2026-07-01 11:00:00"),
    ];
    let after = vec![
        synced("a", "Standup", at(2026, 7, 1, 9)),
        synced("b", "Review", at(2026, 7, 1, 12)),
        synced("d", "New", at(2026, 7, 2, 9)),
    ];
    assert_eq!(
        diff_items(&before, &after),
        vec![
            CalendarChange::Updated { title: "Review".to_string() },
            CalendarChange::Created { title: "New".to_string() },
            CalendarChange::Removed { title: "Gone".to_string() },
        ]
    );
    assert!(diff_items(&before[..1], &after[..1]).is_empty());
}
