use rusty_calendar::dates::{datetime_of_seconds, CalDate};
use rusty_calendar::ics::{ics_components, read_calendar_items, IcsProperty, IcsValue};

const CALENDAR: &str = "BEGIN:VCALENDAR\r\nVERSION:2.0\r\nPRODID:-//test//EN\r\nBEGIN:VEVENT\r\nUID:one@example\r\nSUMMARY:Dentist\r\nDTSTART:20260702T093000\r\nDTEND:20260702T100000\r\nEND:VEVENT\r\nBEGIN:VEVENT\r\nUID:old@example\r\nSUMMARY:Long ago\r\nDTSTART:20100101T080000\r\nEND:VEVENT\r\nBEGIN:VTODO\r\nUID:todo@example\r\nSUMMARY:Chore\r\nEND:VTODO\r\nEND:VCALENDAR\r\n";

#[test]
fn parses_components_with_known_properties() {
    let components = ics_components(CALENDAR);
    // The calendar itself, two events and a to-do.
    assert_eq!(components.len(), 4);
    assert!(!components[0].is_event);
    assert!(components[1].is_event);
    assert!(components[2].is_event);
    assert!(!components[3].is_event);
    let names: Vec<&IcsProperty> = components[1].entries.iter().map(|e| &e.name).collect();
    assert!(names.contains(&&IcsProperty::Uid));
    assert!(names.contains(&&IcsProperty::Summary));
    assert!(names.contains(&&IcsProperty::Dtstart));
    let start = components[1].entries.iter().find(|e| e.name == IcsProperty::Dtstart).unwrap();
    match &start.values[0] {
        IcsValue::DateTime { date_time, has_time, .. } => {
            let t = date_time.unwrap();
            assert!(*has_time);
            assert_eq!((t.date.year(), t.date.month(), t.date.day(), t.hour, t.minute, t.second), (2026, 7, 2, 9, 30, 0));
        }
        other => panic!("not a date-time: {other:?}"),
    }
}

#[test]
fn reads_the_kept_events_from_text() {
    let items = read_calendar_items(CALENDAR, 2025).unwrap();
    assert_eq!(items.len(), 1);
    assert_eq!(items[0].uid, "one@example");
    assert_eq!(items[0].label, "Dentist");
    assert_eq!(items[0].start_at.date, CalDate::from_ymd(2026, 7, 2).unwrap());
    assert_eq!(items[0].start_at.hour, 9);
    assert_eq!(items[0].start_at.minute, 30);
    assert!(items[0].end_at.is_some());
    assert_eq!(read_calendar_items(CALENDAR, 2000).unwrap().len(), 2);
}

#[test]
fn an_event_without_uid_cannot_be_read() {
    let text = "BEGIN:VCALENDAR\r\nBEGIN:VEVENT\r\nSUMMARY:No id\r\nDTSTART:20260702T093000\r\nEND:VEVENT\r\nEND:VCALENDAR\r\n";
    assert!(read_calendar_items(text, 2025).is_none());
}

#[test]
fn seconds_become_local_date_times() {
    let t = datetime_of_seconds(0).unwrap();
    assert_eq!((t.date.year(), t.date.month(), t.date.day(), t.hour), (1970, 1, 1, 0));
    let t = datetime_of_seconds(-1).unwrap();
    assert_eq!((t.date.year(), t.date.month(), t.date.day(), t.hour, t.minute, t.second), (1969, 12, 31, 23, 59, 59));
    let t = datetime_of_seconds(1_782_984_600).unwrap();
    assert_eq!((t.date.year(), t.date.month(), t.date.day(), t.hour, t.minute), (2026, 7, 2, 9, 30));
    assert!(datetime_of_seconds(i64::MAX).is_none());
}
