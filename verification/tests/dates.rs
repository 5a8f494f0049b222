use chrono::{Datelike, Local};
use rusty_calendar::dates::{
    date_text, dutch_month_name, get_dates, get_weekdays, get_weeknumbers, header_month_label, time_text,
    visible_start_for_offset, CalDate, CalDateTime,
};

fn date(y: i32, m: u32, d: u32) -> CalDate {
    CalDate::from_ymd(y, m, d).unwrap()
}

fn today() -> CalDate {
    let now = Local::now().date_naive();
    date(now.year(), now.month(), now.day())
}

#[test]
fn visible_start_moves_by_whole_weeks() {
    let today = today();
    let start = visible_start_for_offset(today, 0);

    assert_eq!(start.num_days_from_monday(), 0);
    assert!(start.days_since(&today) <= 0);
    assert_eq!(visible_start_for_offset(today, 2).days_since(&start), 14);
    assert_eq!(start.days_since(&visible_start_for_offset(today, -2)), 14);
}

#[test]
fn header_month_label_uses_dutch_name() {
    let date = date(2026, 7, 1);

    assert_eq!(header_month_label(date), "Juli 2026");
}

#[test]
fn visible_start_is_the_monday_of_the_week() {
    // Thursday 2 July 2026 lies in the week of Monday 29 June.
    let start = visible_start_for_offset(date(2026, 7, 2), 0);
    assert_eq!((start.year(), start.month(), start.day()), (2026, 6, 29));
    let back = visible_start_for_offset(date(2026, 7, 2), -1);
    assert_eq!((back.year(), back.month(), back.day()), (2026, 6, 22));
    // A Monday is its own start.
    let monday = visible_start_for_offset(date(2026, 6, 29), 0);
    assert_eq!(monday.days_since(&date(2026, 6, 29)), 0);
}

#[test]
fn header_labels_capitalize_every_month() {
    assert_eq!(header_month_label(date(2026, 1, 5)), "Januari 2026");
    assert_eq!(header_month_label(date(2025, 3, 31)), "Maart 2025");
    assert_eq!(header_month_label(date(2024, 12, 1)), "December 2024");
    assert_eq!(dutch_month_name(5), "mei");
    assert_eq!(dutch_month_name(8), "augustus");
}

#[test]
fn from_ymd_rejects_impossible_dates() {
    assert!(CalDate::from_ymd(2023, 2, 29).is_none());
    assert!(CalDate::from_ymd(2024, 2, 29).is_some());
    assert!(CalDate::from_ymd(2024, 13, 1).is_none());
    assert!(CalDate::from_ymd(2024, 4, 31).is_none());
}

#[test]
fn get_dates_lists_consecutive_days() {
    let dates = get_dates(date(2024, 2, 27), 4);
    let shown: Vec<(u32, u32)> = dates.iter().map(|d| (d.month(), d.day())).collect();
    assert_eq!(shown, vec![(2, 27), (2, 28), (2, 29), (3, 1)]);
    assert_eq!(get_dates(date(2024, 2, 27), 0).len(), 1);
}

#[test]
fn get_weeknumbers_counts_iso_weeks() {
    assert_eq!(get_weeknumbers(date(2024, 12, 23), 3), vec![52, 1, 2]);
    assert_eq!(get_weeknumbers(date(2026, 6, 29), 4), vec![27, 28, 29, 30]);
    assert_eq!(get_weeknumbers(date(2026, 6, 29), 0), Vec::<u32>::new());
}

#[test]
fn weekday_headers_start_with_an_empty_column() {
    assert_eq!(get_weekdays(), vec!["", "Ma", "Di", "Wo", "Do", "Vr", "Za", "Zo"]);
}

#[test]
fn dates_and_times_format_with_leading_zeros() {
    assert_eq!(date_text(&date(2026, 7, 1)), "2026-07-01");
    assert_eq!(date_text(&date(987, 11, 30)), "0987-11-30");
    assert_eq!(date_text(&date(-44, 3, 15)), "-0044-03-15");
    assert_eq!(date_text(&date(12345, 1, 2)), "+12345-01-02");
    let t = CalDateTime { date: date(2026, 7, 1), hour: 9, minute: 5, second: 0 };
    assert_eq!(time_text(&t), "09:05");
}
