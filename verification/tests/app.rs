use rusty_calendar::app::{format_changes, format_countdown, AppState, CalendarChange, ClockTime, LayoutAction, SyncStatus};
use rusty_calendar::theme::light_theme;

fn created(t: &str) -> CalendarChange {
    CalendarChange::Created { title: t.to_string() }
}

#[test]
fn changes_are_described_at_most_three() {
    let changes = vec![
        created("a"),
        CalendarChange::Updated { title: "b".to_string() },
        CalendarChange::Removed { title: "c".to_string() },
        created("d"),
    ];
    assert_eq!(format_changes(&changes), "created \"a\", updated \"b\", removed \"c\"");
    assert_eq!(format_changes(&changes[..1]), "created \"a\"");
    assert_eq!(format_changes(&[]), "");
}

#[test]
fn countdown_shows_minutes_and_seconds() {
    assert_eq!(format_countdown(1_000 + 125, 1_000), "02:05");
    assert_eq!(format_countdown(1_000, 2_000), "00:00");
    assert_eq!(format_countdown(10_000, 0), "166:40");
}

#[test]
fn a_new_state_waits_for_the_first_sync() {
    let state = AppState::new();
    let view = state.footer(0);
    assert_eq!(view.status, "next sync pending");
    assert_eq!(view.latest_changes, "no sync changes yet");
    assert_eq!(view.icon, "circle-fill");
    assert_eq!(view.color, light_theme().text);
}

#[test]
fn sync_reports_update_the_footer() {
    let mut state = AppState::new();
    assert!(!state.handle_sync_status(SyncStatus::Syncing { calendar: "work".to_string() }));
    let view = state.footer(0);
    assert_eq!(view.status, "sync in progress");
    assert_eq!(view.icon, "incomplete");
    assert_eq!(view.color, light_theme().success);
    assert_eq!(view.latest_changes, "syncing work");

    let rebuild = state.handle_sync_status(SyncStatus::Synced {
        synced_at: ClockTime { hour: 9, minute: 7 },
        next_sync_at: 600,
        changes: vec![created("Dentist")],
    });
    assert!(rebuild);
    let view = state.footer(540);
    assert_eq!(view.status, "next sync in 01:00");
    assert_eq!(view.latest_changes, "updated 09:07: created \"Dentist\"");

    assert!(!state.handle_sync_status(SyncStatus::Synced {
        synced_at: ClockTime { hour: 10, minute: 0 },
        next_sync_at: 1200,
        changes: vec![],
    }));
    assert_eq!(state.footer(0).latest_changes, "updated 10:00: no changes");
}

#[test]
fn a_failed_sync_stops_the_pending_message() {
    let mut state = AppState::new();
    state.handle_sync_status(SyncStatus::Failed {
        calendar: "config".to_string(),
        error: "no calendars configured".to_string(),
        next_sync_at: 90,
    });
    let view = state.footer(0);
    assert_eq!(view.status, "next sync in 01:30");
    assert_eq!(view.latest_changes, "sync failed config: no calendars configured");
}

#[test]
fn navigation_shifts_and_resets_the_weeks() {
    let mut state = AppState::new();
    assert!(!state.handle_layout_action(None, 5));
    assert!(state.handle_layout_action(Some(LayoutAction::ShiftWeeks(2)), 10));
    assert_eq!(state.week_offset, 2);
    assert_eq!(state.last_navigation_at, Some(10));
    assert!(state.handle_layout_action(Some(LayoutAction::ShiftWeeks(-2)), 20));
    assert_eq!(state.week_offset, 0);
    // Resetting the current weeks changes nothing.
    assert!(!state.handle_layout_action(Some(LayoutAction::ResetWeeks), 30));
    assert_eq!(state.last_navigation_at, Some(20));
    state.handle_layout_action(Some(LayoutAction::ShiftWeeks(4)), 40);
    assert!(state.handle_layout_action(Some(LayoutAction::ResetWeeks), 50));
    assert_eq!(state.week_offset, 0);
    assert_eq!(state.last_navigation_at, None);
}

#[test]
fn idle_screens_return_to_the_current_weeks_after_two_minutes() {
    let mut state = AppState::new();
    state.handle_layout_action(Some(LayoutAction::ShiftWeeks(2)), 100);
    assert!(!state.reset_after_idle(219));
    assert_eq!(state.week_offset, 2);
    assert!(state.reset_after_idle(220));
    assert_eq!(state.week_offset, 0);
    assert_eq!(state.last_navigation_at, None);
    assert!(!state.reset_after_idle(1_000));
}
