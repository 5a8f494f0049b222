use rusty_calendar::app::{AppState, SyncStatus};
use rusty_calendar::calendar::{CalendarItem, DayItems};
use rusty_calendar::dates::{CalDate, CalDateTime};
use rusty_calendar::layout::{AppLayout, LayoutNode};
use rusty_calendar::node::{NodeIdCounter, NodeKind, NodeName};
use rusty_calendar::screen::{
    apply_sync_footer, build_app_layout, build_layout, render_calendar_item, take_layout_action, take_sync_report,
};
use rusty_calendar::theme::{hex, light_theme, subtle_today_background, Color};

fn date(y: i32, m: u32, d: u32) -> CalDate {
    CalDate::from_ymd(y, m, d).unwrap()
}

fn node<'a>(layout: &'a AppLayout, id: u64) -> &'a LayoutNode {
    layout.nodes.iter().find(|n| n.taffy_id == id).expect("node exists")
}

fn text_in(layout: &AppLayout, id: u64) -> String {
    match &node(layout, id).kind {
        NodeKind::Text(t) => t.content.clone(),
        _ => String::new(),
    }
}

fn item(title: &str, day: CalDate, hour: u32, minute: u32, pill: bool) -> CalendarItem {
    CalendarItem {
        title: title.to_string(),
        start_at: CalDateTime { date: day, hour, minute, second: 0 },
        accent: hex(0x1e66f5),
        pill,
    }
}

#[test]
fn frame_has_header_content_and_footer() {
    let mut layout = AppLayout::new();
    let (header, content, footer) = build_layout(&mut layout, date(2026, 6, 29), 0, "12:00:00", "0.1.0 info");
    assert_eq!(layout.children(layout.root_node), vec![header, content, footer]);
    assert_eq!(node(&layout, header).name, NodeName::Header);
    assert_eq!(node(&layout, content).name, NodeName::Content);
    assert_eq!(node(&layout, footer).name, NodeName::Footer);

    let header_kids = layout.children(header);
    let controls = layout.children(header_kids[0]);
    // No "Today" button on the current weeks.
    assert_eq!(controls.len(), 3);
    assert_eq!(text_in(&layout, controls[0]), "Juni 2026");
    assert_eq!(node(&layout, header_kids[1]).name, NodeName::Clock);
    assert_eq!(text_in(&layout, header_kids[1]), "12:00:00");

    let footer_kids = layout.children(footer);
    assert_eq!(footer_kids.len(), 4);
    assert_eq!(node(&layout, footer_kids[0]).name, NodeName::other("sync-icon"));
    assert_eq!(text_in(&layout, footer_kids[1]), "next sync pending");
    assert_eq!(text_in(&layout, footer_kids[2]), "no sync changes yet");
    assert_eq!(text_in(&layout, footer_kids[3]), "0.1.0 info");
}

#[test]
fn other_weeks_get_a_today_button() {
    let mut layout = AppLayout::new();
    let (header, _, _) = build_layout(&mut layout, date(2026, 7, 13), 2, "", "");
    let controls = layout.children(layout.children(header)[0]);
    assert_eq!(controls.len(), 4);
    let today = controls[3];
    assert_eq!(node(&layout, today).events.on_click, Some(rusty_calendar::app::LayoutAction::ResetWeeks));
    assert_eq!(text_in(&layout, layout.children(today)[0]), "Today");
    assert!(layout.click(controls[1]));
    assert_eq!(layout.take_action(), Some(rusty_calendar::app::LayoutAction::ShiftWeeks(-2)));
}

#[test]
fn calendar_grid_shows_weeks_dates_and_items() {
    let today = date(2026, 7, 2);
    let days = vec![DayItems {
        date: today,
        items: vec![item("Standup", today, 9, 5, false), item("Lunch", today, 12, 30, true)],
    }];
    let layout = build_app_layout(0, &today, &days, "09:00:00", "v");
    let top = layout.children(layout.root_node);
    assert_eq!(top.len(), 3);
    let content = layout.children(top[1]);
    assert_eq!(content.len(), 2);

    let weekdays = layout.children(content[0]);
    assert_eq!(weekdays.iter().map(|k| text_in(&layout, *k)).collect::<Vec<_>>(), vec!["", "Ma", "Di", "Wo", "Do", "Vr", "Za", "Zo"]);

    let cells = layout.children(content[1]);
    assert_eq!(cells.len(), 32);
    assert_eq!(node(&layout, cells[9]).name, NodeName::GridItem("GRID[calendar][9]".to_string()));
    // Cells of the first column have no left border; the others do.
    assert_eq!(node(&layout, cells[8]).style.layout.border.left, 0);
    assert_eq!(node(&layout, cells[9]).style.layout.border.left, 1);
    assert_eq!(node(&layout, cells[9]).style.layout.border.bottom, 1);
    assert_eq!(node(&layout, cells[9]).style.border_color, Some(light_theme().border));
    // Rows take the week numbers from the last shown week back to the first.
    let week_of_row = |row: usize| text_in(&layout, layout.children(cells[row * 8])[0]);
    assert_eq!(week_of_row(0), "30");
    assert_eq!(week_of_row(3), "27");
    // Monday 29 June opens the first row; Thursday 2 July is today.
    let first_date = layout.children(cells[1])[0];
    assert_eq!(node(&layout, first_date).name, NodeName::other("calendar-cell_2026-06-29"));
    assert_eq!(text_in(&layout, layout.children(first_date)[0]), "29");
    let today_cell = cells[4];
    assert_eq!(node(&layout, today_cell).style.background_color, Some(subtle_today_background()));
    assert_eq!(node(&layout, cells[3]).style.background_color, None);
    let today_kids = layout.children(today_cell);
    assert_eq!(today_kids.len(), 3);
    let standup = layout.children(today_kids[1]);
    assert_eq!(text_in(&layout, standup[0]), "09:05");
    assert_eq!(text_in(&layout, standup[1]), "Standup");
    assert_eq!(text_in(&layout, today_kids[2]), "12:30  Lunch");
}

#[test]
fn items_render_as_rows_or_pills() {
    let mut ids = NodeIdCounter::new();
    let day = date(2026, 1, 1);
    let row = render_calendar_item(&item("Call", day, 7, 0, false), &mut ids);
    assert_eq!(row.children.len(), 2);
    assert_eq!(row.children[0].style.text_color, hex(0x1e66f5));
    assert_eq!(row.children[1].style.text_color, light_theme().text);
    let pill = render_calendar_item(&item("Gym", day, 18, 45, true), &mut ids);
    assert!(pill.children.is_empty());
    assert_eq!(pill.style.background_color, Some(hex(0x1e66f5)));
    assert_eq!(pill.style.text_color, Color::from_rgba8(255, 255, 255, 255));
    match &pill.kind {
        NodeKind::Text(t) => {
            assert_eq!(t.content, "18:45  Gym");
            assert!(t.is_pill && t.ellipsis);
        }
        _ => panic!("a pill item is text"),
    }
}

#[test]
fn footer_view_reaches_the_footer_nodes() {
    let mut layout = AppLayout::new();
    let (_, _, footer) = build_layout(&mut layout, date(2026, 6, 29), 0, "", "");
    let mut state = AppState::new();
    state.handle_sync_status(SyncStatus::Syncing { calendar: "work".to_string() });
    apply_sync_footer(&mut layout, &state.footer(0));
    let kids = layout.children(footer);
    assert_eq!(node(&layout, kids[0]).kind, NodeKind::Icon("incomplete".to_string()));
    assert_eq!(node(&layout, kids[0]).style.text_color, light_theme().success);
    assert_eq!(text_in(&layout, kids[1]), "sync in progress");
    assert_eq!(text_in(&layout, kids[2]), "syncing work");
}

#[test]
fn a_failed_sync_report_shows_in_the_footer() {
    let mut layout = AppLayout::new();
    let (_, _, footer) = build_layout(&mut layout, date(2026, 6, 29), 0, "12:00:00", "0.1.0 info");
    let mut state = AppState::new();
    let status = SyncStatus::Failed { calendar: "config".to_string(), error: "no calendars configured".to_string(), next_sync_at: 1_000 + 15 * 60 };
    let rebuild = take_sync_report(&mut state, &mut layout, status, 1_000);
    assert!(!rebuild);
    let footer_kids = layout.children(footer);
    assert!(text_in(&layout, footer_kids[1]).starts_with("next sync in "));
    assert_eq!(text_in(&layout, footer_kids[2]), "sync failed config: no calendars configured");
}

#[test]
fn a_queued_navigation_is_taken_once() {
    let mut layout = AppLayout::new();
    let (header, _, _) = build_layout(&mut layout, date(2026, 6, 29), 0, "12:00:00", "0.1.0 info");
    let controls = layout.children(layout.children(header)[0]);
    assert!(layout.click(controls[2]));
    let mut state = AppState::new();
    assert!(take_layout_action(&mut state, &mut layout, 50));
    assert_eq!(state.week_offset, 2);
    assert_eq!(state.last_navigation_at, Some(50));
    assert!(layout.pending_action.is_none());
    assert!(!take_layout_action(&mut state, &mut layout, 60));
    assert_eq!(state.week_offset, 2);
}
