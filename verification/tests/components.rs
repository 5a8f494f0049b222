use rusty_calendar::builder::Builder;
use rusty_calendar::components::{button, div, grid, grid_item, icon, pill, text, ButtonContent, IconPosition};
use rusty_calendar::node::{EventCaps, NodeIdCounter, NodeKind, NodeName};
use rusty_calendar::style::{AlignItems, Dimension, Display, Edges, FlexDirection, Track};
use rusty_calendar::theme::light_theme;

fn text_of(b: &Builder) -> String {
    match &b.kind {
        NodeKind::Text(t) => t.content.clone(),
        _ => panic!("not a text builder"),
    }
}

#[test]
fn text_starts_without_events() {
    assert_eq!(text("hello").events.caps, EventCaps::empty());
}

#[test]
fn text_holds_its_content() {
    let t = text("hello");
    assert_eq!(text_of(&t), "hello");
    assert!(t.name.is_none());
    assert!(t.children.is_empty());
}

#[test]
fn div_is_full_width() {
    let d = div();
    assert_eq!(d.style.layout.width, Dimension::Percent(100));
    assert_eq!(d.kind, NodeKind::Container);
    assert_eq!(d.events.caps, EventCaps::all());
}

#[test]
fn icons_get_numbered_names_without_svg() {
    let mut ids = NodeIdCounter::new();
    let a = icon("arrow.svg", &mut ids);
    let b = icon("arrow.svg", &mut ids);
    assert_eq!(a.name, Some(NodeName::Icon("arrow_0".to_string())));
    assert_eq!(b.name, Some(NodeName::Icon("arrow_1".to_string())));
    assert_eq!(a.kind, NodeKind::Icon("arrow.svg".to_string()));
}

#[test]
fn grid_items_are_numbered_padded_columns() {
    let mut ids = NodeIdCounter::new();
    let _ = icon("x", &mut ids);
    let cell = grid_item("cell", &mut ids);
    assert_eq!(cell.name, Some(NodeName::GridItem("cell-1".to_string())));
    assert_eq!(cell.kind, NodeKind::GridItem);
    assert_eq!(cell.style.layout.border, Edges { top: 0, right: 0, bottom: 1, left: 0 });
    assert_eq!(cell.style.layout.padding, Edges { top: 4, right: 4, bottom: 4, left: 4 });
    assert_eq!(cell.style.layout.display, Display::Flex);
    assert_eq!(cell.style.layout.flex_direction, FlexDirection::Column);
    assert_eq!(cell.style.layout.max_width, Dimension::Percent(100));
    assert_eq!(cell.style.layout.min_width, Dimension::Length(0));
    assert_eq!(cell.style.layout.align_items, Some(AlignItems::FlexStart));
}

#[test]
fn pills_react_to_everything_and_round_their_corners() {
    let mut ids = NodeIdCounter::new();
    let p = pill("09:00  Standup", &mut ids);
    assert_eq!(p.name, Some(NodeName::Pill(0)));
    assert_eq!(p.events.caps, EventCaps::all());
    assert_eq!(p.style.border_radius, 12);
    assert_eq!(p.style.background_color, Some(light_theme().surface_raised));
    match &p.kind {
        NodeKind::Text(t) => {
            assert!(t.is_pill);
            assert!(!t.ellipsis);
            assert_eq!(t.content, "09:00  Standup");
        }
        _ => panic!("a pill is text"),
    }
}

#[test]
fn icon_buttons_are_square() {
    let mut ids = NodeIdCounter::new();
    let b = button(ButtonContent::Icon("16/chevron--left".to_string()), &mut ids);
    assert_eq!(b.events.caps, EventCaps::click());
    assert_eq!(b.style.layout.width, Dimension::Length(36));
    assert_eq!(b.style.layout.height, Dimension::Length(36));
    assert_eq!(b.style.border_radius, 999);
    assert_eq!(b.children.len(), 1);
    assert_eq!(b.children[0].kind, NodeKind::Icon("16/chevron--left".to_string()));
    assert_eq!(b.children[0].style.layout.width, Dimension::Length(16));
}

#[test]
fn text_buttons_are_padded() {
    let mut ids = NodeIdCounter::new();
    let b = button(ButtonContent::Text("Today".to_string()), &mut ids);
    assert_eq!(b.style.layout.padding, Edges { top: 8, right: 12, bottom: 8, left: 12 });
    assert_eq!(b.style.layout.width, Dimension::Auto);
    assert_eq!(b.children.len(), 1);
    assert_eq!(text_of(&b.children[0]), "Today");
}

#[test]
fn icon_text_buttons_order_their_parts() {
    let mut ids = NodeIdCounter::new();
    let before = button(
        ButtonContent::IconText { icon: "add".to_string(), text: "New".to_string(), icon_position: IconPosition::Before },
        &mut ids,
    );
    assert!(matches!(before.children[0].kind, NodeKind::Icon(_)));
    assert_eq!(text_of(&before.children[1]), "New");
    assert_eq!(before.children[1].style.layout.padding.left, 4);
    let after = button(
        ButtonContent::IconText { icon: "add".to_string(), text: "New".to_string(), icon_position: IconPosition::After },
        &mut ids,
    );
    assert_eq!(text_of(&after.children[0]), "New");
    assert!(matches!(after.children[1].kind, NodeKind::Icon(_)));
}

#[test]
fn grids_get_one_track_per_column_and_a_cell_per_slot() {
    let mut ids = NodeIdCounter::new();
    let g = grid("calendar", 8, Some(4), &mut ids);
    assert_eq!(g.children.len(), 32);
    assert_eq!(g.builder.style.layout.grid_template_columns, vec![Track::Fr(1); 8]);
    assert_eq!(g.builder.style.layout.grid_template_rows, vec![Track::Fr(1); 4]);
    assert_eq!(g.builder.style.layout.display, Display::Grid);
    assert_eq!(g.builder.name, Some(NodeName::Grid("calendar".to_string())));
    assert_eq!(g.children[31].name, Some(NodeName::GridItem("cell-31".to_string())));
    let free = grid("weekdays", 8, None, &mut ids);
    assert!(free.children.is_empty());
    assert!(free.builder.style.layout.grid_template_rows.is_empty());
}
