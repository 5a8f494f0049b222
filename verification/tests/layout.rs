use rusty_calendar::app::LayoutAction;
use rusty_calendar::builder::Builder;
use rusty_calendar::components::{div, grid, text};
use rusty_calendar::layout::{names_match, AppLayout};
use rusty_calendar::node::{EventCaps, Events, NodeKind, NodeName};
use rusty_calendar::style::Style;
use rusty_calendar::theme::hex;

fn node<'a>(layout: &'a AppLayout, id: u64) -> &'a rusty_calendar::layout::LayoutNode {
    layout.nodes.iter().find(|n| n.taffy_id == id).expect("node exists")
}

fn text_in(layout: &AppLayout, id: u64) -> String {
    match &node(layout, id).kind {
        NodeKind::Text(t) => t.content.clone(),
        _ => String::new(),
    }
}

#[test]
fn a_new_layout_has_only_the_root() {
    let layout = AppLayout::new();
    assert!(layout.nodes.is_empty());
    assert!(layout.children(layout.root_node).is_empty());
    assert!(layout.pending_action.is_none());
}

#[test]
fn build_creates_the_described_tree_in_pre_order() {
    let mut layout = AppLayout::new();
    let tree = div()
        .name(NodeName::Header)
        .child(text("a"))
        .child(div().child(text("b")).child(text("c")))
        .child(text("d"));
    let id = tree.build(&mut layout);

    assert_eq!(layout.children(layout.root_node), vec![id]);
    assert_eq!(layout.nodes.len(), 6);
    assert_eq!(layout.nodes[0].taffy_id, id);
    assert_eq!(layout.nodes[0].name, NodeName::Header);
    let kids = layout.children(id);
    assert_eq!(kids.len(), 3);
    assert_eq!(text_in(&layout, kids[0]), "a");
    assert_eq!(text_in(&layout, kids[2]), "d");
    let inner = layout.children(kids[1]);
    assert_eq!(inner.iter().map(|k| text_in(&layout, *k)).collect::<Vec<_>>(), vec!["b", "c"]);
    // Nodes without a name get fresh numbered ones.
    assert!(matches!(node(&layout, kids[0]).name, NodeName::NoName(_)));
    assert!(layout.nodes.iter().all(|n| n.dirty_layout && n.dirty_screen && n.state.visible));
}

#[test]
fn build_attaches_to_the_given_parent() {
    let mut layout = AppLayout::new();
    let a = div().build(&mut layout);
    let b = text("under a").parent_node(a).build(&mut layout);
    assert_eq!(layout.children(a), vec![b]);
    assert_eq!(layout.children(layout.root_node), vec![a]);
}

#[test]
fn grid_build_names_cells_and_borders_inner_columns() {
    let mut layout = AppLayout::new();
    let mut ids = rusty_calendar::node::NodeIdCounter::new();
    let g = grid("demo", 3, Some(2), &mut ids).border_color(hex(0x112233));
    let id = g.build(&mut layout);
    let cells = layout.children(id);
    assert_eq!(cells.len(), 6);
    for (i, cell) in cells.iter().enumerate() {
        let n = node(&layout, *cell);
        assert_eq!(n.name, NodeName::GridItem(format!("GRID[demo][{}]", i)));
        assert_eq!(n.style.border_color, Some(hex(0x112233)));
        assert_eq!(n.style.layout.border.left, if i % 3 == 0 { 0 } else { 1 });
        assert_eq!(n.style.layout.border.bottom, 1);
    }
}

#[test]
fn set_text_by_name_changes_only_that_text() {
    let mut layout = AppLayout::new();
    let a = text("old").name(NodeName::other("status")).build(&mut layout);
    let b = text("keep").name(NodeName::other("other")).build(&mut layout);
    for n in layout.nodes.iter_mut() {
        n.dirty_layout = false;
        n.dirty_screen = false;
    }
    layout.set_text_by_name(&NodeName::other("status"), "new");
    assert_eq!(text_in(&layout, a), "new");
    assert_eq!(text_in(&layout, b), "keep");
    assert!(node(&layout, a).dirty_layout && node(&layout, a).dirty_screen);
    assert!(!node(&layout, b).dirty_layout && !node(&layout, b).dirty_screen);
}

#[test]
fn set_color_and_icon_by_name() {
    let mut layout = AppLayout::new();
    let mut ids = rusty_calendar::node::NodeIdCounter::new();
    let i = rusty_calendar::components::icon("circle-fill", &mut ids).name(NodeName::other("sync-icon")).build(&mut layout);
    layout.set_text_color_by_name(&NodeName::other("sync-icon"), hex(0x40a02b));
    layout.set_icon_by_name(&NodeName::other("sync-icon"), "incomplete");
    assert_eq!(node(&layout, i).style.text_color, hex(0x40a02b));
    assert_eq!(node(&layout, i).kind, NodeKind::Icon("incomplete".to_string()));
}

#[test]
fn names_match_compares_variant_and_payload() {
    assert!(names_match(&NodeName::other("x"), &NodeName::Other("x".to_string())));
    assert!(!names_match(&NodeName::other("x"), &NodeName::Grid("x".to_string())));
    assert!(!names_match(&NodeName::Pill(1), &NodeName::Pill(2)));
    assert!(names_match(&NodeName::Root, &NodeName::Root));
}

#[test]
fn clicks_queue_the_node_request() {
    let mut layout = AppLayout::new();
    let button = div().events(EventCaps::click()).on_click(LayoutAction::ShiftWeeks(2)).build(&mut layout);
    let label = text("no click").on_click(LayoutAction::ResetWeeks).build(&mut layout);
    assert!(!layout.click(label));
    assert!(layout.pending_action.is_none());
    assert!(layout.click(button));
    assert_eq!(layout.take_action(), Some(LayoutAction::ShiftWeeks(2)));
    assert_eq!(layout.take_action(), None);
}

#[test]
fn builder_setters_update_one_field() {
    let b: Builder = div().width(10).height(20).px(3).py(4).margin_left(5).margin_top(6).rounded(7).bold();
    assert_eq!(b.style.layout.width, rusty_calendar::style::Dimension::Length(10));
    assert_eq!(b.style.layout.height, rusty_calendar::style::Dimension::Length(20));
    assert_eq!(b.style.layout.padding.left, 3);
    assert_eq!(b.style.layout.padding.top, 4);
    assert_eq!(b.style.layout.margin.left, 5);
    assert_eq!(b.style.layout.margin.top, 6);
    assert_eq!(b.style.border_radius, 7);
    assert!(b.style.bold);
}

#[test]
fn add_children_moves_children_to_their_new_parent() {
    let mut layout = AppLayout::new();
    let a = div().build(&mut layout);
    let b = div().build(&mut layout);
    let c = text("x").parent_node(a).build(&mut layout);
    let d = text("y").parent_node(b).build(&mut layout);
    layout.add_children(b, &[c]);
    assert_eq!(layout.children(b), vec![c]);
    assert!(layout.children(a).is_empty());
    // d left b's list and stays a node of the tree.
    assert!(layout.children(d).is_empty());
}

#[test]
fn a_second_node_with_a_used_name_replaces_its_description() {
    let mut layout = AppLayout::new();
    let events = Events { caps: EventCaps::all(), on_click: None };
    let first = layout.create_node(NodeName::Header, NodeKind::Container, Style::new(), events, None);
    let second = layout.create_node(NodeName::Header, NodeKind::GridItem, Style::new(), events, None);
    let i = layout.description_index(first).unwrap();
    let j = layout.description_index(second).unwrap();
    assert_eq!(i, j);
    assert_eq!(layout.nodes[i].taffy_id, second);
    assert_eq!(layout.nodes[i].kind, NodeKind::GridItem);
    assert_eq!(layout.children(layout.root_node), vec![first, second]);
    let other = layout.create_node(NodeName::Footer, NodeKind::Container, Style::new(), events, None);
    assert_eq!(layout.nodes[layout.description_index(other).unwrap()].taffy_id, other);
    assert_eq!(layout.description_index(12345), None);
}

#[test]
fn draw_order_is_pre_order_from_the_root() {
    let mut layout = AppLayout::new();
    let events = Events { caps: EventCaps::all(), on_click: None };
    let a = layout.create_node(NodeName::Header, NodeKind::Container, Style::new(), events, None);
    let b = layout.create_node(NodeName::Content, NodeKind::Container, Style::new(), events, None);
    let a1 = layout.create_node(NodeName::other("a1"), NodeKind::Container, Style::new(), events, Some(a));
    let a2 = layout.create_node(NodeName::other("a2"), NodeKind::Container, Style::new(), events, Some(a));
    let a11 = layout.create_node(NodeName::other("a11"), NodeKind::Container, Style::new(), events, Some(a1));
    assert_eq!(layout.draw_order(), vec![layout.root_node, a, a1, a11, a2, b]);
    assert_eq!(layout.drawable(layout.root_node), None);
    assert!(layout.drawable(a11).is_some());
}

#[test]
fn a_new_node_carries_its_name_in_the_tree() {
    let mut layout = AppLayout::new();
    let events = Events { caps: EventCaps::all(), on_click: None };
    let id = layout.create_node(NodeName::other("x"), NodeKind::Container, Style::new(), events, None);
    assert_eq!(layout.tree.get_node_context(taffy::NodeId::from(id)), Some(&NodeName::other("x")));
}
