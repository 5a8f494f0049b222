use vstd::prelude::*;
use vstd::string::StringExecFns;
use crate::app::LayoutAction;
use crate::builder::{
    attach_target, build_effect, builder_size, built_at, lemma_build_keeps, lemma_built_at_frame, lemma_shows, lemma_shows_child,
    node_of, shows, unchanged_between, Builder,
};
use crate::calendar::{find_day, CalendarItem, DayItems};
use crate::components::{button, div, grid, icon, id_after, is_grid_item, pill, spec_theme, text, ButtonContent};
use crate::grid::{cell_prepared, fr_tracks, grid_prepared, GridBuilder};
use crate::dates::{
    date_text, get_dates, get_weekdays, get_weeknumbers, header_month_label, max_day, min_day, spec_date_text,
    spec_header_month_label, spec_time_text, spec_visible_start, spec_weekdays, spec_weeknumbers, time_text,
    visible_start_for_offset, weekday_from_monday, CalDate,
};
use crate::app::{
    action_last_navigation, action_rebuilds, action_week_offset, footer_status_text, spec_latest_changes, AppState, FooterView,
    SyncStatus,
};
use crate::theme::{spec_light_base16, Theme};
use crate::layout::{same_name, AppLayout, LayoutNode};
use crate::node::{spec_name_text, EventCaps, GridConfig, NodeIdCounter, NodeKind, NodeName};
use crate::style::{AlignItems, Dimension, Display, Edges, FlexDirection, FontSizeName, JustifyContent, Style, TextAlign, Track};
use crate::text::{decimal, push_char, push_decimal};
use crate::theme::{light_theme, readable_on, spec_readable_on, spec_subtle_today, subtle_today_background};

verus! {

/// Columns (days) and rows (weeks) of the calendar grid.
pub const CAL_COLS: usize = 7;
pub const CAL_ROWS: usize = 4;

/// Horizontal padding of the footer.
pub const FOOTER_PX: u32 = 10;

/// The text a node shows; empty for nodes that are not text.
pub open spec fn text_of(n: LayoutNode) -> Seq<char> {
    match n.kind {
        NodeKind::Text(t) => t.content@,
        _ => Seq::empty(),
    }
}

/// The icon a node shows; empty for nodes that are not icons.
pub open spec fn icon_of(n: LayoutNode) -> Seq<char> {
    match n.kind {
        NodeKind::Icon(name) => name@,
        _ => Seq::empty(),
    }
}

/// Whether a node is registered under `Other` with this text.
pub open spec fn named_other(n: LayoutNode, name: Seq<char>) -> bool {
    n.name matches NodeName::Other(s) && s@ == name
}

/// The node of the `k`-th child of node `id`.
pub open spec fn child_node(l: AppLayout, id: u64, k: int) -> LayoutNode {
    node_of(l, l.children_of(id)[k])
}

/// A button node that queues `action` when clicked and shows the icon `icon`.
pub open spec fn icon_button_node(l: AppLayout, id: u64, icon: Seq<char>, action: LayoutAction) -> bool {
    &&& node_of(l, id).events.on_click == Some(action)
    &&& node_of(l, id).events.caps.bits == 1
    &&& l.children_of(id).len() == 1
    &&& icon_of(child_node(l, id, 0)) == icon
}

/// The header: the month of the first shown week with the buttons that move two
/// weeks back and forth, a button back to this week when another week is shown,
/// and the clock.
pub open spec fn header_shows(l: AppLayout, header: u64, visible_start: CalDate, week_offset: i64, clock: Seq<char>) -> bool {
    let controls = l.children_of(header)[0];
    &&& node_of(l, header).name == NodeName::Header
    &&& node_of(l, header).style.layout.height == Dimension::Length(64)
    &&& node_of(l, header).style.layout.border.bottom == 1
    &&& node_of(l, header).style.border_color == Some(spec_theme().border)
    &&& l.children_of(header).len() == 2
    &&& l.children_of(controls).len() == if week_offset != 0 { 4int } else { 3int }
    &&& text_of(child_node(l, controls, 0)) == spec_header_month_label(visible_start)
    &&& icon_button_node(l, l.children_of(controls)[1], "16/chevron--left"@, LayoutAction::ShiftWeeks(-2i64))
    &&& icon_button_node(l, l.children_of(controls)[2], "16/chevron--right"@, LayoutAction::ShiftWeeks(2))
    &&& week_offset != 0 ==> {
        let today = l.children_of(controls)[3];
        &&& node_of(l, today).events.on_click == Some(LayoutAction::ResetWeeks)
        &&& node_of(l, today).events.caps.bits == 1
        &&& l.children_of(today).len() == 1
        &&& text_of(child_node(l, today, 0)) == "Today"@
    }
    &&& child_node(l, header, 1).name == NodeName::Clock
    &&& text_of(child_node(l, header, 1)) == clock
}

/// The footer: the sync icon, the sync status, the latest changes (cut with an
/// ellipsis) and the version.
pub open spec fn footer_shows(l: AppLayout, footer: u64, version: Seq<char>) -> bool {
    &&& node_of(l, footer).name == NodeName::Footer
    &&& node_of(l, footer).style.layout.height == Dimension::Length(48)
    &&& node_of(l, footer).style.layout.border.top == 1
    &&& node_of(l, footer).style.border_color == Some(spec_theme().border)
    &&& l.children_of(footer).len() == 4
    &&& named_other(child_node(l, footer, 0), "sync-icon"@)
    &&& icon_of(child_node(l, footer, 0)) == "circle-fill"@
    &&& named_other(child_node(l, footer, 1), "sync-status"@)
    &&& text_of(child_node(l, footer, 1)) == "next sync pending"@
    &&& named_other(child_node(l, footer, 2), "sync-changes"@)
    &&& text_of(child_node(l, footer, 2)) == "no sync changes yet"@
    &&& child_node(l, footer, 2).kind->Text_0.ellipsis
    &&& named_other(child_node(l, footer, 3), "version"@)
    &&& text_of(child_node(l, footer, 3)) == version
}

/// A builder whose node is text with this content.
pub open spec fn text_builder(b: Builder, content: Seq<char>) -> bool {
    b.kind is Text && b.kind->Text_0.content@ == content
}

/// A builder of a button that queues `action` and shows the icon `icon`.
pub open spec fn icon_button_builder(b: Builder, icon: Seq<char>, action: LayoutAction) -> bool {
    &&& b.events.on_click == Some(action)
    &&& b.events.caps.bits == 1
    &&& b.children@.len() == 1
    &&& b.children@[0].kind is Icon
    &&& b.children@[0].kind->Icon_0@ == icon
}

/// The builder of the header, as `header_shows` describes its nodes.
pub open spec fn header_builder_spec(b: Builder, visible_start: CalDate, week_offset: i64, clock: Seq<char>) -> bool {
    &&& b.name == Some(NodeName::Header)
    &&& b.style.layout.height == Dimension::Length(64)
    &&& b.style.layout.border.bottom == 1
    &&& b.style.border_color == Some(spec_theme().border)
    &&& b.style.layout.justify_content == Some(JustifyContent::SpaceBetween)
    &&& b.parent_node is None
    &&& b.children@.len() == 2
    &&& b.children@[0].children@.len() == if week_offset != 0 { 4int } else { 3int }
    &&& text_builder(b.children@[0].children@[0], spec_header_month_label(visible_start))
    &&& icon_button_builder(b.children@[0].children@[1], "16/chevron--left"@, LayoutAction::ShiftWeeks(-2i64))
    &&& icon_button_builder(b.children@[0].children@[2], "16/chevron--right"@, LayoutAction::ShiftWeeks(2))
    &&& week_offset != 0 ==> {
        let t = b.children@[0].children@[3];
        &&& t.events.on_click == Some(LayoutAction::ResetWeeks)
        &&& t.events.caps.bits == 1
        &&& t.children@.len() == 1
        &&& text_builder(t.children@[0], "Today"@)
    }
    &&& b.children@[1].name == Some(NodeName::Clock)
    &&& text_builder(b.children@[1], clock)
}

/// The builder of the footer, as `footer_shows` describes its nodes.
pub open spec fn footer_builder_spec(b: Builder, version: Seq<char>) -> bool {
    &&& b.name == Some(NodeName::Footer)
    &&& b.style.layout.height == Dimension::Length(48)
    &&& b.style.layout.border.top == 1
    &&& b.style.border_color == Some(spec_theme().border)
    &&& b.parent_node is None
    &&& b.children@.len() == 4
    &&& b.children@[0].name matches Some(NodeName::Other(s)) && s@ == "sync-icon"@
    &&& b.children@[0].kind is Icon && b.children@[0].kind->Icon_0@ == "circle-fill"@
    &&& b.children@[1].name matches Some(NodeName::Other(s)) && s@ == "sync-status"@
    &&& text_builder(b.children@[1], "next sync pending"@)
    &&& b.children@[2].name matches Some(NodeName::Other(s)) && s@ == "sync-changes"@
    &&& text_builder(b.children@[2], "no sync changes yet"@)
    &&& b.children@[2].kind->Text_0.ellipsis
    &&& b.children@[3].name matches Some(NodeName::Other(s)) && s@ == "version"@
    &&& text_builder(b.children@[3], version)
}

proof fn lemma_icon_button_shows(l: AppLayout, id: u64, b: Builder, icon: Seq<char>, action: LayoutAction)
    requires
        l.wf(),
        shows(l, id, b),
        icon_button_builder(b, icon, action),
    ensures
        icon_button_node(l, id, icon, action),
{
    lemma_shows(l, id, b);
    lemma_shows_child(l, id, b, 0);
}

/// What a header built from its builder shows.
proof fn lemma_header_shows(l: AppLayout, header: u64, b: Builder, visible_start: CalDate, week_offset: i64, clock: Seq<char>)
    requires
        l.wf(),
        shows(l, header, b),
        header_builder_spec(b, visible_start, week_offset, clock),
    ensures
        header_shows(l, header, visible_start, week_offset, clock),
{
    lemma_shows(l, header, b);
    lemma_shows_child(l, header, b, 0);
    lemma_shows_child(l, header, b, 1);
    let controls = l.children_of(header)[0];
    let cb = b.children@[0];
    lemma_shows_child(l, controls, cb, 0);
    lemma_shows_child(l, controls, cb, 1);
    lemma_shows_child(l, controls, cb, 2);
    lemma_icon_button_shows(l, l.children_of(controls)[1], cb.children@[1], "16/chevron--left"@, LayoutAction::ShiftWeeks(-2i64));
    lemma_icon_button_shows(l, l.children_of(controls)[2], cb.children@[2], "16/chevron--right"@, LayoutAction::ShiftWeeks(2));
    if week_offset != 0 {
        lemma_shows_child(l, controls, cb, 3);
        lemma_shows_child(l, l.children_of(controls)[3], cb.children@[3], 0);
    }
}

/// What a footer built from its builder shows.
proof fn lemma_footer_shows(l: AppLayout, footer: u64, b: Builder, version: Seq<char>)
    requires
        l.wf(),
        shows(l, footer, b),
        footer_builder_spec(b, version),
    ensures
        footer_shows(l, footer, version),
{
    lemma_shows(l, footer, b);
    lemma_shows_child(l, footer, b, 0);
    lemma_shows_child(l, footer, b, 1);
    lemma_shows_child(l, footer, b, 2);
    lemma_shows_child(l, footer, b, 3);
}

/// A round icon button of 36 pixels that queues `action`.
fn nav_button(icon_name: &str, action: LayoutAction, margin_left: u32, ids: &mut NodeIdCounter) -> (b: Builder)
    ensures
        icon_button_builder(b, icon_name@, action),
        b.name is None,
        b.parent_node is None,
{
    button(ButtonContent::Icon(String::from_str(icon_name)), ids)
        .width(36)
        .height(36)
        .rounded(18)
        .on_click(action)
        .margin_left(margin_left)
}

/// The left part of the header: month heading and navigation buttons.
fn header_controls(visible_start: CalDate, week_offset: i64, ids: &mut NodeIdCounter) -> (b: Builder)
    requires
        visible_start.wf(),
    ensures
        b.name is None,
        b.parent_node is None,
        b.children@.len() == if week_offset != 0 { 4int } else { 3int },
        text_builder(b.children@[0], spec_header_month_label(visible_start)),
        icon_button_builder(b.children@[1], "16/chevron--left"@, LayoutAction::ShiftWeeks(-2i64)),
        icon_button_builder(b.children@[2], "16/chevron--right"@, LayoutAction::ShiftWeeks(2)),
        week_offset != 0 ==> {
            &&& b.children@[3].events.on_click == Some(LayoutAction::ResetWeeks)
            &&& b.children@[3].events.caps.bits == 1
            &&& b.children@[3].children@.len() == 1
            &&& text_builder(b.children@[3].children@[0], "Today"@)
        },
{
    let label = header_month_label(visible_start);
    let heading = text(label.as_str()).width(160).font_size(FontSizeName::Xl).bold().text_align(TextAlign::Left);
    let back = nav_button("16/chevron--left", LayoutAction::ShiftWeeks(-2), 12, ids);
    let forth = nav_button("16/chevron--right", LayoutAction::ShiftWeeks(2), 8, ids);
    let mut controls = Builder::new(NodeKind::Container, None)
        .width_auto()
        .events(EventCaps::empty())
        .flex_direction(FlexDirection::Row)
        .align_items(AlignItems::Center)
        .margin_left(0)
        .margin_top(0)
        .child(heading)
        .child(back)
        .child(forth);
    if week_offset != 0 {
        let today = button(ButtonContent::Text(String::from_str("Today")), ids)
            .on_click(LayoutAction::ResetWeeks)
            .margin_left(8);
        controls = controls.child(today);
    }
    controls
}

/// The header bar: controls on the left, the clock on the right.
fn header_builder(visible_start: CalDate, week_offset: i64, clock_text: &str, ids: &mut NodeIdCounter) -> (b: Builder)
    requires
        visible_start.wf(),
    ensures
        header_builder_spec(b, visible_start, week_offset, clock_text@),
{
    let controls = header_controls(visible_start, week_offset, ids);
    let clock = text(clock_text)
        .name(NodeName::Clock)
        .width(96)
        .text_align(TextAlign::Center)
        .px(16)
        .margin_top(0);
    div()
        .border_color(light_theme().border)
        .name(NodeName::Header)
        .height(64)
        .px(16)
        .border_b(1)
        .align_items(AlignItems::Center)
        .justify_content(JustifyContent::SpaceBetween)
        .child(controls)
        .child(clock)
}

/// The main area, a growing column that the calendar grids go in.
fn content_builder() -> (b: Builder)
    ensures
        b.name == Some(NodeName::Content),
        b.parent_node is None,
        b.children@.len() == 0,
{
    div()
        .name(NodeName::Content)
        .width_full()
        .flex_dir_column()
        .flex_grow(1)
        .flex_shrink(1)
}

/// The footer bar with the sync icon, status, changes and version.
fn footer_builder(version_text: &str, ids: &mut NodeIdCounter) -> (b: Builder)
    ensures
        footer_builder_spec(b, version_text@),
{
    let theme = light_theme();
    let sync_icon = icon("circle-fill", ids)
        .name(NodeName::other("sync-icon"))
        .width(18)
        .height(18)
        .text_color(theme.text)
        .px(5);
    let status = text("next sync pending")
        .name(NodeName::other("sync-status"))
        .width(180)
        .text_color(theme.text);
    let changes = text("no sync changes yet")
        .name(NodeName::other("sync-changes"))
        .width(0)
        .text_color(theme.text)
        .ellipsis()
        .flex_grow(1)
        .flex_shrink(1);
    let version = text(version_text)
        .name(NodeName::other("version"))
        .width_auto()
        .text_color(theme.text)
        .text_align(TextAlign::Right);
    div()
        .name(NodeName::Footer)
        .width_full()
        .height(48)
        .px(FOOTER_PX)
        .border_color(theme.border)
        .border_t(1)
        .flex_direction(FlexDirection::Row)
        .align_items(AlignItems::Center)
        .child(sync_icon)
        .child(status)
        .child(changes)
        .child(version)
}


/// Every node built from position `lo` up to `hi` is not `n`.
pub open spec fn nodes_avoid(l: AppLayout, lo: int, hi: int, n: u64) -> bool {
    forall|i: int| lo <= i < hi ==> (#[trigger] l.nodes@[i]).taffy_id != n
}

proof fn lemma_avoid_root(l: AppLayout, lo: int, hi: int)
    requires
        l.wf(),
        0 <= lo <= hi <= l.nodes@.len(),
    ensures
        nodes_avoid(l, lo, hi, l.root_node),
{
}

/// The header, content area and footer were built one after another from
/// position `at` of the node list, from builders as `build_layout` makes them.
pub open spec fn frame_built(
    l: AppLayout,
    at: int,
    ids: (u64, u64, u64),
    visible_start: CalDate,
    week_offset: i64,
    clock: Seq<char>,
    version: Seq<char>,
) -> bool {
    exists|hb: Builder, cb: Builder, fb: Builder|
        #![trigger header_builder_spec(hb, visible_start, week_offset, clock), footer_builder_spec(fb, version), built_at(l, cb, at + builder_size(hb))]
        {
            &&& header_builder_spec(hb, visible_start, week_offset, clock)
            &&& cb.name == Some(NodeName::Content)
            &&& cb.children@.len() == 0
            &&& footer_builder_spec(fb, version)
            &&& built_at(l, hb, at)
            &&& built_at(l, cb, at + builder_size(hb))
            &&& built_at(l, fb, at + builder_size(hb) + builder_size(cb))
            &&& ids.0 == l.nodes@[at].taffy_id
            &&& ids.1 == l.nodes@[at + builder_size(hb)].taffy_id
            &&& ids.2 == l.nodes@[at + builder_size(hb) + builder_size(cb)].taffy_id
            &&& l.nodes@.len() == at + builder_size(hb) + builder_size(cb) + builder_size(fb)
        }
}

/// Builds the header, the content area and the footer, in this order, as the
/// last children of the root. Returns the ids of the three.
#[verifier::rlimit(40)]
pub fn build_layout(
    layout: &mut AppLayout,
    visible_start: CalDate,
    week_offset: i64,
    clock_text: &str,
    version_text: &str,
) -> (ids: (u64, u64, u64))
    requires
        old(layout).wf(),
        visible_start.wf(),
    ensures
        final(layout).wf(),
        final(layout).root_node == old(layout).root_node,
        final(layout).pending_action == old(layout).pending_action,
        final(layout).nodes@.subrange(0, old(layout).nodes@.len() as int) == old(layout).nodes@,
        final(layout).children_of(old(layout).root_node) == old(layout).children_of(old(layout).root_node) + seq![ids.0, ids.1, ids.2],
        forall|n: u64| old(layout).has_node(n) && n != old(layout).root_node ==> #[trigger] final(layout).children_of(n) == old(layout).children_of(n),
        forall|n: u64| old(layout).has_node(n) ==> #[trigger] final(layout).has_node(n),
        header_shows(*final(layout), ids.0, visible_start, week_offset, clock_text@),
        node_of(*final(layout), ids.1).name == NodeName::Content,
        final(layout).children_of(ids.1).len() == 0,
        footer_shows(*final(layout), ids.2, version_text@),
        frame_built(*final(layout), old(layout).nodes@.len() as int, ids, visible_start, week_offset, clock_text@, version_text@),
{
    let ghost l0 = *layout;
    let hb = header_builder(visible_start, week_offset, clock_text, &mut layout.ids);
    let ghost hb0 = hb;
    let ghost la = *layout;
    let header = hb.build(layout);
    let ghost l1 = *layout;
    let cb = content_builder();
    let ghost cb0 = cb;
    let content = cb.build(layout);
    let ghost l2 = *layout;
    let fb = footer_builder(version_text, &mut layout.ids);
    let ghost fb0 = fb;
    let ghost lb = *layout;
    let footer = fb.build(layout);
    let ghost l3 = *layout;
    proof {
        let root = l0.root_node;
        let p0 = la.nodes@.len() as int;
        let p1 = l1.nodes@.len() as int;
        let p2 = lb.nodes@.len() as int;
        lemma_avoid_root(l1, p0, p0 + builder_size(hb0));
        lemma_build_keeps(l1, l2, cb0, root, content, hb0, p0);
        assert(lb.nodes == l2.nodes && lb.tree == l2.tree);
        assert(la.nodes == l0.nodes && la.tree == l0.tree);
        crate::builder::lemma_built_at_frame(l2, lb, hb0, p0);
        crate::builder::lemma_built_at_frame(l2, lb, cb0, p1);
        lemma_avoid_root(lb, p0, p0 + builder_size(hb0));
        lemma_avoid_root(lb, p1, p1 + builder_size(cb0));
        lemma_build_keeps(lb, l3, fb0, root, footer, hb0, p0);
        lemma_build_keeps(lb, l3, fb0, root, footer, cb0, p1);
        assert(shows(l3, header, hb0));
        assert(shows(l3, content, cb0));
        assert(shows(l3, footer, fb0));
        lemma_header_shows(l3, header, hb0, visible_start, week_offset, clock_text@);
        lemma_footer_shows(l3, footer, fb0, version_text@);
        lemma_shows(l3, content, cb0);
        assert(l3.nodes@.len() == p2 + builder_size(fb0));
        assert(frame_built(l3, l0.nodes@.len() as int, (header, content, footer), visible_start, week_offset, clock_text@, version_text@));
        assert(l3.children_of(root) =~= l0.children_of(root) + seq![header, content, footer]);
        assert(l3.nodes@.subrange(0, l0.nodes@.len() as int) =~= l0.nodes@) by {
            assert forall|i: int| 0 <= i < l0.nodes@.len() implies l3.nodes@[i] == l0.nodes@[i] by {
                assert(l1.nodes@.subrange(0, p0)[i] == l0.nodes@[i]);
                assert(l2.nodes@.subrange(0, p1)[i] == l1.nodes@[i]);
                assert(l3.nodes@.subrange(0, p2)[i] == lb.nodes@[i]);
            }
        }
        assert forall|n: u64| l0.has_node(n) && n != root implies #[trigger] l3.children_of(n) == l0.children_of(n) by {
            assert(la.has_node(n));
            assert(l1.has_node(n));
            assert(l2.has_node(n));
            assert(lb.has_node(n));
            assert(l3.children_of(n) == lb.children_of(n));
            assert(lb.children_of(n) == l2.children_of(n));
            assert(l2.children_of(n) == l1.children_of(n));
            assert(l1.children_of(n) == la.children_of(n));
            assert(la.children_of(n) == l0.children_of(n));
        }
        assert forall|n: u64| l0.has_node(n) implies #[trigger] l3.has_node(n) by {
            assert(la.has_node(n));
            assert(l1.has_node(n));
            assert(l2.has_node(n));
            assert(lb.has_node(n));
        }
    }
    (header, content, footer)
}


/// The text of an item: its start time, two spaces and its title.
pub open spec fn item_label(item: CalendarItem) -> Seq<char> {
    spec_time_text(item.start_at.hour as nat, item.start_at.minute as nat) + seq![' ', ' '] + item.title@
}

/// The builder of a calendar item: a pill in the item's color with time and
/// title for pill items; otherwise a row with the time in the item's color and
/// the title, cut with an ellipsis.
pub open spec fn item_builder_spec(b: Builder, item: CalendarItem) -> bool {
    let time = spec_time_text(item.start_at.hour as nat, item.start_at.minute as nat);
    &&& b.parent_node is None
    &&& b.style.layout.margin.top == 4
    &&& b.style.layout.width == Dimension::Percent(100)
    &&& if item.pill {
        &&& b.kind is Text
        &&& b.kind->Text_0.content@ == item_label(item)
        &&& b.kind->Text_0.is_pill
        &&& b.kind->Text_0.ellipsis
        &&& b.name matches Some(NodeName::Pill(_))
        &&& b.style.text_color == spec_readable_on(item.accent)
        &&& b.style.background_color == Some(item.accent)
        &&& b.style.font_size == FontSizeName::Sm
        &&& b.children@.len() == 0
    } else {
        &&& b.kind == NodeKind::Container
        &&& b.name is None
        &&& b.style.layout.flex_direction == FlexDirection::Row
        &&& b.style.layout.align_items == Some(AlignItems::Center)
        &&& b.children@.len() == 2
        &&& text_builder(b.children@[0], time)
        &&& b.children@[0].style.layout.width == Dimension::Length(50)
        &&& b.children@[0].style.text_align == Some(TextAlign::Left)
        &&& b.children@[1].style.layout.width == Dimension::Length(0)
        &&& b.children@[1].style.layout.flex_grow == 1
        &&& b.children@[1].style.layout.flex_shrink == 1
        &&& b.children@[1].style.text_align == Some(TextAlign::Left)
        &&& b.children@[0].style.text_color == item.accent
        &&& b.children@[0].style.font_size == FontSizeName::Sm
        &&& text_builder(b.children@[1], item.title@)
        &&& b.children@[1].kind->Text_0.ellipsis
        &&& b.children@[1].style.text_color == spec_theme().text
        &&& b.children@[1].style.font_size == FontSizeName::Sm
    }
}

/// The nodes of a calendar item, as `item_builder_spec` describes its builder.
pub open spec fn item_shows(l: AppLayout, id: u64, item: CalendarItem) -> bool {
    let n = node_of(l, id);
    let time = spec_time_text(item.start_at.hour as nat, item.start_at.minute as nat);
    if item.pill {
        &&& text_of(n) == item_label(item)
        &&& n.kind->Text_0.is_pill
        &&& n.kind->Text_0.ellipsis
        &&& n.style.text_color == spec_readable_on(item.accent)
        &&& n.style.background_color == Some(item.accent)
        &&& l.children_of(id).len() == 0
    } else {
        &&& n.kind == NodeKind::Container
        &&& l.children_of(id).len() == 2
        &&& text_of(child_node(l, id, 0)) == time
        &&& child_node(l, id, 0).style.text_color == item.accent
        &&& text_of(child_node(l, id, 1)) == item.title@
        &&& child_node(l, id, 1).kind->Text_0.ellipsis
        &&& child_node(l, id, 1).style.text_color == spec_theme().text
    }
}

proof fn lemma_item_shows(l: AppLayout, id: u64, b: Builder, item: CalendarItem)
    requires
        l.wf(),
        shows(l, id, b),
        item_builder_spec(b, item),
    ensures
        item_shows(l, id, item),
{
    lemma_shows(l, id, b);
    if !item.pill {
        lemma_shows_child(l, id, b, 0);
        lemma_shows_child(l, id, b, 1);
    }
}

/// The builder of one calendar item (see `item_builder_spec`).
pub fn render_calendar_item(item: &CalendarItem, ids: &mut NodeIdCounter) -> (b: Builder)
    ensures
        item_builder_spec(b, *item),
{
    let accent = item.accent;
    let on_accent = readable_on(accent);
    let time = time_text(&item.start_at);
    if item.pill {
        let mut label = time;
        push_char(&mut label, ' ');
        push_char(&mut label, ' ');
        label.append(item.title.as_str());
        assert(label@ =~= item_label(*item));
        return pill(label.as_str(), ids)
            .width_full()
            .font_size(FontSizeName::Sm)
            .text_color(on_accent)
            .background(accent)
            .ellipsis()
            .margin_top(4);
    }
    let time_node = text(time.as_str())
        .width(50)
        .font_size(FontSizeName::Sm)
        .text_color(accent)
        .text_align(TextAlign::Left);
    let title_node = text(item.title.as_str())
        .width(0)
        .font_size(FontSizeName::Sm)
        .flex_grow(1)
        .flex_shrink(1)
        .ellipsis()
        .text_color(light_theme().text)
        .text_align(TextAlign::Left);
    div()
        .width_full()
        .flex_direction(FlexDirection::Row)
        .align_items(AlignItems::Center)
        .margin_top(4)
        .child(time_node)
        .child(title_node)
}


/// The week numbers of four weeks from a date at least 27 days before chrono's
/// last date are four.
proof fn lemma_weeknumbers_len(begin: int, n: nat)
    requires
        n >= 1 ==> begin + 7 * (n - 1) <= max_day(),
    ensures
        spec_weeknumbers(begin, n).len() == n,
    decreases n,
{
    if n > 0 {
        lemma_weeknumbers_len(begin, (n - 1) as nat);
    }
}

/// The items of the group of `day`, none when no group has that date.
pub open spec fn day_items(days: Seq<DayItems>, day: int) -> Seq<CalendarItem> {
    if exists|g: int| 0 <= g < days.len() && days[g].date@ == day {
        days[choose|g: int| 0 <= g < days.len() && days[g].date@ == day].items@
    } else {
        Seq::empty()
    }
}

/// Which of the shown dates cell `i` of the calendar grid holds (cells that open
/// a row hold the week number instead).
pub open spec fn cell_date_index(i: int) -> int {
    (i / 8) * 7 + i % 8 - 1
}

/// The week number that the row of cell `i` shows: rows take the week numbers
/// from the last shown week back to the first, so the top row shows the fourth
/// week's number. This reversed order is kept on purpose: it is the order in
/// which the screen has always handed the numbers out (taking them from the end
/// of the list), and no documented behaviour asks for another.
pub open spec fn row_week(weeks: Seq<u32>, i: int) -> u32 {
    weeks[3 - i / 8]
}

/// The box with a date's day of the month: named `calendar-cell_` and the date.
pub open spec fn day_box_spec(b: Builder, date: CalDate) -> bool {
    &&& b.name matches Some(NodeName::Other(s))
        && s@ == "calendar-cell_"@ + spec_date_text(date.spec_year() as int, date.spec_month() as nat, date.spec_day() as nat)
    &&& b.children@.len() == 1
    &&& text_builder(b.children@[0], decimal(date.spec_day() as nat))
}

fn day_box(date: &CalDate) -> (b: Builder)
    ensures
        day_box_spec(b, *date),
{
    let mut label = String::from_str("calendar-cell_");
    let d = date_text(date);
    label.append(d.as_str());
    let mut day = String::new();
    push_decimal(&mut day, date.day() as u64);
    let number = text(day.as_str()).py(5).font_size(FontSizeName::Sm);
    proof {
        reveal_strlit("calendar-cell_");
    }
    div()
        .width_full()
        .align_items(AlignItems::Center)
        .justify_content(JustifyContent::Center)
        .child(number)
        .name(NodeName::Other(label))
}

/// A cell filled as the calendar grid fills it: the column direction, and after
/// its own children the week number when it opens a row; otherwise today's
/// background on today's date, the date's box and one node per item of the date.
pub open spec fn filled_cell(
    orig: Builder,
    f: Builder,
    i: int,
    start: int,
    today: int,
    days: Seq<DayItems>,
    weeks: Seq<u32>,
) -> bool {
    let o = orig.children@.len();
    let day = start + cell_date_index(i);
    &&& f.name == orig.name
    &&& f.kind == orig.kind
    &&& f.events == orig.events
    &&& f.parent_node == orig.parent_node
    &&& f.children@.subrange(0, o as int) == orig.children@
    &&& f.style.layout == (crate::style::LayoutStyle { flex_direction: FlexDirection::Column, ..orig.style.layout })
    &&& f.style == (crate::style::Style {
        layout: f.style.layout,
        background_color: if i % 8 != 0 && day == today { Some(spec_subtle_today()) } else { orig.style.background_color },
        ..orig.style
    })
    &&& if i % 8 == 0 {
        &&& f.children@.len() == o + 1
        &&& text_builder(f.children@[o as int], decimal(row_week(weeks, i) as nat))
    } else {
        &&& f.children@.len() == o + 1 + day_items(days, day).len()
        &&& exists|dt: CalDate| dt.wf() && dt@ == day && #[trigger] day_box_spec(f.children@[o as int], dt)
        &&& forall|j: int| 0 <= j < day_items(days, day).len() ==> item_builder_spec(#[trigger] f.children@[o + 1 + j], day_items(days, day)[j])
    }
}

fn fill_week_cell(cell: Builder, week: Builder) -> (f: Builder)
    ensures
        f.name == cell.name,
        f.kind == cell.kind,
        f.events == cell.events,
        f.parent_node == cell.parent_node,
        f.children@ == cell.children@.push(week),
        f.style == (crate::style::Style {
            layout: crate::style::LayoutStyle { flex_direction: FlexDirection::Column, ..cell.style.layout },
            ..cell.style
        }),
{
    let mut f = cell;
    f.set_flex_direction(FlexDirection::Column);
    f.add_child(week);
    f
}

/// Appends one node per item to `f`.
fn push_items(f: &mut Builder, items: &Vec<CalendarItem>, ids: &mut NodeIdCounter)
    ensures
        final(f).name == old(f).name,
        final(f).kind == old(f).kind,
        final(f).events == old(f).events,
        final(f).parent_node == old(f).parent_node,
        final(f).style == old(f).style,
        final(f).children@.len() == old(f).children@.len() + items@.len(),
        final(f).children@.subrange(0, old(f).children@.len() as int) == old(f).children@,
        forall|m: int| 0 <= m < items@.len() ==> item_builder_spec(#[trigger] final(f).children@[old(f).children@.len() + m], items@[m]),
{
    let ghost start = f.children@;
    let ghost o = start.len();
    let mut j: usize = 0;
    assert(f.children@.subrange(0, o as int) =~= start);
    while j < items.len()
        invariant
            j <= items@.len(),
            f.name == old(f).name,
            f.kind == old(f).kind,
            f.events == old(f).events,
            f.parent_node == old(f).parent_node,
            f.style == old(f).style,
            start == old(f).children@,
            o == start.len(),
            f.children@.len() == o + j,
            f.children@.subrange(0, o as int) == start,
            forall|m: int| 0 <= m < j ==> item_builder_spec(#[trigger] f.children@[o + m], items@[m]),
        decreases items@.len() - j,
    {
        let b = render_calendar_item(&items[j], ids);
        let ghost prev = f.children@;
        f.add_child(b);
        proof {
            assert(f.children@.subrange(0, o as int) =~= prev.subrange(0, o as int));
            assert forall|m: int| 0 <= m < j + 1 implies item_builder_spec(#[trigger] f.children@[o + m], items@[m]) by {
                if m < j {
                    assert(f.children@[o + m] == prev[o + m]);
                }
            }
        }
        j += 1;
    }
}

/// Groups of distinct dates, each date well-formed.
pub open spec fn days_ok(days: Seq<DayItems>) -> bool {
    &&& forall|g: int| 0 <= g < days.len() ==> (#[trigger] days[g]).date.wf()
    &&& forall|g: int, h: int| 0 <= g < h < days.len() ==> (#[trigger] days[g]).date@ < (#[trigger] days[h]).date@
}

fn fill_date_cell(cell: Builder, date: &CalDate, today: &CalDate, days: &[DayItems], ids: &mut NodeIdCounter) -> (f: Builder)
    requires
        date.wf(),
        today.wf(),
        days_ok(days@),
    ensures
        f.name == cell.name,
        f.kind == cell.kind,
        f.events == cell.events,
        f.parent_node == cell.parent_node,
        f.children@.len() == cell.children@.len() + 1 + day_items(days@, date@).len(),
        f.children@.subrange(0, cell.children@.len() as int) == cell.children@,
        f.style == (crate::style::Style {
            layout: crate::style::LayoutStyle { flex_direction: FlexDirection::Column, ..cell.style.layout },
            background_color: if date@ == today@ { Some(spec_subtle_today()) } else { cell.style.background_color },
            ..cell.style
        }),
        day_box_spec(f.children@[cell.children@.len() as int], *date),
        forall|j: int| 0 <= j < day_items(days@, date@).len()
            ==> item_builder_spec(#[trigger] f.children@[cell.children@.len() + 1 + j], day_items(days@, date@)[j]),
{
    let ghost o = cell.children@.len();
    let mut f = cell;
    f.set_flex_direction(FlexDirection::Column);
    if today.days_since(date) == 0 {
        f.set_background(subtle_today_background());
    }
    let ghost before_box = f;
    f.add_child(day_box(date));
    let ghost with_box = f;
    assert(f.children@.subrange(0, o as int) =~= cell.children@);
    match find_day(days, date) {
        Some(g) => {
            proof {
                let c = choose|h: int| 0 <= h < days@.len() && days@[h].date@ == date@;
                assert(days@[g as int].date@ == date@);
                assert(c == g as int) by {
                    if c < g as int {
                        assert(days@[c].date@ < days@[g as int].date@);
                    } else if c > g as int {
                        assert(days@[g as int].date@ < days@[c].date@);
                    }
                }
                assert(day_items(days@, date@) == days@[g as int].items@);
            }
            push_items(&mut f, &days[g].items, ids);
            proof {
                assert(f.children@[o as int] == with_box.children@[o as int]);
                assert(f.children@.subrange(0, o as int) =~= cell.children@) by {
                    assert forall|m: int| 0 <= m < o implies f.children@[m] == cell.children@[m] by {
                        assert(f.children@.subrange(0, (o + 1) as int)[m] == with_box.children@[m]);
                    }
                }
            }
        },
        None => {
            proof {
                assert(day_items(days@, date@) == Seq::<CalendarItem>::empty());
            }
        },
    }
    f
}


/// What cell `i` of the calendar grid holds: the week number of its row when it
/// opens a row; otherwise the box of its date and one node per item of that
/// date, on today's background when the date is today.
pub open spec fn cell_content_spec(c: Builder, i: int, start: int, today: int, days: Seq<DayItems>, weeks: Seq<u32>) -> bool {
    let day = start + cell_date_index(i);
    &&& c.style.layout.border == (Edges { top: 0, right: 0, bottom: 1, left: 0 })
    &&& c.style.background_color == if i % 8 != 0 && day == today { Some(spec_subtle_today()) } else { None::<crate::theme::Color> }
    &&& if i % 8 == 0 {
        &&& c.children@.len() == 1
        &&& text_builder(c.children@[0], decimal(row_week(weeks, i) as nat))
    } else {
        &&& c.children@.len() == 1 + day_items(days, day).len()
        &&& exists|dt: CalDate| dt.wf() && dt@ == day && #[trigger] day_box_spec(c.children@[0], dt)
        &&& forall|j: int| 0 <= j < day_items(days, day).len() ==> item_builder_spec(#[trigger] c.children@[1 + j], day_items(days, day)[j])
    }
}

/// Fills the 32 cells of the calendar grid, row by row: the first cell of a row
/// gets the row's week number, the others the next date in turn.
fn fill_calendar_cells(
    cells: Vec<Builder>,
    weeks: &[u32],
    dates: &[CalDate],
    today: &CalDate,
    days: &[DayItems],
    ids: &mut NodeIdCounter,
) -> (out: Vec<Builder>)
    requires
        cells@.len() == 32,
        weeks@.len() == 4,
        dates@.len() == 28,
        forall|k: int| 0 <= k < 28 ==> (#[trigger] dates@[k]).wf() && dates@[k]@ == dates@[0]@ + k,
        forall|k: int| 0 <= k < 32 ==> (#[trigger] cells@[k]).children@.len() == 0 && cells@[k].style.background_color is None
            && cells@[k].style.layout.border == (Edges { top: 0, right: 0, bottom: 1, left: 0 }),
        today.wf(),
        days_ok(days@),
    ensures
        out@.len() == 32,
        forall|i: int| 0 <= i < 32 ==> #[trigger] cell_content_spec(out@[i], i, dates@[0]@, today@, days@, weeks@),
        forall|i: int| 0 <= i < 32 ==> (#[trigger] out@[i]).name == cells@[i].name && out@[i].kind == cells@[i].kind
            && out@[i].events == cells@[i].events && out@[i].parent_node == cells@[i].parent_node,
{
    let ghost cells0 = cells@;
    let ghost start = dates@[0]@;
    let mut rest = cells;
    let mut out: Vec<Builder> = Vec::new();
    let mut i: usize = 0;
    assert(cells0.skip(0) =~= cells0);
    while i < 32
        invariant
            i <= 32,
            rest@ == cells0.skip(i as int),
            cells0.len() == 32,
            out@.len() == i,
            weeks@.len() == 4,
            dates@.len() == 28,
            start == dates@[0]@,
            forall|k: int| 0 <= k < 28 ==> (#[trigger] dates@[k]).wf() && dates@[k]@ == dates@[0]@ + k,
            forall|k: int| 0 <= k < 32 ==> (#[trigger] cells0[k]).children@.len() == 0 && cells0[k].style.background_color is None
                && cells0[k].style.layout.border == (Edges { top: 0, right: 0, bottom: 1, left: 0 }),
            today.wf(),
            days_ok(days@),
            forall|m: int| 0 <= m < i ==> #[trigger] cell_content_spec(out@[m], m, start, today@, days@, weeks@),
            forall|m: int| 0 <= m < i ==> (#[trigger] out@[m]).name == cells0[m].name && out@[m].kind == cells0[m].kind
                && out@[m].events == cells0[m].events && out@[m].parent_node == cells0[m].parent_node,
        decreases 32 - i,
    {
        let cell = rest.remove(0);
        proof {
            assert(cell == cells0[i as int]);
            assert(rest@ =~= cells0.skip(i + 1));
        }
        let filled = if i % 8 == 0 {
            let mut label = String::new();
            push_decimal(&mut label, weeks[3 - i / 8] as u64);
            let week = text(label.as_str()).font_size(FontSizeName::Sm);
            let f = fill_week_cell(cell, week);
            proof {
                assert(f.children@ =~= seq![week]);
                assert(cell_content_spec(f, i as int, start, today@, days@, weeks@));
            }
            f
        } else {
            let k = (i / 8) * 7 + i % 8 - 1;
            let d = &dates[k];
            let f = fill_date_cell(cell, d, today, days, ids);
            proof {
                assert(d@ == start + cell_date_index(i as int));
                assert(f.children@.len() == 1 + day_items(days@, d@).len());
                assert(day_box_spec(f.children@[0], *d));
                assert(cell_content_spec(f, i as int, start, today@, days@, weeks@));
            }
            f
        };
        let ghost prev = out@;
        out.push(filled);
        proof {
            assert forall|m: int| 0 <= m < i + 1 implies #[trigger] cell_content_spec(out@[m], m, start, today@, days@, weeks@) by {
                if m < i {
                    assert(out@[m] == prev[m]);
                }
            }
        }
        i += 1;
    }
    out
}


/// The calendar grid with its 32 empty cells.
/// The calendar grid's own shape: a grid of eight columns (a 33-pixel column of
/// week numbers, then seven equal day columns) and four equal rows, as tall as
/// the space it is given.
pub open spec fn is_calendar_grid(kind: NodeKind, style: Style) -> bool {
    &&& kind == NodeKind::Grid(GridConfig { rows: Some(4), columns: 8 })
    &&& style.layout.display == Display::Grid
    &&& style.layout.grid_template_columns@ == fr_tracks(8).update(0, Track::Length(33))
    &&& style.layout.grid_template_rows@ == fr_tracks(4)
    &&& style.layout.height == Dimension::Percent(100)
}

fn empty_calendar_grid(ids: &mut NodeIdCounter) -> (g: GridBuilder)
    ensures
        g.config.columns == 8,
        is_calendar_grid(g.builder.kind, g.builder.style),
        g.builder.name matches Some(NodeName::Grid(n)) && n@ == "calendar"@,
        g.builder.style.border_color == Some(spec_theme().border),
        g.builder.children@.len() == 0,
        g.builder.parent_node is None,
        g.children@.len() == 32,
        forall|k: int| 0 <= k < 32 ==> (#[trigger] g.children@[k]).children@.len() == 0 && g.children@[k].style.background_color is None
            && g.children@[k].style.layout.border == (Edges { top: 0, right: 0, bottom: 1, left: 0 }),
{
    let ghost first = ids.spec_next();
    let g = grid("calendar", CAL_COLS + 1, Some(CAL_ROWS), ids);
    proof {
        assert forall|k: int| 0 <= k < 32 implies (#[trigger] g.children@[k]).children@.len() == 0
            && g.children@[k].style.background_color is None
            && g.children@[k].style.layout.border == (Edges { top: 0, right: 0, bottom: 1, left: 0 }) by {
            assert(is_grid_item(g.children@[k], "cell"@, id_after(first, k as nat)));
        }
        assert(g.builder.style.layout.grid_template_columns@.len() == 8);
    }
    let g = g.border_color(light_theme().border);
    let g = g.height_full();
    g.first_column_length(33)
}

/// The grid of calendar cells before it is attached: eight columns (the week
/// numbers and the seven days) and four rows, in the theme's border color, its
/// cells filled as `cell_content_spec` says for the four weeks from `start`.
fn calendar_grid(start: &CalDate, today: &CalDate, days: &[DayItems], ids: &mut NodeIdCounter) -> (g: GridBuilder)
    requires
        start.wf(),
        start@ + 27 <= max_day(),
        today.wf(),
        days_ok(days@),
    ensures
        g.config.columns == 8,
        is_calendar_grid(g.builder.kind, g.builder.style),
        g.builder.name matches Some(NodeName::Grid(n)) && n@ == "calendar"@,
        g.builder.style.border_color == Some(spec_theme().border),
        g.builder.children@.len() == 0,
        g.builder.parent_node is None,
        g.children@.len() == 32,
        forall|i: int| 0 <= i < 32 ==> #[trigger] cell_content_spec(g.children@[i], i, start@, today@, days@, spec_weeknumbers(start@, 4)),
{
    let g = empty_calendar_grid(ids);
    let weeks = get_weeknumbers(*start, CAL_ROWS);
    let dates = get_dates(*start, 28);
    proof {
        lemma_weeknumbers_len(start@, 4);
    }
    proof {
        assert(weeks@ == spec_weeknumbers(start@, 4));
        assert(dates@[0]@ == start@);
        assert(dates@.len() == 28);
    }
    let GridBuilder { config, builder, children } = g;
    let filled = fill_calendar_cells(children, weeks.as_slice(), dates.as_slice(), today, days, ids);
    proof {
        assert forall|i: int| 0 <= i < 32 implies #[trigger] cell_content_spec(filled@[i], i, start@, today@, days@, spec_weeknumbers(start@, 4)) by {
            assert(cell_content_spec(filled@[i], i, dates@[0]@, today@, days@, weeks@));
        }
    }
    GridBuilder { config, builder, children: filled }
}

/// The row of weekday names above the calendar grid.
fn weekday_grid(ids: &mut NodeIdCounter) -> (g: GridBuilder)
    ensures
        g.config.columns == 8,
        g.builder.name matches Some(NodeName::Grid(n)) && n@ == "calendar_weekday"@,
        g.builder.style.border_color == Some(spec_theme().border),
        g.builder.children@.len() == 0,
        g.builder.parent_node is None,
        g.children@.len() == 8,
        forall|k: int| 0 <= k < 8 ==> #[trigger] text_builder(g.children@[k], spec_weekdays()[k]),
{
    let headers = get_weekdays();
    let border = light_theme().border;
    let mut kids: Vec<Builder> = Vec::new();
    let mut k: usize = 0;
    proof {
        assert(headers@.map_values(|d: String| d@).len() == 8);
    }
    while k < headers.len()
        invariant
            k <= headers@.len(),
            headers@.map_values(|d: String| d@) == spec_weekdays(),
            kids@.len() == k,
            forall|m: int| 0 <= m < k ==> #[trigger] text_builder(kids@[m], spec_weekdays()[m]),
        decreases headers@.len() - k,
    {
        proof {
            assert(headers@.map_values(|d: String| d@)[k as int] == headers@[k as int]@);
        }
        let kid = text(headers[k].as_str()).py(5).font_size(FontSizeName::Sm).border_color(border);
        kids.push(kid);
        k += 1;
    }
    grid("calendar_weekday", CAL_COLS + 1, None, ids)
        .height_auto()
        .flex_no_grow()
        .border_color(border)
        .border_b(1)
        .first_column_length(33)
        .children(kids)
}

/// The row of weekday names: a grid whose eight cells name the weekdays after
/// an empty first cell, each named after the grid with its index.
pub open spec fn weekday_shows(l: AppLayout, id: u64) -> bool {
    &&& node_of(l, id).name matches NodeName::Grid(n) && n@ == "calendar_weekday"@
    &&& l.children_of(id).len() == 8
    &&& forall|k: int| 0 <= k < 8 ==> {
        &&& text_of(#[trigger] child_node(l, id, k)) == spec_weekdays()[k]
        &&& child_node(l, id, k).name matches NodeName::GridItem(s)
            && s@ == "GRID[calendar_weekday]"@ + seq!['['] + decimal(k as nat) + seq![']']
    }
}

/// The box of a date: named `calendar-cell_` and the date, showing its day of the month.
pub open spec fn day_box_shows(l: AppLayout, id: u64, date: CalDate) -> bool {
    &&& named_other(
        node_of(l, id),
        "calendar-cell_"@ + spec_date_text(date.spec_year() as int, date.spec_month() as nat, date.spec_day() as nat),
    )
    &&& l.children_of(id).len() == 1
    &&& text_of(child_node(l, id, 0)) == decimal(date.spec_day() as nat)
}

/// Cell `i` of the calendar grid: named after the grid with its index; the
/// week number of its row when it opens a row; otherwise the box of its date
/// and the date's items, on today's background when the date is today.
pub open spec fn cell_shows(l: AppLayout, id: u64, i: int, start: int, today: int, days: Seq<DayItems>, weeks: Seq<u32>) -> bool {
    let n = node_of(l, id);
    let day = start + cell_date_index(i);
    &&& n.name matches NodeName::GridItem(s) && s@ == "GRID[calendar]"@ + seq!['['] + decimal(i as nat) + seq![']']
    &&& n.style.border_color == Some(spec_theme().border)
    &&& n.style.layout.border == (Edges { top: 0, right: 0, bottom: 1, left: if i % 8 != 0 { 1 } else { 0 } })
    &&& n.style.background_color == if i % 8 != 0 && day == today { Some(spec_subtle_today()) } else { None::<crate::theme::Color> }
    &&& if i % 8 == 0 {
        &&& l.children_of(id).len() == 1
        &&& text_of(child_node(l, id, 0)) == decimal(row_week(weeks, i) as nat)
    } else {
        &&& l.children_of(id).len() == 1 + day_items(days, day).len()
        &&& exists|dt: CalDate| dt.wf() && dt@ == day && #[trigger] day_box_shows(l, l.children_of(id)[0], dt)
        &&& forall|j: int| 0 <= j < day_items(days, day).len() ==> #[trigger] item_shows(l, l.children_of(id)[1 + j], day_items(days, day)[j])
    }
}

/// The calendar grid: 32 cells, four rows of the week number and seven days.
pub open spec fn calendar_shows(l: AppLayout, id: u64, start: int, today: int, days: Seq<DayItems>, weeks: Seq<u32>) -> bool {
    &&& node_of(l, id).name matches NodeName::Grid(n) && n@ == "calendar"@
    &&& is_calendar_grid(node_of(l, id).kind, node_of(l, id).style)
    &&& l.children_of(id).len() == 32
    &&& forall|i: int| 0 <= i < 32 ==> #[trigger] cell_shows(l, l.children_of(id)[i], i, start, today, days, weeks)
}

proof fn lemma_cell_shows(
    l: AppLayout,
    id: u64,
    b: Builder,
    orig: Builder,
    i: int,
    border: Option<crate::theme::Color>,
    start: int,
    today: int,
    days: Seq<DayItems>,
    weeks: Seq<u32>,
)
    requires
        l.wf(),
        shows(l, id, b),
        0 <= i,
        cell_prepared(orig, b, "GRID[calendar]"@, i, border, 8),
        cell_content_spec(orig, i, start, today, days, weeks),
        border == Some(spec_theme().border),
    ensures
        cell_shows(l, id, i, start, today, days, weeks),
{
    lemma_shows(l, id, b);
    lemma_shows_child(l, id, b, 0);
    let day = start + cell_date_index(i);
    if i % 8 != 0 {
        let dt = choose|dt: CalDate| dt.wf() && dt@ == day && #[trigger] day_box_spec(orig.children@[0], dt);
        let box_id = l.children_of(id)[0];
        lemma_shows(l, box_id, b.children@[0]);
        lemma_shows_child(l, box_id, b.children@[0], 0);
        assert(day_box_shows(l, box_id, dt));
        assert forall|j: int| 0 <= j < day_items(days, day).len() implies #[trigger] item_shows(l, l.children_of(id)[1 + j], day_items(days, day)[j]) by {
            lemma_shows_child(l, id, b, 1 + j);
            assert(item_builder_spec(orig.children@[1 + j], day_items(days, day)[j]));
            lemma_item_shows(l, l.children_of(id)[1 + j], b.children@[1 + j], day_items(days, day)[j]);
        }
    }
}


proof fn lemma_weekday_shows(l: AppLayout, id: u64, b: Builder, g: GridBuilder)
    requires
        l.wf(),
        shows(l, id, b),
        grid_prepared(g, b),
        g.builder.name matches Some(NodeName::Grid(n)) && n@ == "calendar_weekday"@,
        g.builder.children@.len() == 0,
        g.children@.len() == 8,
        forall|k: int| 0 <= k < 8 ==> #[trigger] text_builder(g.children@[k], spec_weekdays()[k]),
    ensures
        weekday_shows(l, id),
{
    lemma_shows(l, id, b);
    reveal_strlit("GRID[");
    reveal_strlit("]");
    reveal_strlit("calendar_weekday");
    reveal_strlit("GRID[calendar_weekday]");
    assert(spec_name_text(g.builder.name->0) =~= "GRID[calendar_weekday]"@);
    assert forall|k: int| 0 <= k < 8 implies {
        &&& text_of(#[trigger] child_node(l, id, k)) == spec_weekdays()[k]
        &&& child_node(l, id, k).name matches NodeName::GridItem(s)
            && s@ == "GRID[calendar_weekday]"@ + seq!['['] + decimal(k as nat) + seq![']']
    } by {
        lemma_shows_child(l, id, b, k);
        assert(b.children@[0 + k] == b.children@[k]);
        assert(text_builder(g.children@[k], spec_weekdays()[k]));
    }
}

proof fn lemma_calendar_shows(
    l: AppLayout,
    id: u64,
    b: Builder,
    g: GridBuilder,
    start: int,
    today: int,
    days: Seq<DayItems>,
    weeks: Seq<u32>,
)
    requires
        l.wf(),
        shows(l, id, b),
        grid_prepared(g, b),
        g.config.columns == 8,
        is_calendar_grid(g.builder.kind, g.builder.style),
        g.builder.name matches Some(NodeName::Grid(n)) && n@ == "calendar"@,
        g.builder.style.border_color == Some(spec_theme().border),
        g.builder.children@.len() == 0,
        g.children@.len() == 32,
        forall|i: int| 0 <= i < 32 ==> #[trigger] cell_content_spec(g.children@[i], i, start, today, days, weeks),
    ensures
        calendar_shows(l, id, start, today, days, weeks),
{
    lemma_shows(l, id, b);
    reveal_strlit("GRID[");
    reveal_strlit("]");
    reveal_strlit("calendar");
    reveal_strlit("GRID[calendar]");
    assert(spec_name_text(g.builder.name->0) =~= "GRID[calendar]"@);
    assert forall|i: int| 0 <= i < 32 implies #[trigger] cell_shows(l, l.children_of(id)[i], i, start, today, days, weeks) by {
        lemma_shows_child(l, id, b, i);
        assert(b.children@[0 + i] == b.children@[i]);
        assert(cell_prepared(g.children@[i], b.children@[i], "GRID[calendar]"@, i, g.builder.style.border_color, 8));
        assert(cell_content_spec(g.children@[i], i, start, today, days, weeks));
        lemma_cell_shows(l, l.children_of(id)[i], b.children@[i], g.children@[i], i, g.builder.style.border_color, start, today, days, weeks);
    }
}

/// What the whole screen shows for the weeks `week_offset` weeks from today's:
/// the header, the content area with the weekday row and the calendar grid of
/// four weeks from the Monday of that week, and the footer.
pub open spec fn app_shows(l: AppLayout, week_offset: i64, today: int, days: Seq<DayItems>, clock: Seq<char>, version: Seq<char>) -> bool {
    let top = l.children_of(l.root_node);
    let start = spec_visible_start(today, week_offset as int);
    &&& top.len() == 3
    &&& exists|vs: CalDate| vs.wf() && vs@ == start && #[trigger] header_shows(l, top[0], vs, week_offset, clock)
    &&& node_of(l, top[1]).name == NodeName::Content
    &&& l.children_of(top[1]).len() == 2
    &&& weekday_shows(l, l.children_of(top[1])[0])
    &&& calendar_shows(l, l.children_of(top[1])[1], start, today, days, spec_weeknumbers(start, 4))
    &&& footer_shows(l, top[2], version)
}


proof fn lemma_keep_past_ids(l0: AppLayout, l1: AppLayout, b: Builder, pos: int)
    requires
        built_at(l0, b, pos),
        l1.nodes == l0.nodes,
        l1.tree == l0.tree,
    ensures
        built_at(l1, b, pos),
{
    assert(unchanged_between(l0, l1, pos, pos + builder_size(b)));
    lemma_built_at_frame(l0, l1, b, pos);
}

/// The facts the screen's build establishes, taken together.
#[verifier::rlimit(100)]
proof fn lemma_app_shows(
    l1: AppLayout,
    l1b: AppLayout,
    l2: AppLayout,
    l2b: AppLayout,
    l3: AppLayout,
    ids: (u64, u64, u64),
    wg0: GridBuilder,
    cg0: GridBuilder,
    weekday_id: u64,
    calendar_id: u64,
    visible_start: CalDate,
    week_offset: i64,
    today: int,
    days: Seq<DayItems>,
    clock: Seq<char>,
    version: Seq<char>,
)
    requires
        l1.wf(),
        visible_start.wf(),
        frame_built(l1, 0, ids, visible_start, week_offset, clock, version),
        l1.children_of(l1.root_node) == seq![ids.0, ids.1, ids.2],
        l1.children_of(ids.1).len() == 0,
        l1b.wf(),
        l1b.nodes == l1.nodes,
        l1b.tree == l1.tree,
        l1b.root_node == l1.root_node,
        exists|bw: Builder| #[trigger] grid_prepared(wg0, bw) && build_effect(l1b, l2, bw, ids.1, weekday_id),
        wg0.builder.name matches Some(NodeName::Grid(n)) && n@ == "calendar_weekday"@,
        wg0.builder.children@.len() == 0,
        wg0.children@.len() == 8,
        forall|k: int| 0 <= k < 8 ==> #[trigger] text_builder(wg0.children@[k], spec_weekdays()[k]),
        l2b.wf(),
        l2b.nodes == l2.nodes,
        l2b.tree == l2.tree,
        l2b.root_node == l2.root_node,
        exists|bc: Builder| #[trigger] grid_prepared(cg0, bc) && build_effect(l2b, l3, bc, ids.1, calendar_id),
        cg0.config.columns == 8,
        is_calendar_grid(cg0.builder.kind, cg0.builder.style),
        cg0.builder.name matches Some(NodeName::Grid(n)) && n@ == "calendar"@,
        cg0.builder.style.border_color == Some(spec_theme().border),
        cg0.builder.children@.len() == 0,
        cg0.children@.len() == 32,
        forall|i: int| 0 <= i < 32 ==> #[trigger] cell_content_spec(
            cg0.children@[i],
            i,
            visible_start@,
            today,
            days,
            spec_weeknumbers(visible_start@, 4),
        ),
        visible_start@ == spec_visible_start(today, week_offset as int),
    ensures
        app_shows(l3, week_offset, today, days, clock, version),
{
    let (header, content, footer) = ids;
    let root = l1.root_node;
    let (hb, cb, fb) = choose|hb: Builder, cb: Builder, fb: Builder|
        #![trigger header_builder_spec(hb, visible_start, week_offset, clock), footer_builder_spec(fb, version), built_at(l1, cb, 0int + builder_size(hb))]
        {
            &&& header_builder_spec(hb, visible_start, week_offset, clock)
            &&& cb.name == Some(NodeName::Content)
            &&& cb.children@.len() == 0
            &&& footer_builder_spec(fb, version)
            &&& built_at(l1, hb, 0)
            &&& built_at(l1, cb, 0int + builder_size(hb))
            &&& built_at(l1, fb, 0int + builder_size(hb) + builder_size(cb))
            &&& ids.0 == l1.nodes@[0].taffy_id
            &&& ids.1 == l1.nodes@[0int + builder_size(hb)].taffy_id
            &&& ids.2 == l1.nodes@[0int + builder_size(hb) + builder_size(cb)].taffy_id
            &&& l1.nodes@.len() == 0int + builder_size(hb) + builder_size(cb) + builder_size(fb)
        };
    let pc = builder_size(hb) as int;
    let pf = pc + builder_size(cb);
    assert(builder_size(cb) == 1);
    lemma_keep_past_ids(l1, l1b, hb, 0);
    lemma_keep_past_ids(l1, l1b, fb, pf);
    let bw = choose|bw: Builder| #[trigger] grid_prepared(wg0, bw) && build_effect(l1b, l2, bw, content, weekday_id);
    let pw = l1b.nodes@.len() as int;
    assert forall|i: int| 0 <= i < pw && i != pc implies (#[trigger] l1b.nodes@[i]).taffy_id != content by {
        if i < pc {
            assert(l1b.nodes@[i].taffy_id != l1b.nodes@[pc].taffy_id);
        } else {
            assert(l1b.nodes@[pc].taffy_id != l1b.nodes@[i].taffy_id);
        }
    }
    lemma_build_keeps(l1b, l2, bw, content, weekday_id, hb, 0);
    lemma_build_keeps(l1b, l2, bw, content, weekday_id, fb, pf);
    lemma_keep_past_ids(l2, l2b, hb, 0);
    lemma_keep_past_ids(l2, l2b, fb, pf);
    lemma_keep_past_ids(l2, l2b, bw, pw);
    let bc = choose|bc: Builder| #[trigger] grid_prepared(cg0, bc) && build_effect(l2b, l3, bc, content, calendar_id);
    assert(l2b.nodes@[pc] == l1b.nodes@[pc]) by {
        assert(l2.nodes@.subrange(0, pw)[pc] == l1b.nodes@[pc]);
    }
    assert forall|i: int| 0 <= i < l2b.nodes@.len() && i != pc implies (#[trigger] l2b.nodes@[i]).taffy_id != content by {
        if i < pc {
            assert(l2b.nodes@[i].taffy_id != l2b.nodes@[pc].taffy_id);
        } else {
            assert(l2b.nodes@[pc].taffy_id != l2b.nodes@[i].taffy_id);
        }
    }
    lemma_build_keeps(l2b, l3, bc, content, calendar_id, hb, 0);
    lemma_build_keeps(l2b, l3, bc, content, calendar_id, fb, pf);
    lemma_build_keeps(l2b, l3, bc, content, calendar_id, bw, pw);
    assert(shows(l3, header, hb));
    assert(shows(l3, footer, fb));
    assert(shows(l3, weekday_id, bw));
    assert(shows(l3, calendar_id, bc));
    lemma_header_shows(l3, header, hb, visible_start, week_offset, clock);
    lemma_footer_shows(l3, footer, fb, version);
    lemma_weekday_shows(l3, weekday_id, bw, wg0);
    lemma_calendar_shows(l3, calendar_id, bc, cg0, visible_start@, today, days, spec_weeknumbers(visible_start@, 4));
    assert(l1b.has_node(root));
    assert(l2b.has_node(root));
    assert(l3.children_of(root) == l2b.children_of(root));
    assert(l2.children_of(root) == l1b.children_of(root));
    assert(l3.children_of(root) =~= seq![header, content, footer]);
    assert(l3.children_of(content) =~= seq![weekday_id, calendar_id]);
    crate::builder::lemma_node_of(l1, pc);
    crate::builder::lemma_node_of(l3, pc);
    assert(l3.nodes@[pc] == l1.nodes@[pc]) by {
        assert(l3.nodes@.subrange(0, l2b.nodes@.len() as int)[pc] == l2b.nodes@[pc]);
    }
    crate::builder::lemma_built_node(l1, cb, pc);
}

/// Builds the whole screen: header, content area and footer under the root, then
/// the weekday row and the calendar grid in the content area (see `app_shows`).
pub fn build_app_layout(week_offset: i64, today: &CalDate, days: &[DayItems], clock_text: &str, version_text: &str) -> (l: AppLayout)
    requires
        today.wf(),
        -15250284452 <= week_offset <= 15250284452,
        min_day() <= today@ - weekday_from_monday(today@),
        min_day() <= spec_visible_start(today@, week_offset as int),
        spec_visible_start(today@, week_offset as int) + 27 <= max_day(),
        days_ok(days@),
    ensures
        l.wf(),
        app_shows(l, week_offset, today@, days@, clock_text@, version_text@),
{
    let mut layout = AppLayout::new();
    let visible_start = visible_start_for_offset(*today, week_offset);
    let ids = build_layout(&mut layout, visible_start, week_offset, clock_text, version_text);
    let content = ids.1;
    let ghost l1 = layout;
    let wg = weekday_grid(&mut layout.ids).parent_node(content);
    let ghost wg0 = wg;
    let ghost l1b = layout;
    let weekday_id = wg.build(&mut layout);
    let ghost l2 = layout;
    let cg = calendar_grid(&visible_start, today, days, &mut layout.ids).parent_node(content);
    let ghost cg0 = cg;
    let ghost l2b = layout;
    let calendar_id = cg.build(&mut layout);
    proof {
        assert(l1.children_of(l1.root_node) =~= seq![ids.0, ids.1, ids.2]);
        lemma_app_shows(
            l1, l1b, l2, l2b, layout, ids, wg0, cg0, weekday_id, calendar_id, visible_start, week_offset, today@, days@,
            clock_text@, version_text@,
        );
    }
    layout
}


/// Whether a name is `Other` with this text.
pub open spec fn is_other(name: NodeName, text: Seq<char>) -> bool {
    name matches NodeName::Other(s) && s@ == text
}

/// How showing the footer view changes a node: the sync icon takes the color and
/// the icon, the sync status the color and the status text, the changes line the
/// text of the latest changes; every other node stays as it was. A changed text
/// is laid out and drawn again, a changed color or icon drawn again.
pub open spec fn footer_update(o: LayoutNode, n: LayoutNode, view: FooterView) -> bool {
    if is_other(o.name, "sync-icon"@) {
        &&& n.style == (crate::style::Style { text_color: view.color, ..o.style })
        &&& if o.kind is Icon { n.kind is Icon && n.kind->Icon_0@ == view.icon@ } else { n.kind == o.kind }
        &&& n == (LayoutNode { kind: n.kind, style: n.style, dirty_screen: true, ..o })
    } else if is_other(o.name, "sync-status"@) {
        &&& n.style == (crate::style::Style { text_color: view.color, ..o.style })
        &&& if o.kind is Text {
            &&& n.kind is Text
            &&& n.kind->Text_0.content@ == view.status@
            &&& n.kind->Text_0.is_pill == o.kind->Text_0.is_pill
            &&& n.kind->Text_0.ellipsis == o.kind->Text_0.ellipsis
            &&& n == (LayoutNode { kind: n.kind, style: n.style, dirty_screen: true, dirty_layout: true, ..o })
        } else {
            n == (LayoutNode { style: n.style, dirty_screen: true, ..o })
        }
    } else if is_other(o.name, "sync-changes"@) && o.kind is Text {
        &&& n.kind is Text
        &&& n.kind->Text_0.content@ == view.latest_changes@
        &&& n.kind->Text_0.is_pill == o.kind->Text_0.is_pill
        &&& n.kind->Text_0.ellipsis == o.kind->Text_0.ellipsis
        &&& n == (LayoutNode { kind: n.kind, dirty_screen: true, dirty_layout: true, ..o })
    } else {
        n == o
    }
}

/// Shows the footer view in the footer's nodes (see `footer_update`).
pub fn apply_sync_footer(layout: &mut AppLayout, view: &FooterView)
    ensures
        final(layout).nodes@.len() == old(layout).nodes@.len(),
        forall|i: int| 0 <= i < old(layout).nodes@.len() ==> footer_update(#[trigger] old(layout).nodes@[i], final(layout).nodes@[i], *view),
        final(layout).tree == old(layout).tree,
        final(layout).root_node == old(layout).root_node,
        final(layout).pending_action == old(layout).pending_action,
        final(layout).ids == old(layout).ids,
{
    let ghost l0 = layout.nodes@;
    let icon_name = NodeName::other("sync-icon");
    let status_name = NodeName::other("sync-status");
    let changes_name = NodeName::other("sync-changes");
    layout.set_text_color_by_name(&icon_name, view.color);
    let ghost l1 = layout.nodes@;
    layout.set_icon_by_name(&icon_name, view.icon);
    let ghost l2 = layout.nodes@;
    layout.set_text_color_by_name(&status_name, view.color);
    let ghost l3 = layout.nodes@;
    layout.set_text_by_name(&status_name, view.status.as_str());
    let ghost l4 = layout.nodes@;
    layout.set_text_by_name(&changes_name, view.latest_changes.as_str());
    proof {
        reveal_strlit("sync-icon");
        reveal_strlit("sync-status");
        reveal_strlit("sync-changes");
        assert("sync-icon"@.len() == 9 && "sync-status"@.len() == 11 && "sync-changes"@.len() == 12);
        assert forall|i: int| 0 <= i < l0.len() implies footer_update(#[trigger] l0[i], layout.nodes@[i], *view) by {
            let o = l0[i];
            assert(l1[i] == l1[i]);
            assert(l2[i] == l2[i]);
            assert(l3[i] == l3[i]);
            assert(l4[i] == l4[i]);
            if is_other(o.name, "sync-icon"@) {
                assert(same_name(o.name, icon_name));
                assert(!same_name(o.name, status_name));
                assert(!same_name(o.name, changes_name));
            } else if is_other(o.name, "sync-status"@) {
                assert(!same_name(o.name, icon_name));
                assert(same_name(o.name, status_name));
                assert(!same_name(o.name, changes_name));
            } else if is_other(o.name, "sync-changes"@) {
                assert(!same_name(o.name, icon_name));
                assert(!same_name(o.name, status_name));
                assert(same_name(o.name, changes_name));
            } else {
                assert(!same_name(o.name, icon_name));
                assert(!same_name(o.name, status_name));
                assert(!same_name(o.name, changes_name));
            }
        }
    }
}


/// What the footer shows for a state at time `now` (see `AppState::footer`).
pub open spec fn footer_view_of(view: FooterView, state: AppState, now: i64) -> bool {
    &&& view.color == (if state.sync_footer.syncing {
        Theme::spec_from_base16(spec_light_base16()).success
    } else {
        Theme::spec_from_base16(spec_light_base16()).text
    })
    &&& view.icon@ == (if state.sync_footer.syncing { "incomplete"@ } else { "circle-fill"@ })
    &&& view.status@ == footer_status_text(state.sync_footer.syncing, state.sync_footer.next_sync_at, now)
    &&& view.latest_changes@ == state.sync_footer.latest_changes@
}

/// Takes a report of the sync worker: the footer state follows it (see
/// `AppState::handle_sync_status`) and the footer's nodes then show that state
/// at `now` (see `footer_update`). Returns whether the calendar has to be built
/// again, which is so when a sync changed something.
pub fn take_sync_report(state: &mut AppState, layout: &mut AppLayout, status: SyncStatus, now: i64) -> (rebuild: bool)
    ensures
        rebuild == (status matches SyncStatus::Synced { changes, .. } && changes@.len() > 0),
        final(state).sync_footer.syncing == (status is Syncing),
        final(state).sync_footer.next_sync_at == match status {
            SyncStatus::Syncing { .. } => old(state).sync_footer.next_sync_at,
            SyncStatus::Synced { next_sync_at, .. } => Some(next_sync_at),
            SyncStatus::Failed { next_sync_at, .. } => Some(next_sync_at),
        },
        final(state).sync_footer.latest_changes@ == spec_latest_changes(status),
        final(state).week_offset == old(state).week_offset,
        final(state).last_navigation_at == old(state).last_navigation_at,
        final(layout).nodes@.len() == old(layout).nodes@.len(),
        exists|view: FooterView| #[trigger] footer_view_of(view, *final(state), now) && forall|i: int|
            0 <= i < old(layout).nodes@.len() ==> footer_update(#[trigger] old(layout).nodes@[i], final(layout).nodes@[i], view),
        final(layout).tree == old(layout).tree,
        final(layout).root_node == old(layout).root_node,
        final(layout).pending_action == old(layout).pending_action,
        final(layout).ids == old(layout).ids,
{
    let rebuild = state.handle_sync_status(status);
    let view = state.footer(now);
    apply_sync_footer(layout, &view);
    assert(footer_view_of(view, *state, now));
    rebuild
}

/// Takes the navigation request that a click queued in the layout, if any: the
/// request is consumed and the shown weeks follow it (see
/// `AppState::handle_layout_action`). Returns whether the screen has to be
/// built again for the new weeks.
pub fn take_layout_action(state: &mut AppState, layout: &mut AppLayout, now: i64) -> (rebuild: bool)
    requires
        i64::MIN <= action_week_offset(old(state).week_offset as int, old(layout).pending_action) <= i64::MAX,
    ensures
        rebuild == action_rebuilds(old(state).week_offset as int, old(layout).pending_action),
        final(state).week_offset == action_week_offset(old(state).week_offset as int, old(layout).pending_action),
        final(state).last_navigation_at == action_last_navigation(
            old(state).week_offset as int,
            old(state).last_navigation_at,
            old(layout).pending_action,
            now,
        ),
        final(state).sync_footer == old(state).sync_footer,
        final(layout).pending_action is None,
        final(layout).nodes@ == old(layout).nodes@,
        final(layout).tree == old(layout).tree,
        final(layout).root_node == old(layout).root_node,
{
    let action = layout.take_action();
    state.handle_layout_action(action, now)
}

} // verus!
