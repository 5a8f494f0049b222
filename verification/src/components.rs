use vstd::prelude::*;
use vstd::string::StringExecFns;
use crate::builder::Builder;
use crate::grid::GridBuilder;
use crate::node::{next_node_id, without_svg, EventCaps, Events, NodeIdCounter, NodeKind, NodeName, TextContent};
use crate::style::{default_layout_spec, default_style_spec, AlignItems, Dimension, Display, Edges, FlexDirection, JustifyContent, LayoutStyle, Style, TextAlign};
use crate::text::{decimal, push_char, push_decimal};
use crate::theme::{light_theme, spec_light_base16, Theme};

verus! {

/// The colors of the screen.
pub open spec fn spec_theme() -> Theme {
    Theme::spec_from_base16(spec_light_base16())
}

/// The number the counter hands out after `k` more numbers, wrapping like the counter.
pub open spec fn id_after(start: u64, k: nat) -> u64 {
    ((start + k) % 0x1_0000_0000_0000_0000) as u64
}

/// Handing out one more number moves on by one, wrapping to zero after the largest.
pub proof fn lemma_id_after_step(start: u64, k: nat)
    ensures
        id_after(start, k + 1) == (if id_after(start, k) == u64::MAX { 0 } else { (id_after(start, k) + 1) as u64 }),
        id_after(start, 0) == start,
{
    let m: int = 0x1_0000_0000_0000_0000;
    let q = (start + k) / m;
    let r = (start + k) % m;
    assert(start + k == q * m + r && 0 <= r < m) by (nonlinear_arith)
        requires q == (start + k) / m, r == (start + k) % m, m > 0;
    if r == m - 1 {
        assert((start + k + 1) % m == 0) by (nonlinear_arith)
            requires start + k == q * m + r, r == m - 1, m > 0;
    } else {
        assert((start + k + 1) % m == r + 1) by (nonlinear_arith)
            requires start + k == q * m + r, 0 <= r < m - 1, m > 0;
    }
}

/// Fewer than 2^64 numbers handed out one after another are all different, so
/// fresh names do not repeat.
pub proof fn lemma_fresh_ids_distinct(start: u64, i: nat, j: nat)
    requires
        i < j,
        j - i < 0x1_0000_0000_0000_0000,
    ensures
        id_after(start, i) != id_after(start, j),
{
    let m: int = 0x1_0000_0000_0000_0000;
    let a = start + i;
    let b = start + j;
    assert(a % m != b % m) by (nonlinear_arith)
        requires
            0 < b - a < m,
            m > 0,
            a >= 0,
    {
        let qa = a / m;
        let qb = b / m;
        assert(a == qa * m + a % m);
        assert(b == qb * m + b % m);
        if a % m == b % m {
            assert((qb - qa) * m == b - a);
            if qb - qa <= 0 {
                assert((qb - qa) * m <= 0);
            } else {
                assert((qb - qa) * m >= m);
            }
        }
    }
}

/// A new builder of this kind: no name, default style, every pointer event, no
/// parent, no children.
pub open spec fn new_builder(b: Builder, kind: NodeKind) -> bool {
    &&& b.name is None
    &&& b.kind == kind
    &&& default_style_spec(b.style)
    &&& b.events == (Events { caps: EventCaps { bits: 7 }, on_click: None })
    &&& b.parent_node is None
    &&& b.children@.len() == 0
}

/// A text node with this content, neither a pill nor cut with an ellipsis.
pub open spec fn plain_text_kind(k: NodeKind, content: Seq<char>) -> bool {
    &&& k is Text
    &&& k->Text_0.content@ == content
    &&& !k->Text_0.is_pill
    &&& !k->Text_0.ellipsis
}

/// A full-width container.
pub fn div() -> (b: Builder)
    ensures
        new_builder(Builder { style: Style { layout: LayoutStyle { width: Dimension::Auto, ..b.style.layout }, ..b.style }, ..b }, NodeKind::Container),
        b.style.layout.width == Dimension::Percent(100),
{
    Builder::new(NodeKind::Container, None).width_full()
}

/// A text node that does not react to the pointer.
pub fn text(val: &str) -> (b: Builder)
    ensures
        b.name is None,
        plain_text_kind(b.kind, val@),
        default_style_spec(b.style),
        b.events == (Events { caps: EventCaps { bits: 0 }, on_click: None }),
        b.parent_node is None,
        b.children@.len() == 0,
{
    Builder::new(NodeKind::Text(TextContent::new(val)), None).events(EventCaps::empty())
}

/// An icon node, named after the icon with a fresh number.
pub fn icon(name: &str, ids: &mut NodeIdCounter) -> (b: Builder)
    ensures
        b.name matches Some(NodeName::Icon(n)) && n@ == without_svg(name@) + seq!['_'] + decimal(old(ids).spec_next() as nat),
        b.kind is Icon && b.kind->Icon_0@ == name@,
        default_style_spec(b.style),
        b.events == (Events { caps: EventCaps { bits: 7 }, on_click: None }),
        b.parent_node is None,
        b.children@.len() == 0,
        final(ids).spec_next() == id_after(old(ids).spec_next(), 1),
{
    proof {
        lemma_id_after_step(ids.spec_next(), 0);
    }
    let node_name = NodeName::icon(name, ids);
    Builder::new(NodeKind::Icon(String::from_str(name)), None).name(node_name)
}

/// A grid of `columns` columns, with `columns * rows` empty cells when the rows
/// are fixed.
pub fn grid(name: &str, columns: usize, rows: Option<usize>, ids: &mut NodeIdCounter) -> (g: GridBuilder)
    requires
        rows matches Some(r) ==> columns * r <= usize::MAX,
    ensures
        crate::grid::new_grid(g, name@, columns, rows, old(ids).spec_next()),
        final(ids).spec_next() == id_after(old(ids).spec_next(), crate::grid::cell_count(columns, rows)),
{
    GridBuilder::new(name, columns, rows, ids)
}

/// The style of a grid cell: a one-pixel bottom border, four pixels of padding,
/// a flex column at most as wide as the grid column, starting at the top.
pub open spec fn grid_item_style(s: Style) -> bool {
    &&& default_style_spec(Style { layout: LayoutStyle {
        display: Display::Flex,
        flex_direction: FlexDirection::Row,
        max_width: Dimension::Auto,
        min_width: Dimension::Auto,
        align_items: None,
        border: Edges::spec_zero(),
        padding: Edges::spec_zero(),
        ..s.layout
    }, ..s })
    &&& s.layout.display == Display::Flex
    &&& s.layout.flex_direction == FlexDirection::Column
    &&& s.layout.max_width == Dimension::Percent(100)
    &&& s.layout.min_width == Dimension::Length(0)
    &&& s.layout.align_items == Some(AlignItems::FlexStart)
    &&& s.layout.border == (Edges { top: 0, right: 0, bottom: 1, left: 0 })
    &&& s.layout.padding == (Edges { top: 4, right: 4, bottom: 4, left: 4 })
}

/// A grid cell named `name`, a dash and the number `id`.
pub open spec fn is_grid_item(b: Builder, name: Seq<char>, id: u64) -> bool {
    &&& b.name matches Some(NodeName::GridItem(n)) && n@ == name + seq!['-'] + decimal(id as nat)
    &&& b.kind == NodeKind::GridItem
    &&& grid_item_style(b.style)
    &&& b.events == (Events { caps: EventCaps { bits: 7 }, on_click: None })
    &&& b.parent_node is None
    &&& b.children@.len() == 0
}

/// A grid cell, named after `name` with a fresh number.
pub fn grid_item(name: &str, ids: &mut NodeIdCounter) -> (b: Builder)
    ensures
        is_grid_item(b, name@, old(ids).spec_next()),
        final(ids).spec_next() == id_after(old(ids).spec_next(), 1),
{
    proof {
        lemma_id_after_step(ids.spec_next(), 0);
    }
    let mut label = String::from_str(name);
    push_char(&mut label, '-');
    let id = next_node_id(ids);
    push_decimal(&mut label, id);
    proof {
        assert(label@ =~= name@ + seq!['-'] + decimal(id as nat));
    }
    Builder {
        name: Some(NodeName::GridItem(label)),
        kind: NodeKind::GridItem,
        style: grid_item_style_new(),
        events: Events { caps: EventCaps::all(), on_click: None },
        parent_node: None,
        children: Vec::new(),
    }
}

fn grid_item_style_new() -> (s: Style)
    ensures
        grid_item_style(s),
        s.layout.grid_template_columns@.len() == 0,
        s.layout.grid_template_rows@.len() == 0,
{
    let mut s = Style::new();
    s.layout.border.bottom = 1;
    s.layout.padding = Edges { top: 4, right: 4, bottom: 4, left: 4 };
    s.layout.display = Display::Flex;
    s.layout.flex_direction = FlexDirection::Column;
    s.layout.max_width = Dimension::Percent(100);
    s.layout.min_width = Dimension::Length(0);
    s.layout.align_items = Some(AlignItems::FlexStart);
    s
}

/// The style of a pill: sized to its content, two pixels of padding above and
/// below, four left and right, twelve-pixel corners, on the raised surface color.
pub open spec fn pill_style(s: Style) -> bool {
    &&& default_style_spec(Style { layout: LayoutStyle { padding: Edges::spec_zero(), ..s.layout }, border_radius: 0, background_color: None, ..s })
    &&& s.layout.padding == (Edges { top: 2, right: 4, bottom: 2, left: 4 })
    &&& s.border_radius == 12
    &&& s.background_color == Some(spec_theme().surface_raised)
}

/// A pill: text on a rounded background that reacts to every pointer event,
/// with a fresh name.
pub fn pill(content: &str, ids: &mut NodeIdCounter) -> (b: Builder)
    ensures
        b.name == Some(NodeName::Pill(old(ids).spec_next())),
        b.kind is Text,
        b.kind->Text_0.content@ == content@,
        b.kind->Text_0.is_pill,
        !b.kind->Text_0.ellipsis,
        pill_style(b.style),
        b.events == (Events { caps: EventCaps { bits: 7 }, on_click: None }),
        b.parent_node is None,
        b.children@.len() == 0,
        final(ids).spec_next() == id_after(old(ids).spec_next(), 1),
{
    proof {
        lemma_id_after_step(ids.spec_next(), 0);
    }
    let name = NodeName::pill(ids);
    let mut b = text(content);
    b.events.caps = EventCaps::all();
    b.style.layout.width = Dimension::Auto;
    b.style.layout.padding = Edges { top: 2, right: 4, bottom: 2, left: 4 };
    b.style.border_radius = 12;
    b.name = Some(name);
    b = b.as_pill();
    b.style.background_color = Some(light_theme().surface_raised);
    b
}

/// What a button shows.
#[derive(Clone, Debug, PartialEq, Eq)]
pub enum ButtonContent {
    Icon(String),
    Text(String),
    IconText { icon: String, text: String, icon_position: IconPosition },
}

/// Where the icon of a button with icon and text stands.
#[derive(Clone, Copy, Debug, PartialEq, Eq, Structural)]
pub enum IconPosition {
    Before,
    After,
}

/// The icon of a button: sixteen pixels square.
pub open spec fn button_icon(b: Builder, icon: Seq<char>, id: u64) -> bool {
    &&& b.name matches Some(NodeName::Icon(n)) && n@ == without_svg(icon) + seq!['_'] + decimal(id as nat)
    &&& b.kind is Icon && b.kind->Icon_0@ == icon
    &&& default_style_spec(Style { layout: LayoutStyle { width: Dimension::Auto, height: Dimension::Auto, ..b.style.layout }, ..b.style })
    &&& b.style.layout.width == Dimension::Length(16)
    &&& b.style.layout.height == Dimension::Length(16)
    &&& b.events == (Events { caps: EventCaps { bits: 7 }, on_click: None })
    &&& b.parent_node is None
    &&& b.children@.len() == 0
}

/// The label of a button: centered text, with `pad` pixels left and right.
pub open spec fn button_label(b: Builder, label: Seq<char>, pad: u32) -> bool {
    &&& b.name is None
    &&& plain_text_kind(b.kind, label)
    &&& default_style_spec(Style { layout: LayoutStyle { padding: Edges::spec_zero(), ..b.style.layout }, text_align: None, ..b.style })
    &&& b.style.layout.padding == (Edges { top: 0, right: pad, bottom: 0, left: pad })
    &&& b.style.text_align == Some(TextAlign::Center)
    &&& b.events == (Events { caps: EventCaps { bits: 0 }, on_click: None })
    &&& b.parent_node is None
    &&& b.children@.len() == 0
}

/// The frame of a button: a clickable rounded row on the raised surface with a
/// one-pixel border all round, centering its content; 36 pixels square around
/// an icon alone, else sized to its content with 12 pixels of padding left and
/// right and 8 above and below.
pub open spec fn button_frame(b: Builder, icon_only: bool) -> bool {
    let l = b.style.layout;
    &&& b.name is None
    &&& b.kind == NodeKind::Container
    &&& b.events == (Events { caps: EventCaps { bits: 1 }, on_click: None })
    &&& b.parent_node is None
    &&& default_style_spec(Style {
        layout: LayoutStyle {
            width: Dimension::Auto,
            height: Dimension::Auto,
            border: Edges::spec_zero(),
            padding: Edges::spec_zero(),
            align_items: None,
            justify_content: None,
            ..l
        },
        border_radius: 0,
        background_color: None,
        border_color: None,
        ..b.style
    })
    &&& b.style.border_radius == 999
    &&& b.style.background_color == Some(spec_theme().surface_raised)
    &&& b.style.border_color == Some(spec_theme().border)
    &&& l.border == (Edges { top: 1, right: 1, bottom: 1, left: 1 })
    &&& l.flex_direction == FlexDirection::Row
    &&& l.align_items == Some(AlignItems::Center)
    &&& l.justify_content == Some(JustifyContent::Center)
    &&& if icon_only {
        &&& l.width == Dimension::Length(36)
        &&& l.height == Dimension::Length(36)
        &&& l.padding == Edges::spec_zero()
    } else {
        &&& l.width == Dimension::Auto
        &&& l.height == Dimension::Auto
        &&& l.padding == (Edges { top: 8, right: 12, bottom: 8, left: 12 })
    }
}

/// A clickable button showing an icon, a text, or both in the given order.
pub fn button(content: ButtonContent, ids: &mut NodeIdCounter) -> (b: Builder)
    ensures
        button_frame(b, content is Icon),
        match content {
            ButtonContent::Icon(name) => {
                &&& b.children@.len() == 1
                &&& button_icon(b.children@[0], name@, old(ids).spec_next())
                &&& final(ids).spec_next() == id_after(old(ids).spec_next(), 1)
            },
            ButtonContent::Text(label) => {
                &&& b.children@.len() == 1
                &&& button_label(b.children@[0], label@, 0)
                &&& final(ids).spec_next() == old(ids).spec_next()
            },
            ButtonContent::IconText { icon, text, icon_position } => {
                &&& b.children@.len() == 2
                &&& final(ids).spec_next() == id_after(old(ids).spec_next(), 1)
                &&& match icon_position {
                    IconPosition::Before => {
                        &&& button_icon(b.children@[0], icon@, old(ids).spec_next())
                        &&& button_label(b.children@[1], text@, 4)
                    },
                    IconPosition::After => {
                        &&& button_label(b.children@[0], text@, 4)
                        &&& button_icon(b.children@[1], icon@, old(ids).spec_next())
                    },
                }
            },
        },
{
    let ghost old_content = content;
    let mut kids: Vec<Builder> = Vec::new();
    let icon_only = match content {
        ButtonContent::Icon(icon_name) => {
            kids.push(icon(icon_name.as_str(), ids).width(16).height(16));
            true
        },
        ButtonContent::Text(label) => {
            kids.push(text(label.as_str()).text_align(TextAlign::Center));
            false
        },
        ButtonContent::IconText { icon: icon_name, text: label, icon_position } => {
            let the_icon = icon(icon_name.as_str(), ids).width(16).height(16);
            let the_text = text(label.as_str()).text_align(TextAlign::Center).px(4);
            match icon_position {
                IconPosition::Before => {
                    kids.push(the_icon);
                    kids.push(the_text);
                },
                IconPosition::After => {
                    kids.push(the_text);
                    kids.push(the_icon);
                },
            }
            false
        },
    };
    let frame = Builder::new(NodeKind::Container, None)
        .events(EventCaps::click())
        .width_auto()
        .height_auto()
        .rounded(999)
        .background(light_theme().surface_raised)
        .border_color(light_theme().border)
        .border_t(1)
        .border_b(1)
        .border_l(1)
        .border_r(1)
        .flex_direction(FlexDirection::Row)
        .align_items(AlignItems::Center)
        .justify_content(JustifyContent::Center)
        .children(kids);
    if icon_only {
        frame.width(36).height(36)
    } else {
        frame.px(12).py(8)
    }
}

} // verus!
