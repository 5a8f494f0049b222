use vstd::prelude::*;
use crate::app::LayoutAction;
use crate::layout::{AppLayout, LayoutNode};
use crate::node::{EventCaps, Events, NodeKind, NodeName, State, TextContent};
use crate::style::{AlignItems, Dimension, Display, Edges, FlexDirection, FontSizeName, JustifyContent, LayoutStyle, Style, TextAlign};
use crate::theme::Color;

verus! {

/// A node that is still to be created, with the nodes to create under it.
#[derive(Debug)]
pub struct Builder {
    /// The name to register the node under; without one it gets a fresh
    /// `NoName` when it is built.
    pub name: Option<NodeName>,
    pub kind: NodeKind,
    pub style: Style,
    pub events: Events,
    /// The node to attach it to; the root when `None`.
    pub parent_node: Option<u64>,
    pub children: Vec<Builder>,
}

impl Builder {
    /// A node of this kind with the default style, reacting to every pointer
    /// event, without name or children.
    pub fn new(kind: NodeKind, parent_node: Option<u64>) -> (b: Self)
        ensures
            b.name is None,
            b.kind == kind,
            crate::style::default_style_spec(b.style),
            b.events == (Events { caps: EventCaps { bits: 7 }, on_click: None }),
            b.parent_node == parent_node,
            b.children@.len() == 0,
    {
        Builder {
            name: None,
            kind,
            style: Style::new(),
            events: Events { caps: EventCaps::all(), on_click: None },
            parent_node,
            children: Vec::new(),
        }
    }

    /// How the node lays out its children.
    pub fn display(self, display: Display) -> (b: Self)
        ensures
            b == (Builder { style: Style { layout: LayoutStyle { display: display, ..self.style.layout }, ..self.style }, ..self }),
    {
        Builder { style: Style { layout: LayoutStyle { display: display, ..self.style.layout }, ..self.style }, ..self }
    }

    /// A fixed width in pixels.
    pub fn width(self, width: u32) -> (b: Self)
        ensures
            b == (Builder { style: Style { layout: LayoutStyle { width: Dimension::Length(width), ..self.style.layout }, ..self.style }, ..self }),
    {
        Builder { style: Style { layout: LayoutStyle { width: Dimension::Length(width), ..self.style.layout }, ..self.style }, ..self }
    }

    /// The full width of the parent.
    pub fn width_full(self) -> (b: Self)
        ensures
            b == (Builder { style: Style { layout: LayoutStyle { width: Dimension::Percent(100), ..self.style.layout }, ..self.style }, ..self }),
    {
        Builder { style: Style { layout: LayoutStyle { width: Dimension::Percent(100), ..self.style.layout }, ..self.style }, ..self }
    }

    /// A width from the content.
    pub fn width_auto(self) -> (b: Self)
        ensures
            b == (Builder { style: Style { layout: LayoutStyle { width: Dimension::Auto, ..self.style.layout }, ..self.style }, ..self }),
    {
        Builder { style: Style { layout: LayoutStyle { width: Dimension::Auto, ..self.style.layout }, ..self.style }, ..self }
    }

    /// A fixed height in pixels.
    pub fn height(self, height: u32) -> (b: Self)
        ensures
            b == (Builder { style: Style { layout: LayoutStyle { height: Dimension::Length(height), ..self.style.layout }, ..self.style }, ..self }),
    {
        Builder { style: Style { layout: LayoutStyle { height: Dimension::Length(height), ..self.style.layout }, ..self.style }, ..self }
    }

    /// The full height of the parent.
    pub fn height_full(self) -> (b: Self)
        ensures
            b == (Builder { style: Style { layout: LayoutStyle { height: Dimension::Percent(100), ..self.style.layout }, ..self.style }, ..self }),
    {
        Builder { style: Style { layout: LayoutStyle { height: Dimension::Percent(100), ..self.style.layout }, ..self.style }, ..self }
    }

    /// A height from the content.
    pub fn height_auto(self) -> (b: Self)
        ensures
            b == (Builder { style: Style { layout: LayoutStyle { height: Dimension::Auto, ..self.style.layout }, ..self.style }, ..self }),
    {
        Builder { style: Style { layout: LayoutStyle { height: Dimension::Auto, ..self.style.layout }, ..self.style }, ..self }
    }

    /// A background color.
    pub fn background(self, color: Color) -> (b: Self)
        ensures
            b == (Builder { style: Style { background_color: Some(color), ..self.style }, ..self }),
    {
        Builder { style: Style { background_color: Some(color), ..self.style }, ..self }
    }

    /// The color of text and icons.
    pub fn text_color(self, color: Color) -> (b: Self)
        ensures
            b == (Builder { style: Style { text_color: color, ..self.style }, ..self }),
    {
        Builder { style: Style { text_color: color, ..self.style }, ..self }
    }

    /// The color of the borders.
    pub fn border_color(self, color: Color) -> (b: Self)
        ensures
            b == (Builder { style: Style { border_color: Some(color), ..self.style }, ..self }),
    {
        Builder { style: Style { border_color: Some(color), ..self.style }, ..self }
    }

    /// The bottom border width.
    pub fn border_b(self, size: u32) -> (b: Self)
        ensures
            b == (Builder { style: Style { layout: LayoutStyle { border: Edges { bottom: size, ..self.style.layout.border }, ..self.style.layout }, ..self.style }, ..self }),
    {
        Builder { style: Style { layout: LayoutStyle { border: Edges { bottom: size, ..self.style.layout.border }, ..self.style.layout }, ..self.style }, ..self }
    }

    /// The top border width.
    pub fn border_t(self, size: u32) -> (b: Self)
        ensures
            b == (Builder { style: Style { layout: LayoutStyle { border: Edges { top: size, ..self.style.layout.border }, ..self.style.layout }, ..self.style }, ..self }),
    {
        Builder { style: Style { layout: LayoutStyle { border: Edges { top: size, ..self.style.layout.border }, ..self.style.layout }, ..self.style }, ..self }
    }

    /// The left border width.
    pub fn border_l(self, size: u32) -> (b: Self)
        ensures
            b == (Builder { style: Style { layout: LayoutStyle { border: Edges { left: size, ..self.style.layout.border }, ..self.style.layout }, ..self.style }, ..self }),
    {
        Builder { style: Style { layout: LayoutStyle { border: Edges { left: size, ..self.style.layout.border }, ..self.style.layout }, ..self.style }, ..self }
    }

    /// The right border width.
    pub fn border_r(self, size: u32) -> (b: Self)
        ensures
            b == (Builder { style: Style { layout: LayoutStyle { border: Edges { right: size, ..self.style.layout.border }, ..self.style.layout }, ..self.style }, ..self }),
    {
        Builder { style: Style { layout: LayoutStyle { border: Edges { right: size, ..self.style.layout.border }, ..self.style.layout }, ..self.style }, ..self }
    }

    /// Left and right padding.
    pub fn px(self, padding: u32) -> (b: Self)
        ensures
            b == (Builder { style: Style { layout: LayoutStyle { padding: Edges { left: padding, right: padding, ..self.style.layout.padding }, ..self.style.layout }, ..self.style }, ..self }),
    {
        Builder { style: Style { layout: LayoutStyle { padding: Edges { left: padding, right: padding, ..self.style.layout.padding }, ..self.style.layout }, ..self.style }, ..self }
    }

    /// Top and bottom padding.
    pub fn py(self, padding: u32) -> (b: Self)
        ensures
            b == (Builder { style: Style { layout: LayoutStyle { padding: Edges { top: padding, bottom: padding, ..self.style.layout.padding }, ..self.style.layout }, ..self.style }, ..self }),
    {
        Builder { style: Style { layout: LayoutStyle { padding: Edges { top: padding, bottom: padding, ..self.style.layout.padding }, ..self.style.layout }, ..self.style }, ..self }
    }

    /// The left margin.
    pub fn margin_left(self, margin: u32) -> (b: Self)
        ensures
            b == (Builder { style: Style { layout: LayoutStyle { margin: Edges { left: margin, ..self.style.layout.margin }, ..self.style.layout }, ..self.style }, ..self }),
    {
        Builder { style: Style { layout: LayoutStyle { margin: Edges { left: margin, ..self.style.layout.margin }, ..self.style.layout }, ..self.style }, ..self }
    }

    /// The top margin.
    pub fn margin_top(self, margin: u32) -> (b: Self)
        ensures
            b == (Builder { style: Style { layout: LayoutStyle { margin: Edges { top: margin, ..self.style.layout.margin }, ..self.style.layout }, ..self.style }, ..self }),
    {
        Builder { style: Style { layout: LayoutStyle { margin: Edges { top: margin, ..self.style.layout.margin }, ..self.style.layout }, ..self.style }, ..self }
    }

    /// The direction children are laid out in.
    pub fn flex_direction(self, direction: FlexDirection) -> (b: Self)
        ensures
            b == (Builder { style: Style { layout: LayoutStyle { flex_direction: direction, ..self.style.layout }, ..self.style }, ..self }),
    {
        Builder { style: Style { layout: LayoutStyle { flex_direction: direction, ..self.style.layout }, ..self.style }, ..self }
    }

    /// Children laid out top to bottom.
    pub fn flex_dir_column(self) -> (b: Self)
        ensures
            b == (Builder { style: Style { layout: LayoutStyle { flex_direction: FlexDirection::Column, ..self.style.layout }, ..self.style }, ..self }),
    {
        Builder { style: Style { layout: LayoutStyle { flex_direction: FlexDirection::Column, ..self.style.layout }, ..self.style }, ..self }
    }

    /// How much of the free space the node takes.
    pub fn flex_grow(self, grow: u32) -> (b: Self)
        ensures
            b == (Builder { style: Style { layout: LayoutStyle { flex_grow: grow, ..self.style.layout }, ..self.style }, ..self }),
    {
        Builder { style: Style { layout: LayoutStyle { flex_grow: grow, ..self.style.layout }, ..self.style }, ..self }
    }

    /// How much the node gives up when space is short.
    pub fn flex_shrink(self, shrink: u32) -> (b: Self)
        ensures
            b == (Builder { style: Style { layout: LayoutStyle { flex_shrink: shrink, ..self.style.layout }, ..self.style }, ..self }),
    {
        Builder { style: Style { layout: LayoutStyle { flex_shrink: shrink, ..self.style.layout }, ..self.style }, ..self }
    }

    /// Cross-axis alignment of the children.
    pub fn align_items(self, align: AlignItems) -> (b: Self)
        ensures
            b == (Builder { style: Style { layout: LayoutStyle { align_items: Some(align), ..self.style.layout }, ..self.style }, ..self }),
    {
        Builder { style: Style { layout: LayoutStyle { align_items: Some(align), ..self.style.layout }, ..self.style }, ..self }
    }

    /// Main-axis distribution of the children.
    pub fn justify_content(self, justify: JustifyContent) -> (b: Self)
        ensures
            b == (Builder { style: Style { layout: LayoutStyle { justify_content: Some(justify), ..self.style.layout }, ..self.style }, ..self }),
    {
        Builder { style: Style { layout: LayoutStyle { justify_content: Some(justify), ..self.style.layout }, ..self.style }, ..self }
    }

    /// Rounded corners of this radius.
    pub fn rounded(self, radius: u32) -> (b: Self)
        ensures
            b == (Builder { style: Style { border_radius: radius, ..self.style }, ..self }),
    {
        Builder { style: Style { border_radius: radius, ..self.style }, ..self }
    }

    /// Horizontal alignment of the text.
    pub fn text_align(self, align: TextAlign) -> (b: Self)
        ensures
            b == (Builder { style: Style { text_align: Some(align), ..self.style }, ..self }),
    {
        Builder { style: Style { text_align: Some(align), ..self.style }, ..self }
    }

    /// The font size.
    pub fn font_size(self, size: FontSizeName) -> (b: Self)
        ensures
            b == (Builder { style: Style { font_size: size, ..self.style }, ..self }),
    {
        Builder { style: Style { font_size: size, ..self.style }, ..self }
    }

    /// Bold text.
    pub fn bold(self) -> (b: Self)
        ensures
            b == (Builder { style: Style { bold: true, ..self.style }, ..self }),
    {
        Builder { style: Style { bold: true, ..self.style }, ..self }
    }

    /// The pointer events the node reacts to.
    pub fn events(self, caps: EventCaps) -> (b: Self)
        ensures
            b == (Builder { events: Events { caps, ..self.events }, ..self }),
    {
        Builder { events: Events { caps, ..self.events }, ..self }
    }

    /// The navigation request a click queues.
    pub fn on_click(self, action: LayoutAction) -> (b: Self)
        ensures
            b == (Builder { events: Events { on_click: Some(action), ..self.events }, ..self }),
    {
        Builder { events: Events { on_click: Some(action), ..self.events }, ..self }
    }

    /// The name the node is registered under.
    pub fn name(self, name: NodeName) -> (b: Self)
        ensures
            b == (Builder { name: Some(name), ..self }),
    {
        Builder { name: Some(name), ..self }
    }

    /// The node to attach this node to (the root otherwise).
    pub fn parent_node(self, parent: u64) -> (b: Self)
        ensures
            b == (Builder { parent_node: Some(parent), ..self }),
    {
        Builder { parent_node: Some(parent), ..self }
    }

    /// The whole layout style.
    pub fn layout(self, layout: LayoutStyle) -> (b: Self)
        ensures
            b == (Builder { style: Style { layout, ..self.style }, ..self }),
    {
        Builder { style: Style { layout, ..self.style }, ..self }
    }

    /// The whole style.
    pub fn style(self, style: Style) -> (b: Self)
        ensures
            b == (Builder { style, ..self }),
    {
        Builder { style, ..self }
    }


    /// A one-pixel bottom border.
    pub fn border_b_1(self) -> (b: Self)
        ensures
            b == (Builder { style: Style { layout: LayoutStyle { border: Edges { bottom: 1, ..self.style.layout.border }, ..self.style.layout }, ..self.style }, ..self }),
    {
        self.border_b(1)
    }

    /// A one-pixel top border.
    pub fn border_t_1(self) -> (b: Self)
        ensures
            b == (Builder { style: Style { layout: LayoutStyle { border: Edges { top: 1, ..self.style.layout.border }, ..self.style.layout }, ..self.style }, ..self }),
    {
        self.border_t(1)
    }

    /// A one-pixel left border.
    pub fn border_l_1(self) -> (b: Self)
        ensures
            b == (Builder { style: Style { layout: LayoutStyle { border: Edges { left: 1, ..self.style.layout.border }, ..self.style.layout }, ..self.style }, ..self }),
    {
        self.border_l(1)
    }

    /// A one-pixel right border.
    pub fn border_r_1(self) -> (b: Self)
        ensures
            b == (Builder { style: Style { layout: LayoutStyle { border: Edges { right: 1, ..self.style.layout.border }, ..self.style.layout }, ..self.style }, ..self }),
    {
        self.border_r(1)
    }

    /// Extra-large rounded corners (twelve pixels).
    pub fn rounded_xl(self) -> (b: Self)
        ensures
            b == (Builder { style: Style { border_radius: 12, ..self.style }, ..self }),
    {
        self.rounded(12)
    }

    /// Text cut to one line, ending in an ellipsis; no effect on other kinds.
    pub fn ellipsis(self) -> (b: Self)
        ensures
            b == (Builder {
                kind: match self.kind {
                    NodeKind::Text(t) => NodeKind::Text(TextContent { ellipsis: true, ..t }),
                    k => k,
                },
                ..self
            }),
    {
        let kind = match self.kind {
            NodeKind::Text(t) => NodeKind::Text(TextContent { ellipsis: true, ..t }),
            k => k,
        };
        Builder { kind, ..self }
    }

    /// Text drawn as a pill; no effect on other kinds.
    pub fn as_pill(self) -> (b: Self)
        ensures
            b == (Builder {
                kind: match self.kind {
                    NodeKind::Text(t) => NodeKind::Text(TextContent { is_pill: true, ..t }),
                    k => k,
                },
                ..self
            }),
    {
        let kind = match self.kind {
            NodeKind::Text(t) => NodeKind::Text(TextContent { is_pill: true, ..t }),
            k => k,
        };
        Builder { kind, ..self }
    }

    pub fn set_name(&mut self, name: NodeName)
        ensures
            *final(self) == (Builder { name: Some(name), ..*old(self) }),
    {
        self.name = Some(name);
    }

    pub fn set_border_color(&mut self, color: Color)
        ensures
            *final(self) == (Builder { style: Style { border_color: Some(color), ..old(self).style }, ..*old(self) }),
    {
        self.style.border_color = Some(color);
    }

    pub fn set_border_l(&mut self, size: u32)
        ensures
            *final(self) == (Builder { style: Style { layout: LayoutStyle { border: Edges { left: size, ..old(self).style.layout.border }, ..old(self).style.layout }, ..old(self).style }, ..*old(self) }),
    {
        self.style.layout.border.left = size;
    }

    pub fn set_border_l_1(&mut self)
        ensures
            *final(self) == (Builder { style: Style { layout: LayoutStyle { border: Edges { left: 1, ..old(self).style.layout.border }, ..old(self).style.layout }, ..old(self).style }, ..*old(self) }),
    {
        self.set_border_l(1);
    }

    pub fn set_flex_direction(&mut self, direction: FlexDirection)
        ensures
            *final(self) == (Builder { style: Style { layout: LayoutStyle { flex_direction: direction, ..old(self).style.layout }, ..old(self).style }, ..*old(self) }),
    {
        self.style.layout.flex_direction = direction;
    }

    pub fn set_background(&mut self, color: Color)
        ensures
            *final(self) == (Builder { style: Style { background_color: Some(color), ..old(self).style }, ..*old(self) }),
    {
        self.style.background_color = Some(color);
    }

    /// Appends a child.
    pub fn child(self, child: Builder) -> (b: Self)
        ensures
            b.name == self.name,
            b.kind == self.kind,
            b.style == self.style,
            b.events == self.events,
            b.parent_node == self.parent_node,
            b.children@ == self.children@.push(child),
    {
        let mut b = self;
        b.children.push(child);
        b
    }

    /// Appends a child.
    pub fn add_child(&mut self, child: Builder)
        ensures
            final(self).name == old(self).name,
            final(self).kind == old(self).kind,
            final(self).style == old(self).style,
            final(self).events == old(self).events,
            final(self).parent_node == old(self).parent_node,
            final(self).children@ == old(self).children@.push(child),
    {
        self.children.push(child);
    }

    /// Replaces the children.
    pub fn children(self, children: Vec<Builder>) -> (b: Self)
        ensures
            b == (Builder { children, ..self }),
    {
        Builder { children, ..self }
    }

}


/// How many nodes building `b` creates: the node itself and all under it.
pub open spec fn builder_size(b: Builder) -> nat
    decreases b, 0nat,
{
    proof {
        assert(decreases_to!(b => b.children));
    }
    1 + children_size(b.children@, b.children@.len())
}

/// How many nodes building the first `n` of `kids` creates.
pub open spec fn children_size(kids: Seq<Builder>, n: nat) -> nat
    decreases kids, n,
{
    if n == 0 || n > kids.len() {
        0
    } else {
        children_size(kids, (n - 1) as nat) + builder_size(kids[n - 1])
    }
}

/// A fresh node that `b` describes: its kind, style, events and name (a
/// `NoName` when `b` has none), not hovered, pressed or focused, visible, and
/// waiting for layout and drawing.
pub open spec fn node_matches(n: LayoutNode, b: Builder) -> bool {
    &&& n.kind == b.kind
    &&& n.style == b.style
    &&& n.events == b.events
    &&& match b.name {
        Some(name) => n.name == name,
        None => n.name is NoName,
    }
    &&& n.state == (State { hovered: false, pressed: false, focused: false, visible: true })
    &&& n.dirty_layout
    &&& n.dirty_screen
}

/// The nodes from position `pos` of the layout's node list are the tree that
/// `b` describes, in pre-order: the node for `b` first, then the subtree of each
/// child in turn; and each node's children in the tree are exactly the nodes of
/// its children, in order.
pub open spec fn built_at(l: AppLayout, b: Builder, pos: int) -> bool
    decreases b, 0nat,
{
    proof {
        assert(decreases_to!(b => b.children));
    }
    &&& 0 <= pos
    &&& pos + builder_size(b) <= l.nodes@.len()
    &&& node_matches(l.nodes@[pos], b)
    &&& l.children_of(l.nodes@[pos].taffy_id) == Seq::new(
        b.children@.len(),
        |k: int| l.nodes@[pos + 1 + children_size(b.children@, k as nat)].taffy_id,
    )
    &&& kids_built_at(l, b.children@, pos + 1, b.children@.len())
}

/// The first `n` of `kids` are built one after another from position `first`.
pub open spec fn kids_built_at(l: AppLayout, kids: Seq<Builder>, first: int, n: nat) -> bool
    decreases kids, n,
{
    if n == 0 {
        true
    } else if n > kids.len() {
        false
    } else {
        &&& kids_built_at(l, kids, first, (n - 1) as nat)
        &&& built_at(l, kids[n - 1], first + children_size(kids, (n - 1) as nat))
    }
}

/// Between positions `lo` and `hi` the second layout holds the same node
/// descriptions as the first, and those nodes have the same children.
pub open spec fn unchanged_between(l1: AppLayout, l2: AppLayout, lo: int, hi: int) -> bool {
    &&& 0 <= lo <= hi <= l1.nodes@.len() <= l2.nodes@.len()
    &&& forall|i: int| lo <= i < hi ==> #[trigger] l2.nodes@[i] == l1.nodes@[i]
    &&& forall|i: int|
        lo <= i < hi ==> l2.children_of(#[trigger] l1.nodes@[i].taffy_id) == l1.children_of(l1.nodes@[i].taffy_id)
}

/// What building `b` into `l0` with the new node attached to `target` did,
/// giving `l1` and the new node `id`: the nodes of `b` were appended to the
/// node list and form the tree `b` describes, `id` is the first of them and the
/// last child of `target`, and no other node that was there changed children.
pub open spec fn build_effect(l0: AppLayout, l1: AppLayout, b: Builder, target: u64, id: u64) -> bool {
    &&& l1.wf()
    &&& l1.nodes@.len() == l0.nodes@.len() + builder_size(b)
    &&& l1.nodes@.subrange(0, l0.nodes@.len() as int) == l0.nodes@
    &&& id == l1.nodes@[l0.nodes@.len() as int].taffy_id
    &&& !l0.has_node(id)
    &&& built_at(l1, b, l0.nodes@.len() as int)
    &&& l1.children_of(target) == l0.children_of(target).push(id)
    &&& forall|n: u64| l0.has_node(n) && n != target ==> #[trigger] l1.children_of(n) == l0.children_of(n)
    &&& forall|n: u64| l0.has_node(n) ==> #[trigger] l1.has_node(n)
    &&& l1.root_node == l0.root_node
    &&& l1.pending_action == l0.pending_action
}

/// The node a builder with this parent is attached to.
pub open spec fn attach_target(l: AppLayout, parent: Option<u64>) -> u64 {
    match parent {
        Some(p) => p,
        None => l.root_node,
    }
}

proof fn lemma_children_size_mono(kids: Seq<Builder>, i: nat, j: nat)
    requires
        i <= j <= kids.len(),
    ensures
        children_size(kids, i) <= children_size(kids, j),
    decreases j,
{
    if i < j {
        lemma_children_size_mono(kids, i, (j - 1) as nat);
    }
}

/// A built tree stays built while its nodes and their children stay as they are.
pub proof fn lemma_built_at_frame(l1: AppLayout, l2: AppLayout, b: Builder, pos: int)
    requires
        built_at(l1, b, pos),
        unchanged_between(l1, l2, pos, pos + builder_size(b)),
    ensures
        built_at(l2, b, pos),
    decreases b, 0nat,
{
    assert(decreases_to!(b => b.children));
    let kids = b.children@;
    lemma_kids_frame(l1, l2, kids, pos + 1, kids.len());
    assert forall|k: int| 0 <= k < kids.len() implies pos + 1 + #[trigger] children_size(kids, k as nat) < pos + builder_size(b) by {
        lemma_children_size_mono(kids, (k + 1) as nat, kids.len());
        assert(children_size(kids, (k + 1) as nat) == children_size(kids, k as nat) + builder_size(kids[k]));
        assert(builder_size(kids[k]) >= 1);
    }
    assert(l2.nodes@[pos] == l1.nodes@[pos]);
    assert(Seq::new(kids.len(), |k: int| l2.nodes@[pos + 1 + children_size(kids, k as nat)].taffy_id)
        =~= Seq::new(kids.len(), |k: int| l1.nodes@[pos + 1 + children_size(kids, k as nat)].taffy_id));
}

proof fn lemma_kids_frame(l1: AppLayout, l2: AppLayout, kids: Seq<Builder>, first: int, n: nat)
    requires
        kids_built_at(l1, kids, first, n),
        unchanged_between(l1, l2, first, first + children_size(kids, n)),
    ensures
        kids_built_at(l2, kids, first, n),
    decreases kids, n,
{
    if n > 0 {
        let m = (n - 1) as nat;
        lemma_children_size_mono(kids, m, n);
        lemma_kids_frame(l1, l2, kids, first, m);
        lemma_built_at_frame(l1, l2, kids[m as int], first + children_size(kids, m));
    }
}

/// Building something else under `target` leaves a built tree that does not
/// contain `target` as it was.
pub proof fn lemma_build_keeps(l0: AppLayout, l1: AppLayout, other: Builder, target: u64, other_id: u64, b: Builder, pos: int)
    requires
        l0.wf(),
        build_effect(l0, l1, other, target, other_id),
        built_at(l0, b, pos),
        forall|i: int| pos <= i < pos + builder_size(b) ==> (#[trigger] l0.nodes@[i]).taffy_id != target,
    ensures
        built_at(l1, b, pos),
{
    let hi = pos + builder_size(b);
    assert forall|i: int| pos <= i < hi implies #[trigger] l1.nodes@[i] == l0.nodes@[i] by {
        assert(l1.nodes@.subrange(0, l0.nodes@.len() as int)[i] == l0.nodes@[i]);
    }
    assert forall|i: int| pos <= i < hi implies l1.children_of(#[trigger] l0.nodes@[i].taffy_id)
        == l0.children_of(l0.nodes@[i].taffy_id) by {
        assert(l0.has_node(l0.nodes@[i].taffy_id));
        assert(l0.nodes@[i].taffy_id != target);
    }
    lemma_built_at_frame(l0, l1, b, pos);
}

/// The position in the node list of the node with this id.
pub open spec fn node_index(l: AppLayout, id: u64) -> int {
    choose|i: int| 0 <= i < l.nodes@.len() && l.nodes@[i].taffy_id == id
}

/// The description of the node with this id.
pub open spec fn node_of(l: AppLayout, id: u64) -> LayoutNode {
    l.nodes@[node_index(l, id)]
}

/// In a well-formed layout a node's id finds its own description.
pub proof fn lemma_node_of(l: AppLayout, i: int)
    requires
        l.wf(),
        0 <= i < l.nodes@.len(),
    ensures
        node_of(l, l.nodes@[i].taffy_id) == l.nodes@[i],
        node_index(l, l.nodes@[i].taffy_id) == i,
{
    let id = l.nodes@[i].taffy_id;
    assert(exists|j: int| 0 <= j < l.nodes@.len() && l.nodes@[j].taffy_id == id);
    let j = node_index(l, id);
    if j != i {
        if j < i {
            assert(l.nodes@[j].taffy_id != l.nodes@[i].taffy_id);
        } else {
            assert(l.nodes@[i].taffy_id != l.nodes@[j].taffy_id);
        }
    }
}

proof fn lemma_kids_built_get(l: AppLayout, kids: Seq<Builder>, first: int, n: nat, k: int)
    requires
        kids_built_at(l, kids, first, n),
        0 <= k < n,
    ensures
        built_at(l, kids[k], first + children_size(kids, k as nat)),
    decreases n,
{
    if k < n - 1 {
        lemma_kids_built_get(l, kids, first, (n - 1) as nat, k);
    }
}

/// Child `k` of a built node is the first node of child `k`'s built subtree.
pub proof fn lemma_built_child(l: AppLayout, b: Builder, pos: int, k: int)
    requires
        built_at(l, b, pos),
        0 <= k < b.children@.len(),
    ensures
        built_at(l, b.children@[k], pos + 1 + children_size(b.children@, k as nat)),
        l.children_of(l.nodes@[pos].taffy_id).len() == b.children@.len(),
        l.children_of(l.nodes@[pos].taffy_id)[k] == l.nodes@[pos + 1 + children_size(b.children@, k as nat)].taffy_id,
{
    lemma_kids_built_get(l, b.children@, pos + 1, b.children@.len(), k);
}

/// The node built for `b` at `pos` is described as `b` says.
pub proof fn lemma_built_node(l: AppLayout, b: Builder, pos: int)
    requires
        built_at(l, b, pos),
    ensures
        0 <= pos < l.nodes@.len(),
        node_matches(l.nodes@[pos], b),
        l.children_of(l.nodes@[pos].taffy_id).len() == b.children@.len(),
{
}

/// Node `id` of the layout is the first node of a built tree of `b`.
pub open spec fn shows(l: AppLayout, id: u64, b: Builder) -> bool {
    exists|pos: int| built_at(l, b, pos) && l.nodes@[pos].taffy_id == id
}

/// A node that shows `b` is described as `b` says and has as many children.
pub proof fn lemma_shows(l: AppLayout, id: u64, b: Builder)
    requires
        l.wf(),
        shows(l, id, b),
    ensures
        node_matches(node_of(l, id), b),
        l.children_of(id).len() == b.children@.len(),
{
    let pos = choose|pos: int| built_at(l, b, pos) && l.nodes@[pos].taffy_id == id;
    lemma_node_of(l, pos);
}

/// Child `k` of a node that shows `b` shows child `k` of `b`.
pub proof fn lemma_shows_child(l: AppLayout, id: u64, b: Builder, k: int)
    requires
        l.wf(),
        shows(l, id, b),
        0 <= k < b.children@.len(),
    ensures
        shows(l, l.children_of(id)[k], b.children@[k]),
        node_matches(node_of(l, l.children_of(id)[k]), b.children@[k]),
        l.children_of(l.children_of(id)[k]).len() == b.children@[k].children@.len(),
{
    let pos = choose|pos: int| built_at(l, b, pos) && l.nodes@[pos].taffy_id == id;
    lemma_built_child(l, b, pos, k);
    let cpos = pos + 1 + children_size(b.children@, k as nat);
    assert(built_at(l, b.children@[k], cpos) && l.nodes@[cpos].taffy_id == l.children_of(id)[k]);
    lemma_shows(l, l.children_of(id)[k], b.children@[k]);
}

impl Builder {
    /// Creates the node, attached as last child of `parent_node` (the root when
    /// there is none), then the nodes of its children under it, in order.
    /// Returns the new node's id.
    pub fn build(self, layout: &mut AppLayout) -> (id: u64)
        requires
            old(layout).wf(),
            self.parent_node matches Some(p) ==> old(layout).has_node(p),
        ensures
            build_effect(*old(layout), *final(layout), self, attach_target(*old(layout), self.parent_node), id),
    {
        let parent = self.parent_node;
        self.build_under(layout, parent)
    }

    fn build_under(self, layout: &mut AppLayout, parent: Option<u64>) -> (id: u64)
        requires
            old(layout).wf(),
            parent matches Some(p) ==> old(layout).has_node(p),
        ensures
            build_effect(*old(layout), *final(layout), self, attach_target(*old(layout), parent), id),
        decreases builder_size(self),
    {
        let ghost l0 = *layout;
        let ghost b0 = self;
        let ghost target = attach_target(l0, parent);
        let ghost start = l0.nodes@.len() as int;
        let Builder { name, kind, style, events, parent_node: _, children } = self;
        let name = match name {
            Some(n) => n,
            None => NodeName::no_name(&mut layout.ids),
        };
        let node_id = layout.create_node(name, kind, style, events, parent);
        let ghost kids0 = children@;
        let mut kids = children;
        let n = kids.len();
        let mut k: usize = 0;
        assert(kids0.skip(0) =~= kids0);
        assert(layout.nodes@.subrange(0, start) =~= l0.nodes@);
        assert(Seq::new(0, |j: int| layout.nodes@[start + 1 + children_size(kids0, j as nat)].taffy_id) =~= Seq::<u64>::empty());
        #[verifier::loop_isolation(false)]
        while k < n
            invariant
                layout.wf(),
                n == kids0.len(),
                k <= n,
                kids@ == kids0.skip(k as int),
                b0.children@ == kids0,
                start == l0.nodes@.len(),
                layout.nodes@.len() == start + 1 + children_size(kids0, k as nat),
                layout.nodes@.subrange(0, start) == l0.nodes@,
                layout.nodes@[start].taffy_id == node_id,
                node_matches(layout.nodes@[start], b0),
                layout.children_of(node_id) == Seq::new(
                    k as nat,
                    |j: int| layout.nodes@[start + 1 + children_size(kids0, j as nat)].taffy_id,
                ),
                kids_built_at(*layout, kids0, start + 1, k as nat),
                layout.has_node(node_id),
                !l0.has_node(node_id),
                target == attach_target(l0, parent),
                l0.has_node(target),
                layout.children_of(target) == l0.children_of(target).push(node_id),
                forall|m: u64| l0.has_node(m) && m != target ==> #[trigger] layout.children_of(m) == l0.children_of(m),
                forall|m: u64| l0.has_node(m) ==> #[trigger] layout.has_node(m),
                layout.root_node == l0.root_node,
                layout.pending_action == l0.pending_action,
                builder_size(b0) == 1 + children_size(kids0, n as nat),
            decreases n - k,
        {
            let kid = kids.remove(0);
            let ghost before = *layout;
            let ghost pos = start + 1 + children_size(kids0, k as nat);
            proof {
                assert(kid == kids0[k as int]);
                assert(kids@ =~= kids0.skip(k + 1));
                lemma_children_size_mono(kids0, (k + 1) as nat, n as nat);
                assert(children_size(kids0, (k + 1) as nat) == children_size(kids0, k as nat) + builder_size(kid));
                assert(builder_size(kid) < builder_size(b0));
            }
            let kid_id = kid.build_under(layout, Some(node_id));
            proof {
                assert(layout.nodes@.subrange(0, start) =~= l0.nodes@) by {
                    assert forall|i: int| 0 <= i < start implies layout.nodes@[i] == l0.nodes@[i] by {
                        assert(layout.nodes@.subrange(0, before.nodes@.len() as int)[i] == before.nodes@[i]);
                        assert(before.nodes@.subrange(0, start)[i] == l0.nodes@[i]);
                    }
                }
                assert forall|i: int| 0 <= i < before.nodes@.len() implies #[trigger] layout.nodes@[i] == before.nodes@[i] by {
                    assert(layout.nodes@.subrange(0, before.nodes@.len() as int)[i] == before.nodes@[i]);
                }
                assert forall|i: int| start + 1 <= i < pos implies layout.children_of(#[trigger] before.nodes@[i].taffy_id)
                    == before.children_of(before.nodes@[i].taffy_id) by {
                    assert(before.has_node(before.nodes@[i].taffy_id));
                    assert(before.nodes@[i].taffy_id != before.nodes@[start].taffy_id);
                }
                assert(unchanged_between(before, *layout, start + 1, pos));
                lemma_kids_frame(before, *layout, kids0, start + 1, k as nat);
                assert(kids_built_at(*layout, kids0, start + 1, (k + 1) as nat));
                assert forall|j: int| 0 <= j < k implies start + 1 + #[trigger] children_size(kids0, j as nat) < pos by {
                    lemma_children_size_mono(kids0, (j + 1) as nat, k as nat);
                    assert(children_size(kids0, (j + 1) as nat) == children_size(kids0, j as nat) + builder_size(kids0[j]));
                    assert(builder_size(kids0[j]) >= 1);
                }
                assert(layout.children_of(node_id) == before.children_of(node_id).push(kid_id));
                assert(layout.children_of(node_id) =~= Seq::new(
                    (k + 1) as nat,
                    |j: int| layout.nodes@[start + 1 + children_size(kids0, j as nat)].taffy_id,
                ));
                assert forall|m: u64| l0.has_node(m) && m != target implies #[trigger] layout.children_of(m) == l0.children_of(m) by {
                    assert(before.has_node(m));
                }
                assert(before.has_node(target));
            }
            k += 1;
        }
        proof {
            assert(built_at(*layout, b0, start));
        }
        node_id
    }
}

} // verus!
