use vstd::prelude::*;
use vstd::string::StringExecFns;
use crate::builder::{attach_target, build_effect, Builder};
use crate::components::{grid_item, id_after, is_grid_item, spec_theme};
use crate::layout::AppLayout;
use crate::node::{spec_name_text, EventCaps, Events, GridConfig, NodeIdCounter, NodeKind, NodeName};
use crate::style::{default_style_scalars, Dimension, Display, Edges, LayoutStyle, Style, Track};
use crate::text::{decimal, push_char, push_decimal};
use crate::theme::{light_theme, Color};

verus! {

/// A grid node with its cells, which are named and bordered when it is built.
#[derive(Debug)]
pub struct GridBuilder {
    pub config: GridConfig,
    pub builder: Builder,
    pub children: Vec<Builder>,
}

/// How many cells a new grid gets: one per column and row when the rows are
/// fixed, none otherwise.
pub open spec fn cell_count(columns: usize, rows: Option<usize>) -> nat {
    match rows {
        Some(r) => (columns * r) as nat,
        None => 0,
    }
}

/// `n` tracks of one share each.
pub open spec fn fr_tracks(n: nat) -> Seq<Track> {
    Seq::new(n, |i: int| Track::Fr(1))
}

/// The style of a new grid: a full-width grid of automatic height that grows
/// and shrinks, with one equal track per column (and per row when the rows are
/// fixed), bordered in the theme's orange; otherwise the default style.
pub open spec fn grid_style(s: Style, columns: usize, rows: Option<usize>) -> bool {
    &&& default_style_scalars(Style {
        layout: LayoutStyle { display: Display::Flex, width: Dimension::Auto, flex_grow: 0, ..s.layout },
        border_color: None,
        ..s
    })
    &&& s.layout.display == Display::Grid
    &&& s.layout.width == Dimension::Percent(100)
    &&& s.layout.flex_grow == 1
    &&& s.layout.grid_template_columns@ == fr_tracks(columns as nat)
    &&& s.layout.grid_template_rows@ == match rows {
        Some(r) => fr_tracks(r as nat),
        None => Seq::<Track>::empty(),
    }
    &&& s.border_color == Some(spec_theme().raw.base09)
}

/// A new grid named `name`: its node and its empty cells, each a grid item named
/// `cell` with the next fresh number from `first_id` on.
pub open spec fn new_grid(g: GridBuilder, name: Seq<char>, columns: usize, rows: Option<usize>, first_id: u64) -> bool {
    &&& g.config == (GridConfig { rows, columns })
    &&& g.builder.name matches Some(NodeName::Grid(n)) && n@ == name
    &&& g.builder.kind == NodeKind::Grid(GridConfig { rows, columns })
    &&& grid_style(g.builder.style, columns, rows)
    &&& g.builder.events == (Events { caps: EventCaps { bits: 7 }, on_click: None })
    &&& g.builder.parent_node is None
    &&& g.builder.children@.len() == 0
    &&& g.children@.len() == cell_count(columns, rows)
    &&& forall|i: int| 0 <= i < g.children@.len() ==> is_grid_item(#[trigger] g.children@[i], "cell"@, id_after(first_id, i as nat))
}

/// Cell `i` of a grid as it is built: named after the grid's name text with
/// `[i]` appended, in the grid's border color when the grid has one, with a
/// one-pixel left border unless it opens a row; otherwise as it was.
pub open spec fn cell_prepared(orig: Builder, cell: Builder, grid_text: Seq<char>, i: int, border: Option<Color>, columns: usize) -> bool {
    &&& cell.name matches Some(NodeName::GridItem(n)) && n@ == grid_text + seq!['['] + decimal(i as nat) + seq![']']
    &&& cell.kind == orig.kind
    &&& cell.events == orig.events
    &&& cell.parent_node == orig.parent_node
    &&& cell.children == orig.children
    &&& cell.style == (Style {
        layout: LayoutStyle {
            border: Edges {
                left: if i % (columns as int) != 0 { 1 } else { orig.style.layout.border.left },
                ..orig.style.layout.border
            },
            ..orig.style.layout
        },
        border_color: if border is Some { border } else { orig.style.border_color },
        ..orig.style
    })
}

/// The node that building grid `g` creates: the grid's node with its own
/// children first, then every cell, prepared.
pub open spec fn grid_prepared(g: GridBuilder, b: Builder) -> bool {
    let own = g.builder.children@.len();
    &&& b.name == g.builder.name
    &&& b.kind == g.builder.kind
    &&& b.style == g.builder.style
    &&& b.events == g.builder.events
    &&& b.parent_node == g.builder.parent_node
    &&& b.children@.len() == own + g.children@.len()
    &&& b.children@.subrange(0, own as int) == g.builder.children@
    &&& forall|i: int| 0 <= i < g.children@.len() ==> cell_prepared(
        g.children@[i],
        #[trigger] b.children@[own + i],
        spec_name_text(g.builder.name->0),
        i,
        g.builder.style.border_color,
        g.config.columns,
    )
}

impl GridBuilder {
    /// A grid named `name` with `columns` columns and, when the rows are fixed,
    /// `columns * rows` empty cells.
    pub fn new(name: &str, columns: usize, rows: Option<usize>, ids: &mut NodeIdCounter) -> (g: Self)
        requires
            rows matches Some(r) ==> columns * r <= usize::MAX,
        ensures
            new_grid(g, name@, columns, rows, old(ids).spec_next()),
            final(ids).spec_next() == id_after(old(ids).spec_next(), cell_count(columns, rows)),
    {
        let config = GridConfig { rows, columns };
        let mut column_tracks: Vec<Track> = Vec::new();
        let mut i: usize = 0;
        while i < columns
            invariant
                i <= columns,
                column_tracks@ == fr_tracks(i as nat),
            decreases columns - i,
        {
            column_tracks.push(Track::Fr(1));
            i += 1;
            assert(column_tracks@ =~= fr_tracks(i as nat));
        }
        let mut row_tracks: Vec<Track> = Vec::new();
        let mut cells: Vec<Builder> = Vec::new();
        let ghost first_id = ids.spec_next();
        match rows {
            Some(row_count) => {
                let mut j: usize = 0;
                while j < row_count
                    invariant
                        j <= row_count,
                        row_tracks@ == fr_tracks(j as nat),
                    decreases row_count - j,
                {
                    row_tracks.push(Track::Fr(1));
                    j += 1;
                    assert(row_tracks@ =~= fr_tracks(j as nat));
                }
                let count = columns * row_count;
                let mut k: usize = 0;
                while k < count
                    invariant
                        k <= count,
                        cells@.len() == k,
                        ids.spec_next() == id_after(first_id, k as nat),
                        forall|m: int| 0 <= m < k ==> is_grid_item(#[trigger] cells@[m], "cell"@, id_after(first_id, m as nat)),
                    decreases count - k,
                {
                    proof {
                        reveal_strlit("cell");
                    }
                    let ghost before = ids.spec_next();
                    let cell = grid_item("cell", ids);
                    cells.push(cell);
                    k += 1;
                    proof {
                        assert(id_after(before, 1) == id_after(first_id, k as nat)) by (nonlinear_arith)
                            requires
                                before == id_after(first_id, (k - 1) as nat),
                                k >= 1,
                        {
                        }
                        assert(cells@[k - 1] == cell);
                    }
                }
            },
            None => {},
        }
        let b = Builder::new(NodeKind::Grid(config), None)
            .name(NodeName::Grid(String::from_str(name)))
            .width_full()
            .height_auto()
            .display(Display::Grid)
            .flex_grow(1)
            .flex_shrink(1);
        let layout = LayoutStyle { grid_template_columns: column_tracks, grid_template_rows: row_tracks, ..b.style.layout };
        let b = Builder { style: Style { layout, ..b.style }, ..b };
        let b = b.border_color(light_theme().raw.base09);
        proof {
            assert(id_after(first_id, 0) == first_id);
        }
        GridBuilder { config, builder: b, children: cells }
    }

    /// Attaches the grid to this node instead of the root.
    pub fn parent_node(self, parent_node_id: u64) -> (g: Self)
        ensures
            g == (GridBuilder { builder: Builder { parent_node: Some(parent_node_id), ..self.builder }, ..self }),
    {
        GridBuilder { builder: self.builder.parent_node(parent_node_id), ..self }
    }

    /// The grid does not grow into free space.
    pub fn flex_no_grow(self) -> (g: Self)
        ensures
            g == (GridBuilder {
                builder: Builder {
                    style: Style { layout: LayoutStyle { flex_grow: 0, ..self.builder.style.layout }, ..self.builder.style },
                    ..self.builder
                },
                ..self
            }),
    {
        GridBuilder { builder: self.builder.flex_grow(0), ..self }
    }

    /// The full height of the parent.
    pub fn height_full(self) -> (g: Self)
        ensures
            g == (GridBuilder {
                builder: Builder {
                    style: Style { layout: LayoutStyle { height: Dimension::Percent(100), ..self.builder.style.layout }, ..self.builder.style },
                    ..self.builder
                },
                ..self
            }),
    {
        GridBuilder { builder: self.builder.height_full(), ..self }
    }

    /// A height from the content.
    pub fn height_auto(self) -> (g: Self)
        ensures
            g == (GridBuilder {
                builder: Builder {
                    style: Style { layout: LayoutStyle { height: Dimension::Auto, ..self.builder.style.layout }, ..self.builder.style },
                    ..self.builder
                },
                ..self
            }),
    {
        GridBuilder { builder: self.builder.height_auto(), ..self }
    }

    /// A background color.
    pub fn background(self, color: Color) -> (g: Self)
        ensures
            g == (GridBuilder { builder: Builder { style: Style { background_color: Some(color), ..self.builder.style }, ..self.builder }, ..self }),
    {
        GridBuilder { builder: self.builder.background(color), ..self }
    }

    /// The border color of the grid and of its cells.
    pub fn border_color(self, color: Color) -> (g: Self)
        ensures
            g == (GridBuilder { builder: Builder { style: Style { border_color: Some(color), ..self.builder.style }, ..self.builder }, ..self }),
    {
        GridBuilder { builder: self.builder.border_color(color), ..self }
    }

    /// The bottom border width of the grid.
    pub fn border_b(self, border: u32) -> (g: Self)
        ensures
            g == (GridBuilder {
                builder: Builder {
                    style: Style {
                        layout: LayoutStyle { border: Edges { bottom: border, ..self.builder.style.layout.border }, ..self.builder.style.layout },
                        ..self.builder.style
                    },
                    ..self.builder
                },
                ..self
            }),
    {
        GridBuilder { builder: self.builder.border_b(border), ..self }
    }

    /// Replaces the cells.
    pub fn children(self, children: Vec<Builder>) -> (g: Self)
        ensures
            g == (GridBuilder { children, ..self }),
    {
        GridBuilder { children, ..self }
    }

    /// A fixed width in pixels for the first column.
    pub fn first_column_length(self, width: u32) -> (g: Self)
        requires
            self.builder.style.layout.grid_template_columns@.len() > 0,
        ensures
            g.config == self.config,
            g.children == self.children,
            g.builder.name == self.builder.name,
            g.builder.kind == self.builder.kind,
            g.builder.events == self.builder.events,
            g.builder.parent_node == self.builder.parent_node,
            g.builder.children == self.builder.children,
            g.builder.style == (Style {
                layout: LayoutStyle { grid_template_columns: g.builder.style.layout.grid_template_columns, ..self.builder.style.layout },
                ..self.builder.style
            }),
            g.builder.style.layout.grid_template_columns@ == self.builder.style.layout.grid_template_columns@.update(0, Track::Length(width)),
    {
        let mut g = self;
        g.builder.style.layout.grid_template_columns.set(0, Track::Length(width));
        g
    }

    /// The grid's node with every cell prepared as its child: each cell is
    /// named after the grid with its index, takes the grid's border color, and
    /// has a one-pixel left border unless it opens a row.
    pub fn into_builder(self) -> (b: Builder)
        requires
            self.builder.name is Some,
            self.children@.len() > 0 ==> self.config.columns > 0,
        ensures
            grid_prepared(self, b),
    {
        let ghost g0 = self;
        let GridBuilder { config, builder, children } = self;
        let mut builder = builder;
        let grid_text = match &builder.name {
            Some(name) => name.to_text(),
            None => String::new(),
        };
        let border = builder.style.border_color;
        let ghost own = builder.children@;
        let ghost cells0 = children@;
        let mut kids = children;
        let n = kids.len();
        let mut i: usize = 0;
        assert(cells0.skip(0) =~= cells0);
        assert(builder.children@.subrange(0, own.len() as int) =~= own);
        while i < n
            invariant
                n == cells0.len(),
                i <= n,
                kids@ == cells0.skip(i as int),
                g0.children@ == cells0,
                g0.builder.children@ == own,
                g0.config == config,
                n > 0 ==> config.columns > 0,
                grid_text@ == spec_name_text(g0.builder.name->0),
                border == g0.builder.style.border_color,
                builder.name == g0.builder.name,
                builder.kind == g0.builder.kind,
                builder.style == g0.builder.style,
                builder.events == g0.builder.events,
                builder.parent_node == g0.builder.parent_node,
                builder.children@.len() == own.len() + i,
                builder.children@.subrange(0, own.len() as int) == own,
                forall|m: int| 0 <= m < i ==> cell_prepared(
                    cells0[m],
                    #[trigger] builder.children@[own.len() + m],
                    grid_text@,
                    m,
                    border,
                    config.columns,
                ),
            decreases n - i,
        {
            let mut kid = kids.remove(0);
            proof {
                assert(kid == cells0[i as int]);
                assert(kids@ =~= cells0.skip(i + 1));
            }
            let ghost orig = kid;
            let mut label = String::new();
            label.append(grid_text.as_str());
            push_char(&mut label, '[');
            push_decimal(&mut label, i as u64);
            push_char(&mut label, ']');
            kid.set_name(NodeName::GridItem(label));
            match border {
                Some(c) => kid.set_border_color(c),
                None => {},
            }
            if i % config.columns != 0 {
                kid.set_border_l(1);
            }
            proof {
                assert(label@ =~= grid_text@ + seq!['['] + decimal(i as nat) + seq![']']);
                assert(cell_prepared(orig, kid, grid_text@, i as int, border, config.columns));
            }
            let ghost prev = builder.children@;
            builder.add_child(kid);
            proof {
                assert(builder.children@.subrange(0, own.len() as int) =~= prev.subrange(0, own.len() as int));
                assert forall|m: int| 0 <= m < i + 1 implies cell_prepared(
                    cells0[m],
                    #[trigger] builder.children@[own.len() + m],
                    grid_text@,
                    m,
                    border,
                    config.columns,
                ) by {
                    if m < i {
                        assert(builder.children@[own.len() + m] == prev[own.len() + m]);
                    }
                }
            }
            i += 1;
        }
        builder
    }

    /// Builds the grid's node and its cells (see `into_builder`) under its parent
    /// (the root when it has none). Returns the grid node's id.
    pub fn build(self, layout: &mut AppLayout) -> (id: u64)
        requires
            old(layout).wf(),
            self.builder.parent_node matches Some(p) ==> old(layout).has_node(p),
            self.builder.name is Some,
            self.children@.len() > 0 ==> self.config.columns > 0,
        ensures
            exists|b: Builder| #[trigger] grid_prepared(self, b)
                && build_effect(*old(layout), *final(layout), b, attach_target(*old(layout), self.builder.parent_node), id),
    {
        let ghost g0 = self;
        let b = self.into_builder();
        let ghost b0 = b;
        let id = b.build(layout);
        assert(grid_prepared(g0, b0));
        id
    }
}

} // verus!
