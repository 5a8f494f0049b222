use vstd::prelude::*;
use crate::theme::{light_theme, spec_light_base16, Color, Theme};

verus! {

/// A length along one axis, in whole pixels or whole percent of the parent.
#[derive(Clone, Copy, Debug, PartialEq, Eq, Structural)]
pub enum Dimension {
    Auto,
    Length(u32),
    Percent(u32),
}

/// One track of a grid template: a share of the free space, or a fixed length.
#[derive(Clone, Copy, Debug, PartialEq, Eq, Structural)]
pub enum Track {
    Fr(u32),
    Length(u32),
}

/// How a node lays out its children; `Hidden` takes the node out of the layout.
#[derive(Clone, Copy, Debug, PartialEq, Eq, Structural)]
pub enum Display {
    Flex,
    Grid,
    Block,
    Hidden,
}

#[derive(Clone, Copy, Debug, PartialEq, Eq, Structural)]
pub enum FlexDirection {
    Row,
    Column,
}

#[derive(Clone, Copy, Debug, PartialEq, Eq, Structural)]
pub enum AlignItems {
    FlexStart,
    FlexEnd,
    Center,
    Stretch,
}

#[derive(Clone, Copy, Debug, PartialEq, Eq, Structural)]
pub enum JustifyContent {
    FlexStart,
    FlexEnd,
    Center,
    SpaceBetween,
}

/// Horizontal alignment of text within its node.
#[derive(Clone, Copy, Debug, PartialEq, Eq, Structural)]
pub enum TextAlign {
    Left,
    Center,
    Right,
}

/// The font sizes of the theme, after Tailwind's scale (`xs` 12 px to `xxxxl` 36 px).
#[derive(Clone, Copy, Debug, PartialEq, Eq, Structural)]
pub enum FontSizeName {
    Xs,
    Sm,
    Base,
    Lg,
    Xl,
    Xxl,
    Xxxl,
    Xxxxl,
}

/// Four sides, in whole pixels.
#[derive(Clone, Copy, Debug, PartialEq, Eq, Structural)]
pub struct Edges {
    pub top: u32,
    pub right: u32,
    pub bottom: u32,
    pub left: u32,
}

impl Edges {
    pub open spec fn spec_zero() -> Edges {
        Edges { top: 0, right: 0, bottom: 0, left: 0 }
    }

    pub fn zero() -> (e: Edges)
        ensures
            e == Edges::spec_zero(),
    {
        Edges { top: 0, right: 0, bottom: 0, left: 0 }
    }
}

/// The box-model part of a node's style, as the layout engine reads it.
/// Flex grow and shrink are whole-number weights.
#[derive(Clone, Debug, PartialEq, Eq)]
pub struct LayoutStyle {
    pub display: Display,
    pub width: Dimension,
    pub height: Dimension,
    pub min_width: Dimension,
    pub max_width: Dimension,
    pub flex_direction: FlexDirection,
    pub flex_grow: u32,
    pub flex_shrink: u32,
    pub align_items: Option<AlignItems>,
    pub justify_content: Option<JustifyContent>,
    pub margin: Edges,
    pub padding: Edges,
    pub border: Edges,
    pub grid_template_columns: Vec<Track>,
    pub grid_template_rows: Vec<Track>,
}

/// The layout engine's default: a flex row of automatic size that does not grow
/// but may shrink, with no spacing and no grid tracks.
pub open spec fn default_layout_spec(l: LayoutStyle) -> bool {
    &&& default_layout_scalars(l)
    &&& l.grid_template_columns@.len() == 0
    &&& l.grid_template_rows@.len() == 0
}

/// The layout engine's default, grid tracks aside.
pub open spec fn default_layout_scalars(l: LayoutStyle) -> bool {
    &&& l.display == Display::Flex
    &&& l.width == Dimension::Auto
    &&& l.height == Dimension::Auto
    &&& l.min_width == Dimension::Auto
    &&& l.max_width == Dimension::Auto
    &&& l.flex_direction == FlexDirection::Row
    &&& l.flex_grow == 0
    &&& l.flex_shrink == 1
    &&& l.align_items is None
    &&& l.justify_content is None
    &&& l.margin == Edges::spec_zero()
    &&& l.padding == Edges::spec_zero()
    &&& l.border == Edges::spec_zero()
}

impl LayoutStyle {
    pub fn new() -> (l: LayoutStyle)
        ensures
            default_layout_spec(l),
    {
        LayoutStyle {
            display: Display::Flex,
            width: Dimension::Auto,
            height: Dimension::Auto,
            min_width: Dimension::Auto,
            max_width: Dimension::Auto,
            flex_direction: FlexDirection::Row,
            flex_grow: 0,
            flex_shrink: 1,
            align_items: None,
            justify_content: None,
            margin: Edges::zero(),
            padding: Edges::zero(),
            border: Edges::zero(),
            grid_template_columns: Vec::new(),
            grid_template_rows: Vec::new(),
        }
    }
}

/// Everything about how a node looks.
#[derive(Clone, Debug, PartialEq, Eq)]
pub struct Style {
    pub layout: LayoutStyle,
    pub background_color: Option<Color>,
    pub text_color: Color,
    pub font_size: FontSizeName,
    pub bold: bool,
    pub text_align: Option<TextAlign>,
    pub border_color: Option<Color>,
    /// Radius of all four corners, in pixels.
    pub border_radius: u32,
}

/// The default style: default layout, no background or border color, the theme's
/// text color, the base font size, square corners.
pub open spec fn default_style_spec(s: Style) -> bool {
    &&& default_layout_spec(s.layout)
    &&& default_style_scalars(s)
}

/// The default style, grid tracks aside.
pub open spec fn default_style_scalars(s: Style) -> bool {
    &&& default_layout_scalars(s.layout)
    &&& s.background_color is None
    &&& s.border_color is None
    &&& s.text_color == Theme::spec_from_base16(spec_light_base16()).text
    &&& s.font_size == FontSizeName::Base
    &&& !s.bold
    &&& s.text_align is None
    &&& s.border_radius == 0
}

impl Style {
    pub fn new() -> (s: Style)
        ensures
            default_style_spec(s),
    {
        Style {
            layout: LayoutStyle::new(),
            background_color: None,
            text_color: light_theme().text,
            font_size: FontSizeName::Base,
            bold: false,
            text_align: None,
            border_color: None,
            border_radius: 0,
        }
    }
}

} // verus!
