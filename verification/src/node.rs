use vstd::prelude::*;
use vstd::string::StringExecFns;
use crate::app::LayoutAction;
use crate::text::{decimal, is_digit, lemma_decimal_digits, lemma_decimal_injective, push_char, push_decimal};
use crate::theme::{light_theme, spec_light_base16, Color, Theme};

verus! {

/// Hands out node numbers; the next number is one more than the last (wrapping).
#[derive(Debug)]
pub struct NodeIdCounter {
    next: u64,
}

impl NodeIdCounter {
    pub closed spec fn spec_next(&self) -> u64 {
        self.next
    }

    pub fn new() -> (c: Self)
        ensures
            c.spec_next() == 0,
    {
        NodeIdCounter { next: 0 }
    }
}

/// The next node number: the counter's value, which then moves on by one.
pub fn next_node_id(ids: &mut NodeIdCounter) -> (id: u64)
    ensures
        id == old(ids).spec_next(),
        final(ids).spec_next() == (if old(ids).spec_next() == u64::MAX { 0 } else { (old(ids).spec_next() + 1) as u64 }),
{
    let id = ids.next;
    ids.next = if ids.next == u64::MAX { 0 } else { ids.next + 1 };
    id
}

/// The text of a text node.
#[derive(Clone, Debug, PartialEq, Eq)]
pub struct TextContent {
    pub content: String,
    /// Drawn as a pill: sized to its content, not wrapped.
    pub is_pill: bool,
    /// Cut to one line, ending in an ellipsis.
    pub ellipsis: bool,
}

impl TextContent {
    pub fn new(content: &str) -> (t: Self)
        ensures
            t.content@ == content@,
            !t.is_pill,
            !t.ellipsis,
    {
        TextContent { content: String::from_str(content), is_pill: false, ellipsis: false }
    }
}

/// The size of a grid: its columns, and its rows when they are fixed.
#[derive(Clone, Copy, Debug, PartialEq, Eq, Structural)]
pub struct GridConfig {
    pub rows: Option<usize>,
    pub columns: usize,
}

/// What a node is.
#[derive(Clone, Debug, PartialEq, Eq)]
pub enum NodeKind {
    Container,
    Text(TextContent),
    /// An icon, by the name of its SVG file.
    Icon(String),
    Grid(GridConfig),
    GridItem,
}

/// The name under which a node is registered in the layout.
#[derive(Clone, Debug, PartialEq, Eq, Hash)]
pub enum NodeName {
    Root,
    Header,
    Footer,
    Content,
    Clock,
    Icon(String),
    Grid(String),
    GridItem(String),
    Pill(u64),
    Other(String),
    NoName(u64),
}

/// `s` with every `.svg` removed, scanning from the left (as `str::replace` with
/// an empty replacement does).
pub open spec fn without_svg(s: Seq<char>) -> Seq<char>
    decreases s.len(),
{
    if s.len() >= 4 && s.subrange(0, 4) == seq!['.', 's', 'v', 'g'] {
        without_svg(s.skip(4))
    } else if s.len() == 0 {
        s
    } else {
        seq![s[0]] + without_svg(s.skip(1))
    }
}

/// The text of a node name, as it is shown in diagnostics and used to name grid cells.
pub open spec fn spec_name_text(n: NodeName) -> Seq<char> {
    match n {
        NodeName::Root => "ROOT"@,
        NodeName::Header => "HEADER"@,
        NodeName::Footer => "FOOTER"@,
        NodeName::Content => "CONTENT"@,
        NodeName::Clock => "CLOCK"@,
        NodeName::Icon(id) => "ICON["@ + id@ + "]"@,
        NodeName::Grid(id) => "GRID["@ + id@ + "]"@,
        NodeName::GridItem(id) => "GRID_ITEM["@ + id@ + "]"@,
        NodeName::Pill(id) => "PILL["@ + decimal(id as nat) + "]"@,
        NodeName::Other(id) => "OTHER["@ + id@ + "]"@,
        NodeName::NoName(id) => "NAMELESS["@ + decimal(id as nat) + "]"@,
    }
}

/// Appends `s` without its `.svg` parts.
fn push_without_svg(out: &mut String, s: &str)
    ensures
        final(out)@ == old(out)@ + without_svg(s@),
{
    let n = s.unicode_len();
    let mut i: usize = 0;
    let ghost start = out@;
    assert(s@.skip(0) =~= s@);
    while i < n
        invariant
            n == s@.len(),
            i <= n,
            start + without_svg(s@) == out@ + without_svg(s@.skip(i as int)),
        decreases n - i,
    {
        let ghost rest = s@.skip(i as int);
        if n - i >= 4 && s.get_char(i) == '.' && s.get_char(i + 1) == 's' && s.get_char(i + 2) == 'v' && s.get_char(i + 3) == 'g' {
            assert(rest.subrange(0, 4) =~= seq!['.', 's', 'v', 'g']);
            assert(rest.skip(4) =~= s@.skip(i + 4));
            i += 4;
        } else {
            assert(!(rest.len() >= 4 && rest.subrange(0, 4) == seq!['.', 's', 'v', 'g'])) by {
                if rest.len() >= 4 && rest.subrange(0, 4) == seq!['.', 's', 'v', 'g'] {
                    assert(rest.subrange(0, 4)[0] == s@[i as int]);
                    assert(rest.subrange(0, 4)[1] == s@[i + 1]);
                    assert(rest.subrange(0, 4)[2] == s@[i + 2]);
                    assert(rest.subrange(0, 4)[3] == s@[i + 3]);
                }
            }
            assert(rest.skip(1) =~= s@.skip(i + 1));
            let ghost prev_out = out@;
            push_char(out, s.get_char(i));
            assert(out@ + without_svg(s@.skip(i + 1)) =~= prev_out + without_svg(rest));
            i += 1;
        }
    }
    assert(s@.skip(n as int) =~= Seq::<char>::empty());
    assert(out@ =~= start + without_svg(s@));
}

/// The name text of an icon node: the file name without `.svg`, `_` and the
/// node number.
pub open spec fn icon_text(file: Seq<char>, k: nat) -> Seq<char> {
    without_svg(file) + seq!['_'] + decimal(k)
}

/// Icon names with different numbers differ, whatever their file names: the
/// number is the text after the last `_`. So two calls of `NodeName::icon` that
/// find different counter values give different names.
pub proof fn lemma_icon_names_differ(file1: Seq<char>, k1: nat, file2: Seq<char>, k2: nat)
    requires
        k1 != k2,
    ensures
        icon_text(file1, k1) != icon_text(file2, k2),
{
    let s1 = icon_text(file1, k1);
    let s2 = icon_text(file2, k2);
    let d1 = decimal(k1);
    let d2 = decimal(k2);
    if s1 == s2 {
        lemma_decimal_digits(k1);
        lemma_decimal_digits(k2);
        let n = s1.len();
        let l1 = d1.len();
        let l2 = d2.len();
        assert(forall|i: int| 0 <= i < l1 ==> s1[n - l1 + i] == d1[i]);
        assert(forall|i: int| 0 <= i < l2 ==> s2[n - l2 + i] == d2[i]);
        assert(s1[n - l1 - 1] == '_');
        assert(s2[n - l2 - 1] == '_');
        if l1 < l2 {
            assert(s2[n - l1 - 1] == d2[l2 - l1 - 1]);
            assert(is_digit(d2[l2 - l1 - 1]));
        } else if l2 < l1 {
            assert(s1[n - l2 - 1] == d1[l1 - l2 - 1]);
            assert(is_digit(d1[l1 - l2 - 1]));
        } else {
            assert(d1 =~= s1.subrange(n - l1, n as int));
            assert(d2 =~= s2.subrange(n - l2, n as int));
            lemma_decimal_injective(k1, k2);
        }
    }
}

impl NodeName {
    /// A copy of the name.
    pub fn duplicate(&self) -> (n: Self)
        ensures
            n == *self,
    {
        match self {
            NodeName::Root => NodeName::Root,
            NodeName::Header => NodeName::Header,
            NodeName::Footer => NodeName::Footer,
            NodeName::Content => NodeName::Content,
            NodeName::Clock => NodeName::Clock,
            NodeName::Icon(s) => NodeName::Icon(s.clone()),
            NodeName::Grid(s) => NodeName::Grid(s.clone()),
            NodeName::GridItem(s) => NodeName::GridItem(s.clone()),
            NodeName::Pill(k) => NodeName::Pill(*k),
            NodeName::Other(s) => NodeName::Other(s.clone()),
            NodeName::NoName(k) => NodeName::NoName(*k),
        }
    }

    pub fn other(name: &str) -> (n: Self)
        ensures
            n == NodeName::Other(n->Other_0) && n->Other_0@ == name@,
    {
        NodeName::Other(String::from_str(name))
    }

    /// A fresh name for an icon node: the icon's file name without `.svg`, `_`
    /// and the next node number.
    pub fn icon(name: &str, ids: &mut NodeIdCounter) -> (n: Self)
        ensures
            n is Icon,
            n->Icon_0@ == icon_text(name@, old(ids).spec_next() as nat),
            final(ids).spec_next() == (if old(ids).spec_next() == u64::MAX { 0 } else { (old(ids).spec_next() + 1) as u64 }),
    {
        let mut text = String::new();
        push_without_svg(&mut text, name);
        push_char(&mut text, '_');
        let id = next_node_id(ids);
        push_decimal(&mut text, id);
        NodeName::Icon(text)
    }

    /// A fresh name for a pill.
    pub fn pill(ids: &mut NodeIdCounter) -> (n: Self)
        ensures
            n == NodeName::Pill(old(ids).spec_next()),
            final(ids).spec_next() == (if old(ids).spec_next() == u64::MAX { 0 } else { (old(ids).spec_next() + 1) as u64 }),
    {
        NodeName::Pill(next_node_id(ids))
    }

    /// A fresh name for a node that was given none.
    pub fn no_name(ids: &mut NodeIdCounter) -> (n: Self)
        ensures
            n == NodeName::NoName(old(ids).spec_next()),
            final(ids).spec_next() == (if old(ids).spec_next() == u64::MAX { 0 } else { (old(ids).spec_next() + 1) as u64 }),
    {
        NodeName::NoName(next_node_id(ids))
    }

    /// The name as text, such as `GRID[calendar]` or `NAMELESS[4]`.
    pub fn to_text(&self) -> (t: String)
        ensures
            t@ == spec_name_text(*self),
    {
        proof {
            reveal_strlit("ROOT");
            reveal_strlit("HEADER");
            reveal_strlit("FOOTER");
            reveal_strlit("CONTENT");
            reveal_strlit("CLOCK");
            reveal_strlit("ICON[");
            reveal_strlit("GRID[");
            reveal_strlit("GRID_ITEM[");
            reveal_strlit("PILL[");
            reveal_strlit("OTHER[");
            reveal_strlit("NAMELESS[");
            reveal_strlit("]");
        }
        let mut t = String::new();
        match self {
            NodeName::Root => t.append("ROOT"),
            NodeName::Header => t.append("HEADER"),
            NodeName::Footer => t.append("FOOTER"),
            NodeName::Content => t.append("CONTENT"),
            NodeName::Clock => t.append("CLOCK"),
            NodeName::Icon(id) => {
                t.append("ICON[");
                t.append(id.as_str());
                t.append("]");
            },
            NodeName::Grid(id) => {
                t.append("GRID[");
                t.append(id.as_str());
                t.append("]");
            },
            NodeName::GridItem(id) => {
                t.append("GRID_ITEM[");
                t.append(id.as_str());
                t.append("]");
            },
            NodeName::Pill(id) => {
                t.append("PILL[");
                push_decimal(&mut t, *id);
                t.append("]");
            },
            NodeName::Other(id) => {
                t.append("OTHER[");
                t.append(id.as_str());
                t.append("]");
            },
            NodeName::NoName(id) => {
                t.append("NAMELESS[");
                push_decimal(&mut t, *id);
                t.append("]");
            },
        }
        assert(t@ =~= spec_name_text(*self));
        t
    }
}

/// Which pointer events a node reacts to, as bits.
#[derive(Clone, Copy, Debug, PartialEq, Eq, Structural)]
pub struct EventCaps {
    pub bits: u8,
}

impl EventCaps {
    /// Clicks (a press and release on the node).
    pub fn click() -> (c: EventCaps)
        ensures
            c.bits == 1,
    {
        EventCaps { bits: 1 }
    }

    pub fn empty() -> (c: EventCaps)
        ensures
            c.bits == 0,
    {
        EventCaps { bits: 0 }
    }

    pub fn all() -> (c: EventCaps)
        ensures
            c.bits == 7,
    {
        EventCaps { bits: 7 }
    }
}

/// How a node reacts to the pointer: what it listens for, and the navigation
/// request a click on it queues.
#[derive(Clone, Copy, Debug, PartialEq, Eq, Structural)]
pub struct Events {
    pub caps: EventCaps,
    pub on_click: Option<LayoutAction>,
}

/// Interaction state of a node.
#[derive(Clone, Copy, Debug, PartialEq, Eq, Structural)]
pub struct State {
    pub hovered: bool,
    pub pressed: bool,
    pub focused: bool,
    pub visible: bool,
}

impl State {
    /// A fresh node: visible, not hovered, pressed or focused.
    pub fn new() -> (s: Self)
        ensures
            s == (State { hovered: false, pressed: false, focused: false, visible: true }),
    {
        State { hovered: false, pressed: false, focused: false, visible: true }
    }
}

} // verus!
