use vstd::prelude::*;
use taffy::{NodeId, TaffyTree};
use crate::app::LayoutAction;
use crate::node::{Events, NodeIdCounter, NodeKind, NodeName, State, TextContent};
use crate::text::same_text;
use crate::theme::Color;
use crate::style::Style;

verus! {

#[verifier::external_type_specification]
#[verifier::external_body]
#[verifier::reject_recursive_types(NodeContext)]
pub struct ExTaffyTree<NodeContext>(TaffyTree<NodeContext>);

/// The children of every node of a taffy tree, by the node's raw id.
pub uninterp spec fn taffy_children(tree: TaffyTree<NodeName>) -> Map<u64, Seq<u64>>;

/// The parent of every node of a taffy tree, by the node's raw id.
pub uninterp spec fn taffy_parents(tree: TaffyTree<NodeName>) -> Map<u64, Option<u64>>;

/// The context that each node of a taffy tree carries (its name), by the node's raw id.
pub uninterp spec fn taffy_contexts(tree: TaffyTree<NodeName>) -> Map<u64, NodeName>;

/// `TaffyTree::new`: a tree without nodes.
#[verifier::external_body]
fn taffy_new() -> (t: TaffyTree<NodeName>)
    ensures
        taffy_children(t).dom() == Set::<u64>::empty(),
        taffy_parents(t).dom() == Set::<u64>::empty(),
        taffy_contexts(t).dom() == Set::<u64>::empty(),
{
    TaffyTree::new()
}

/// `TaffyTree::new_leaf_with_context`, with the layout engine's default style and
/// `name` as context: a new node, not yet in the tree, without parent or
/// children, carrying `name`. The style it holds in the tree is not stated.
/// (The node's real style is handed to the engine when the layout is computed.)
#[verifier::external_body]
fn taffy_new_leaf(tree: &mut TaffyTree<NodeName>, name: NodeName) -> (id: u64)
    ensures
        !taffy_children(*old(tree)).dom().contains(id),
        taffy_children(*final(tree)) == taffy_children(*old(tree)).insert(id, Seq::empty()),
        taffy_parents(*final(tree)) == taffy_parents(*old(tree)).insert(id, None),
        taffy_contexts(*final(tree)) == taffy_contexts(*old(tree)).insert(id, name),
{
    u64::from(tree.new_leaf_with_context(taffy::Style::default(), name).unwrap())
}

/// `TaffyTree::add_child`: appends `child` to `parent`'s children and makes
/// `parent` its parent (an earlier parent keeps it in its list).
#[verifier::external_body]
fn taffy_add_child(tree: &mut TaffyTree<NodeName>, parent: u64, child: u64)
    requires
        taffy_children(*old(tree)).dom().contains(parent),
        taffy_children(*old(tree)).dom().contains(child),
        taffy_parents(*old(tree)).dom() == taffy_children(*old(tree)).dom(),
    ensures
        taffy_children(*final(tree)) == taffy_children(*old(tree)).insert(parent, taffy_children(*old(tree))[parent].push(child)),
        taffy_parents(*final(tree)) == taffy_parents(*old(tree)).insert(child, Some(parent)),
        taffy_contexts(*final(tree)) == taffy_contexts(*old(tree)),
{
    tree.add_child(NodeId::from(parent), NodeId::from(child)).unwrap()
}

/// `TaffyTree::set_children`: `children` become exactly `parent`'s children and
/// each gets `parent` as its parent; the former children of `parent` lose it as
/// parent, and each new child is taken out of its former parent's list. Which
/// occurrence is taken out of that list (the first) is not stated: only that
/// nodes other than the new children stay in every list they were in.
#[verifier::external_body]
fn taffy_set_children(tree: &mut TaffyTree<NodeName>, parent: u64, children: &[u64])
    requires
        tree_consistent(*old(tree)),
        taffy_children(*old(tree)).dom().contains(parent),
        forall|i: int| 0 <= i < children@.len() ==> taffy_children(*old(tree)).dom().contains(#[trigger] children@[i]),
        children@.no_duplicates(),
    ensures
        taffy_children(*final(tree)).dom() == taffy_children(*old(tree)).dom(),
        taffy_parents(*final(tree)).dom() == taffy_parents(*old(tree)).dom(),
        taffy_contexts(*final(tree)) == taffy_contexts(*old(tree)),
        taffy_children(*final(tree))[parent] == children@,
        forall|i: int| 0 <= i < children@.len() ==> taffy_parents(*final(tree))[#[trigger] children@[i]] == Some(parent),
        forall|n: u64, x: u64|
            taffy_children(*old(tree)).dom().contains(n) && n != parent && !children@.contains(x)
                && #[trigger] taffy_children(*old(tree))[n].contains(x) ==> #[trigger] taffy_children(*final(tree))[n].contains(x),
        forall|n: u64, x: u64|
            taffy_children(*old(tree)).dom().contains(n) && #[trigger] taffy_children(*final(tree))[n].contains(x)
                ==> taffy_children(*old(tree))[n].contains(x) || n == parent,
        forall|c: u64|
            taffy_parents(*old(tree)).dom().contains(c) && !children@.contains(c) && !taffy_children(*old(tree))[parent].contains(c)
                ==> #[trigger] taffy_parents(*final(tree))[c] == taffy_parents(*old(tree))[c],
        forall|c: u64|
            taffy_parents(*old(tree)).dom().contains(c) && !children@.contains(c) && taffy_children(*old(tree))[parent].contains(c)
                ==> #[trigger] taffy_parents(*final(tree))[c] is None,
{
    let ids: Vec<NodeId> = children.iter().map(|c| NodeId::from(*c)).collect();
    tree.set_children(NodeId::from(parent), &ids).unwrap()
}

/// `TaffyTree::children`: the children of a node.
#[verifier::external_body]
fn taffy_children_of(tree: &TaffyTree<NodeName>, id: u64) -> (children: Vec<u64>)
    requires
        taffy_children(*tree).dom().contains(id),
    ensures
        children@ == taffy_children(*tree)[id],
{
    tree.children(NodeId::from(id)).unwrap().into_iter().map(u64::from).collect()
}

/// Parents and children agree: every node's parent lists it, and every listed
/// child is a node.
pub open spec fn tree_consistent(tree: TaffyTree<NodeName>) -> bool {
    &&& taffy_parents(tree).dom() == taffy_children(tree).dom()
    &&& forall|c: u64| #[trigger] taffy_parents(tree).dom().contains(c) && taffy_parents(tree)[c] is Some ==> {
        &&& taffy_children(tree).dom().contains(taffy_parents(tree)[c]->0)
        &&& taffy_children(tree)[taffy_parents(tree)[c]->0].contains(c)
    }
    &&& forall|n: u64, k: int| #[trigger] taffy_children(tree).dom().contains(n) && 0 <= k < taffy_children(tree)[n].len()
        ==> taffy_children(tree).dom().contains(#[trigger] taffy_children(tree)[n][k])
}

/// Whether two names are the same: the same variant with the same text or number.
pub open spec fn same_name(a: NodeName, b: NodeName) -> bool {
    match (a, b) {
        (NodeName::Root, NodeName::Root) => true,
        (NodeName::Header, NodeName::Header) => true,
        (NodeName::Footer, NodeName::Footer) => true,
        (NodeName::Content, NodeName::Content) => true,
        (NodeName::Clock, NodeName::Clock) => true,
        (NodeName::Icon(x), NodeName::Icon(y)) => x@ == y@,
        (NodeName::Grid(x), NodeName::Grid(y)) => x@ == y@,
        (NodeName::GridItem(x), NodeName::GridItem(y)) => x@ == y@,
        (NodeName::Pill(x), NodeName::Pill(y)) => x == y,
        (NodeName::Other(x), NodeName::Other(y)) => x@ == y@,
        (NodeName::NoName(x), NodeName::NoName(y)) => x == y,
        _ => false,
    }
}

/// Whether two names are the same (see `same_name`).
pub fn names_match(a: &NodeName, b: &NodeName) -> (r: bool)
    ensures
        r == same_name(*a, *b),
{
    match (a, b) {
        (NodeName::Root, NodeName::Root) => true,
        (NodeName::Header, NodeName::Header) => true,
        (NodeName::Footer, NodeName::Footer) => true,
        (NodeName::Content, NodeName::Content) => true,
        (NodeName::Clock, NodeName::Clock) => true,
        (NodeName::Icon(x), NodeName::Icon(y)) => same_text(x.as_str(), y.as_str()),
        (NodeName::Grid(x), NodeName::Grid(y)) => same_text(x.as_str(), y.as_str()),
        (NodeName::GridItem(x), NodeName::GridItem(y)) => same_text(x.as_str(), y.as_str()),
        (NodeName::Pill(x), NodeName::Pill(y)) => *x == *y,
        (NodeName::Other(x), NodeName::Other(y)) => same_text(x.as_str(), y.as_str()),
        (NodeName::NoName(x), NodeName::NoName(y)) => *x == *y,
        _ => false,
    }
}

/// A node that a click acts on: it listens for clicks and queues a request.
pub open spec fn clickable(n: LayoutNode) -> bool {
    n.events.caps.bits % 2 == 1 && n.events.on_click is Some
}

/// The first position in `nodes` of the node with this id.
pub open spec fn first_node_index(nodes: Seq<LayoutNode>, id: u64) -> int {
    choose|i: int| 0 <= i < nodes.len() && nodes[i].taffy_id == id && forall|j: int| 0 <= j < i ==> (#[trigger] nodes[j]).taffy_id != id
}

/// Whether some node has this id.
pub open spec fn has_id(nodes: Seq<LayoutNode>, id: u64) -> bool {
    exists|i: int| 0 <= i < nodes.len() && #[trigger] nodes[i].taffy_id == id
}

/// The position of the last node created with a name that is the same as `name`.
pub open spec fn last_named(nodes: Seq<LayoutNode>, name: NodeName) -> int {
    choose|i: int|
        0 <= i < nodes.len() && same_name(nodes[i].name, name) && forall|j: int|
            i < j < nodes.len() ==> !same_name(#[trigger] nodes[j].name, name)
}

/// The description that node `id` finds: the one stored under its name. Each
/// name holds one description, that of the last node created with the name, so
/// creating a node under a name already in use replaces the description that
/// the earlier nodes of that name find.
#[verifier::opaque]
pub open spec fn description_of(l: AppLayout, id: u64) -> Option<LayoutNode> {
    if has_id(l.nodes@, id) {
        Some(l.nodes@[last_named(l.nodes@, l.nodes@[first_node_index(l.nodes@, id)].name)])
    } else {
        None
    }
}

/// Two names that are the same as a third are the same as each other.
proof fn lemma_same_name(a: NodeName, b: NodeName, c: NodeName)
    ensures
        same_name(a, a),
        same_name(a, b) ==> same_name(b, a),
        same_name(a, b) && same_name(b, c) ==> same_name(a, c),
{
}

/// A position that is the last with a name is the one `last_named` gives.
proof fn lemma_last_named(nodes: Seq<LayoutNode>, name: NodeName, i: int)
    requires
        0 <= i < nodes.len(),
        same_name(nodes[i].name, name),
        forall|j: int| i < j < nodes.len() ==> !same_name(#[trigger] nodes[j].name, name),
    ensures
        last_named(nodes, name) == i,
{
    let c = last_named(nodes, name);
    if c < i {
        assert(!same_name(nodes[i].name, name));
    } else if c > i {
        assert(!same_name(nodes[c].name, name));
    }
}

/// A position that is the first with an id is the one `first_node_index` gives.
proof fn lemma_first_node_index(nodes: Seq<LayoutNode>, id: u64, i: int)
    requires
        0 <= i < nodes.len(),
        nodes[i].taffy_id == id,
        forall|j: int| 0 <= j < i ==> (#[trigger] nodes[j]).taffy_id != id,
    ensures
        first_node_index(nodes, id) == i,
{
    let c = first_node_index(nodes, id);
    if c < i {
        assert(nodes[c].taffy_id != id);
    } else if c > i {
        assert(nodes[i].taffy_id != id);
    }
}

/// What appending `node` does to the descriptions that ids find: its own id and
/// the ids of the earlier nodes of the same name find its description (it
/// replaces the one stored under the name); every other id keeps its own.
#[verifier::opaque]
pub open spec fn replaces_description(l0: AppLayout, l1: AppLayout, node: LayoutNode) -> bool {
    &&& description_of(l1, node.taffy_id) == Some(node)
    &&& forall|i: int| 0 <= i < l0.nodes@.len() ==> #[trigger] description_of(l1, l0.nodes@[i].taffy_id) == if same_name(
        l0.nodes@[i].name,
        node.name,
    ) {
        Some(node)
    } else {
        description_of(l0, l0.nodes@[i].taffy_id)
    }
}

proof fn lemma_description_of_new(l0: AppLayout, l1: AppLayout, node: LayoutNode)
    requires
        l1.nodes@ == l0.nodes@.push(node),
        forall|j: int| 0 <= j < l0.nodes@.len() ==> (#[trigger] l0.nodes@[j]).taffy_id != node.taffy_id,
    ensures
        description_of(l1, node.taffy_id) == Some(node),
{
    reveal(description_of);
    let ns = l1.nodes@;
    let last = l0.nodes@.len() as int;
    assert(ns[last] == node);
    assert forall|j: int| 0 <= j < last implies (#[trigger] ns[j]).taffy_id != node.taffy_id by {
        assert(ns[j] == l0.nodes@[j]);
    }
    lemma_first_node_index(ns, node.taffy_id, last);
    lemma_same_name(node.name, node.name, node.name);
    lemma_last_named(ns, node.name, last);
    assert(has_id(ns, node.taffy_id));
}

proof fn lemma_description_at(l0: AppLayout, l1: AppLayout, node: LayoutNode, i: int)
    requires
        l1.nodes@ == l0.nodes@.push(node),
        0 <= i < l0.nodes@.len(),
        forall|j: int| 0 <= j < i ==> (#[trigger] l0.nodes@[j]).taffy_id != l0.nodes@[i].taffy_id,
    ensures
        description_of(l1, l0.nodes@[i].taffy_id) == if same_name(l0.nodes@[i].name, node.name) {
            Some(node)
        } else {
            description_of(l0, l0.nodes@[i].taffy_id)
        },
{
    reveal(description_of);
    let old_nodes = l0.nodes@;
    let ns = l1.nodes@;
    let e = old_nodes[i].taffy_id;
    let nm = old_nodes[i].name;
    let last = old_nodes.len() as int;
    assert(ns[i] == old_nodes[i]);
    assert(ns[last] == node);
    lemma_first_node_index(old_nodes, e, i);
    assert forall|j: int| 0 <= j < i implies (#[trigger] ns[j]).taffy_id != e by {
        assert(ns[j] == old_nodes[j]);
    }
    lemma_first_node_index(ns, e, i);
    assert(has_id(old_nodes, e));
    assert(has_id(ns, e));
    lemma_same_name(nm, nm, nm);
    if same_name(nm, node.name) {
        lemma_same_name(nm, node.name, node.name);
        lemma_same_name(node.name, nm, nm);
        lemma_last_named(ns, nm, last);
    } else {
        lemma_exists_last_named(old_nodes, nm, i);
        let li = last_named(old_nodes, nm);
        assert(!same_name(ns[last].name, nm)) by {
            lemma_same_name(node.name, nm, nm);
            lemma_same_name(nm, node.name, node.name);
        }
        assert forall|j: int| li < j < ns.len() implies !same_name(#[trigger] ns[j].name, nm) by {
            if j < last {
                assert(ns[j] == old_nodes[j]);
            }
        }
        assert(ns[li] == old_nodes[li]);
        lemma_last_named(ns, nm, li);
    }
}

proof fn lemma_description_after_push(l0: AppLayout, l1: AppLayout, node: LayoutNode)
    requires
        l1.nodes@ == l0.nodes@.push(node),
        forall|j: int| 0 <= j < l0.nodes@.len() ==> (#[trigger] l0.nodes@[j]).taffy_id != node.taffy_id,
        forall|i: int, j: int| 0 <= i < j < l0.nodes@.len() ==> (#[trigger] l0.nodes@[i]).taffy_id != (#[trigger] l0.nodes@[j]).taffy_id,
    ensures
        replaces_description(l0, l1, node),
{
    reveal(replaces_description);
    lemma_description_of_new(l0, l1, node);
    assert forall|i: int| 0 <= i < l0.nodes@.len() implies #[trigger] description_of(l1, l0.nodes@[i].taffy_id) == if same_name(
        l0.nodes@[i].name,
        node.name,
    ) {
        Some(node)
    } else {
        description_of(l0, l0.nodes@[i].taffy_id)
    } by {
        lemma_description_at(l0, l1, node, i);
    }
}

/// The description a node finds is that of the last node with its name.
proof fn lemma_description_is(l: AppLayout, i: int)
    requires
        0 <= i < l.nodes@.len(),
        forall|j: int| 0 <= j < i ==> (#[trigger] l.nodes@[j]).taffy_id != l.nodes@[i].taffy_id,
    ensures
        description_of(l, l.nodes@[i].taffy_id) == Some(l.nodes@[last_named(l.nodes@, l.nodes@[i].name)]),
{
    lemma_first_node_index(l.nodes@, l.nodes@[i].taffy_id, i);
    assert(has_id(l.nodes@, l.nodes@[i].taffy_id));
    reveal(description_of);
}

/// Names that are the same find the same last node.
proof fn lemma_same_last_named(nodes: Seq<LayoutNode>, na: NodeName, nb: NodeName, i: int)
    requires
        0 <= i < nodes.len(),
        same_name(nodes[i].name, na),
        same_name(na, nb),
    ensures
        last_named(nodes, na) == last_named(nodes, nb),
{
    lemma_exists_last_named(nodes, na, i);
    let la = last_named(nodes, na);
    lemma_same_name(nodes[la].name, na, nb);
    assert forall|j: int| la < j < nodes.len() implies !same_name(#[trigger] nodes[j].name, nb) by {
        lemma_same_name(nb, na, na);
        lemma_same_name(nodes[j].name, nb, na);
    }
    lemma_last_named(nodes, nb, la);
}

/// Each name holds one description: two nodes with the same name find the
/// same description.
pub proof fn lemma_one_description_per_name(l: AppLayout, i: int, k: int)
    requires
        l.wf(),
        0 <= i < l.nodes@.len(),
        0 <= k < l.nodes@.len(),
        same_name(l.nodes@[i].name, l.nodes@[k].name),
    ensures
        description_of(l, l.nodes@[i].taffy_id) == description_of(l, l.nodes@[k].taffy_id),
{
    let nodes = l.nodes@;
    assert forall|j: int| 0 <= j < i implies (#[trigger] nodes[j]).taffy_id != nodes[i].taffy_id by {
        assert(nodes[j].taffy_id != nodes[i].taffy_id);
    }
    assert forall|j: int| 0 <= j < k implies (#[trigger] nodes[j]).taffy_id != nodes[k].taffy_id by {
        assert(nodes[j].taffy_id != nodes[k].taffy_id);
    }
    lemma_description_is(l, i);
    lemma_description_is(l, k);
    lemma_same_name(nodes[i].name, nodes[i].name, nodes[i].name);
    lemma_same_last_named(nodes, nodes[i].name, nodes[k].name, i);
}

/// Where a node has a name, some node is the last with that name.
proof fn lemma_exists_last_named(nodes: Seq<LayoutNode>, name: NodeName, f: int)
    requires
        0 <= f < nodes.len(),
        same_name(nodes[f].name, name),
    ensures
        exists|i: int| 0 <= i < nodes.len() && same_name(nodes[i].name, name) && forall|j: int|
            i < j < nodes.len() ==> !same_name(#[trigger] nodes[j].name, name),
    decreases nodes.len() - f,
{
    if exists|k: int| f < k < nodes.len() && same_name(#[trigger] nodes[k].name, name) {
        let k = choose|k: int| f < k < nodes.len() && same_name(#[trigger] nodes[k].name, name);
        lemma_exists_last_named(nodes, name, k);
    } else {
        assert(forall|j: int| f < j < nodes.len() ==> !same_name(#[trigger] nodes[j].name, name));
    }
}

/// The nodes of the tree under `id` in pre-order: the node, then the nodes
/// under each of its children in turn, going at most `depth` levels down.
pub open spec fn preorder(l: AppLayout, id: u64, depth: nat) -> Seq<u64>
    decreases depth, 0nat,
{
    if depth == 0 {
        Seq::empty()
    } else {
        seq![id] + preorder_all(l, l.children_of(id), (depth - 1) as nat)
    }
}

/// The pre-orders of the nodes in `ids`, one after another.
pub open spec fn preorder_all(l: AppLayout, ids: Seq<u64>, depth: nat) -> Seq<u64>
    decreases depth, ids.len(),
{
    if ids.len() == 0 {
        Seq::empty()
    } else {
        preorder_all(l, ids.drop_last(), depth) + preorder(l, ids.last(), depth)
    }
}

/// A node of the screen: what it is, how it looks and how it reacts.
#[derive(Clone, Debug)]
pub struct LayoutNode {
    pub taffy_id: u64,
    pub name: NodeName,
    pub kind: NodeKind,
    pub style: Style,
    pub events: Events,
    pub state: State,
    /// Its layout must be computed again.
    pub dirty_layout: bool,
    /// It must be drawn again.
    pub dirty_screen: bool,
}

/// The screen's node tree: the layout engine's tree of nodes under a root, and
/// every node's description, in the order the nodes were created.
pub struct AppLayout {
    pub tree: TaffyTree<NodeName>,
    pub root_node: u64,
    pub nodes: Vec<LayoutNode>,
    pub ids: NodeIdCounter,
    pub pending_action: Option<LayoutAction>,
}

impl AppLayout {
    /// The children of a node.
    pub open spec fn children_of(&self, id: u64) -> Seq<u64> {
        taffy_children(self.tree)[id]
    }

    /// The name a node carries in the tree.
    pub open spec fn context_of(&self, id: u64) -> NodeName {
        taffy_contexts(self.tree)[id]
    }

    /// The parent of a node in the tree, `None` for a node outside any list.
    pub open spec fn parent_of(&self, id: u64) -> Option<u64> {
        taffy_parents(self.tree)[id]
    }

    /// Whether a node is in the tree.
    pub open spec fn has_node(&self, id: u64) -> bool {
        taffy_children(self.tree).dom().contains(id)
    }

    /// The root is in the tree without a parent, every described node is in the
    /// tree and not the root, no two descriptions are of one node, and parents and
    /// children agree.
    pub open spec fn wf(&self) -> bool {
        &&& tree_consistent(self.tree)
        &&& self.has_node(self.root_node)
        &&& forall|i: int| 0 <= i < self.nodes@.len() ==> self.has_node(#[trigger] self.nodes@[i].taffy_id)
        &&& forall|i: int| 0 <= i < self.nodes@.len() ==> (#[trigger] self.nodes@[i]).taffy_id != self.root_node
        &&& forall|i: int, j: int| 0 <= i < j < self.nodes@.len() ==> (#[trigger] self.nodes@[i]).taffy_id != (#[trigger] self.nodes@[j]).taffy_id
    }

    /// An empty screen: only the root, a column.
    pub fn new() -> (l: Self)
        ensures
            l.wf(),
            l.nodes@.len() == 0,
            l.children_of(l.root_node) == Seq::<u64>::empty(),
            l.pending_action is None,
    {
        let mut tree = taffy_new();
        let root = taffy_new_leaf(&mut tree, NodeName::Root);
        let l = AppLayout { tree, root_node: root, nodes: Vec::new(), ids: NodeIdCounter::new(), pending_action: None };
        assert(tree_consistent(l.tree)) by {
            assert(taffy_parents(l.tree).dom() =~= taffy_children(l.tree).dom());
        }
        l
    }

    /// Creates a node under `parent_node` (the root when `None`), as its last child,
    /// carrying its name in the tree, and records its description (kind, style,
    /// events and state), which replaces the description stored under that name.
    /// The tree node keeps the layout engine's default style; the recorded style
    /// is handed to the engine when the layout is computed. Returns the new
    /// node's id.
    pub fn create_node(
        &mut self,
        name: NodeName,
        kind: NodeKind,
        style: Style,
        events: Events,
        parent_node: Option<u64>,
    ) -> (id: u64)
        requires
            old(self).wf(),
            parent_node matches Some(p) ==> old(self).has_node(p),
        ensures
            final(self).wf(),
            !old(self).has_node(id),
            final(self).has_node(id),
            taffy_children(final(self).tree).dom() == taffy_children(old(self).tree).dom().insert(id),
            final(self).nodes@ == old(self).nodes@.push(LayoutNode {
                taffy_id: id,
                name,
                kind,
                style,
                events,
                state: State { hovered: false, pressed: false, focused: false, visible: true },
                dirty_layout: true,
                dirty_screen: true,
            }),
            final(self).children_of(id) == Seq::<u64>::empty(),
            ({
                let target = match parent_node { Some(p) => p, None => old(self).root_node };
                &&& final(self).parent_of(id) == Some(target)
                &&& final(self).children_of(target) == old(self).children_of(target).push(id)
                &&& final(self).children_of(target).last() == id
                &&& forall|n: u64| old(self).has_node(n) && n != target ==> #[trigger] final(self).children_of(n) == old(self).children_of(n)
                &&& forall|n: u64| old(self).has_node(n) ==> #[trigger] final(self).parent_of(n) == old(self).parent_of(n)
            }),
            replaces_description(*old(self), *final(self), final(self).nodes@.last()),
            final(self).context_of(id) == name,
            final(self).root_node == old(self).root_node,
            final(self).pending_action == old(self).pending_action,
            final(self).ids == old(self).ids,
    {
        let ghost old_nodes = self.nodes@;
        let target = match parent_node {
            Some(p) => p,
            None => self.root_node,
        };
        let ghost t0 = self.tree;
        let node_id = taffy_new_leaf(&mut self.tree, name.duplicate());
        let ghost t1 = self.tree;
        assert(taffy_children(t1)[target] == taffy_children(t0)[target]);
        taffy_add_child(&mut self.tree, target, node_id);
        let node = LayoutNode {
            taffy_id: node_id,
            name,
            kind,
            style,
            events,
            state: State::new(),
            dirty_layout: true,
            dirty_screen: true,
        };
        self.nodes.push(node);
        proof {
            let t2 = self.tree;
            assert(taffy_children(t2).dom() =~= taffy_children(t0).dom().insert(node_id));
            assert(taffy_parents(t2).dom() =~= taffy_children(t2).dom());
            assert forall|c: u64| #[trigger] taffy_parents(t2).dom().contains(c) && taffy_parents(t2)[c] is Some implies {
                &&& taffy_children(t2).dom().contains(taffy_parents(t2)[c]->0)
                &&& taffy_children(t2)[taffy_parents(t2)[c]->0].contains(c)
            } by {
                if c == node_id {
                    assert(taffy_children(t2)[target].last() == node_id);
                } else {
                    let q = taffy_parents(t0)[c]->0;
                    assert(taffy_children(t0)[q].contains(c));
                    if q == target {
                        let k = choose|k: int| 0 <= k < taffy_children(t0)[q].len() && taffy_children(t0)[q][k] == c;
                        assert(taffy_children(t2)[q][k] == c);
                    }
                }
            }
            assert forall|n: u64, k: int| #[trigger] taffy_children(t2).dom().contains(n) && 0 <= k < taffy_children(t2)[n].len()
                implies taffy_children(t2).dom().contains(#[trigger] taffy_children(t2)[n][k]) by {
                if n != node_id && !(n == target && k == taffy_children(t0)[target].len()) {
                    assert(taffy_children(t0).dom().contains(taffy_children(t0)[n][k]));
                }
            }
            assert forall|i: int, j: int| 0 <= i < j < self.nodes@.len() implies (#[trigger] self.nodes@[i]).taffy_id != (#[trigger] self.nodes@[j]).taffy_id by {
                if j == self.nodes@.len() - 1 {
                    assert(taffy_children(t0).dom().contains(self.nodes@[i].taffy_id));
                }
            }
            assert(self.nodes@.last() == node);
            assert forall|j: int| 0 <= j < old_nodes.len() implies (#[trigger] old_nodes[j]).taffy_id != node_id by {
                assert(taffy_children(t0).dom().contains(old_nodes[j].taffy_id));
            }
            lemma_description_after_push(*old(self), *self, node);
        }
        node_id
    }

    /// Makes `children` exactly the children of `parent`, taking each out of its
    /// former parent.
    pub fn add_children(&mut self, parent: u64, children: &[u64])
        requires
            old(self).wf(),
            old(self).has_node(parent),
            forall|i: int| 0 <= i < children@.len() ==> old(self).has_node(#[trigger] children@[i]),
            children@.no_duplicates(),
        ensures
            final(self).wf(),
            final(self).children_of(parent) == children@,
            taffy_children(final(self).tree).dom() == taffy_children(old(self).tree).dom(),
            forall|n: u64, x: u64| old(self).has_node(n) && n != parent && !children@.contains(x)
                && #[trigger] old(self).children_of(n).contains(x) ==> #[trigger] final(self).children_of(n).contains(x),
            forall|n: u64, x: u64| old(self).has_node(n) && n != parent && #[trigger] final(self).children_of(n).contains(x)
                ==> old(self).children_of(n).contains(x),
            final(self).nodes@ == old(self).nodes@,
            final(self).root_node == old(self).root_node,
            final(self).pending_action == old(self).pending_action,
            final(self).ids == old(self).ids,
    {
        let ghost t0 = self.tree;
        taffy_set_children(&mut self.tree, parent, children);
        proof {
            let t1 = self.tree;
            assert forall|c: u64| #[trigger] taffy_parents(t1).dom().contains(c) && taffy_parents(t1)[c] is Some implies {
                &&& taffy_children(t1).dom().contains(taffy_parents(t1)[c]->0)
                &&& taffy_children(t1)[taffy_parents(t1)[c]->0].contains(c)
            } by {
                if children@.contains(c) {
                    let k = choose|k: int| 0 <= k < children@.len() && children@[k] == c;
                    assert(taffy_parents(t1)[children@[k]] == Some(parent));
                    assert(taffy_children(t1)[parent][k] == c);
                } else if taffy_children(t0)[parent].contains(c) {
                } else {
                    let q = taffy_parents(t0)[c]->0;
                    assert(taffy_parents(t1)[c] == taffy_parents(t0)[c]);
                    assert(taffy_children(t0)[q].contains(c));
                    if q == parent {
                        assert(false);
                    }
                }
            }
            assert forall|n: u64, k: int| #[trigger] taffy_children(t1).dom().contains(n) && 0 <= k < taffy_children(t1)[n].len()
                implies taffy_children(t1).dom().contains(#[trigger] taffy_children(t1)[n][k]) by {
                let x = taffy_children(t1)[n][k];
                if n == parent {
                    assert(children@[k] == x);
                } else {
                    assert(taffy_children(t1)[n].contains(x));
                    assert(taffy_children(t0)[n].contains(x));
                    let j = choose|j: int| 0 <= j < taffy_children(t0)[n].len() && taffy_children(t0)[n][j] == x;
                    assert(taffy_children(t0).dom().contains(taffy_children(t0)[n][j]));
                }
            }
        }
    }

    /// The children of a node, in order.
    pub fn children(&self, id: u64) -> (children: Vec<u64>)
        requires
            self.has_node(id),
        ensures
            children@ == self.children_of(id),
    {
        taffy_children_of(&self.tree, id)
    }

    /// Queues a navigation request (a later one replaces an earlier one).
    pub fn queue_action(&mut self, action: LayoutAction)
        ensures
            final(self).pending_action == Some(action),
            final(self).nodes@ == old(self).nodes@,
            final(self).tree == old(self).tree,
            final(self).root_node == old(self).root_node,
    {
        self.pending_action = Some(action);
    }

    /// Takes the queued navigation request, if any.
    pub fn take_action(&mut self) -> (action: Option<LayoutAction>)
        ensures
            action == old(self).pending_action,
            final(self).pending_action is None,
            final(self).nodes@ == old(self).nodes@,
            final(self).tree == old(self).tree,
            final(self).root_node == old(self).root_node,
    {
        let action = self.pending_action;
        self.pending_action = None;
        action
    }

    /// Gives every text node named `name` the text `text`, to be laid out and
    /// drawn again; other nodes stay as they are.
    pub fn set_text_by_name(&mut self, name: &NodeName, text: &str)
        ensures
            final(self).nodes@.len() == old(self).nodes@.len(),
            forall|i: int| 0 <= i < old(self).nodes@.len() ==> {
                let o = #[trigger] old(self).nodes@[i];
                let n = final(self).nodes@[i];
                if o.kind is Text && same_name(o.name, *name) {
                    &&& n.kind is Text
                    &&& n.kind->Text_0.content@ == text@
                    &&& n.kind->Text_0.is_pill == o.kind->Text_0.is_pill
                    &&& n.kind->Text_0.ellipsis == o.kind->Text_0.ellipsis
                    &&& n == (LayoutNode { kind: n.kind, dirty_layout: true, dirty_screen: true, ..o })
                } else {
                    n == o
                }
            },
            final(self).tree == old(self).tree,
            final(self).root_node == old(self).root_node,
            final(self).pending_action == old(self).pending_action,
            final(self).ids == old(self).ids,
    {
        let ghost start = self.nodes@;
        let mut i: usize = 0;
        while i < self.nodes.len()
            invariant
                i <= self.nodes@.len(),
                self.nodes@.len() == start.len(),
                self.tree == old(self).tree,
                self.root_node == old(self).root_node,
                self.pending_action == old(self).pending_action,
                self.ids == old(self).ids,
                start == old(self).nodes@,
                forall|j: int| i <= j < start.len() ==> self.nodes@[j] == start[j],
                forall|j: int| 0 <= j < i ==> {
                    let o = #[trigger] start[j];
                    let n = self.nodes@[j];
                    if o.kind is Text && same_name(o.name, *name) {
                        &&& n.kind is Text
                        &&& n.kind->Text_0.content@ == text@
                        &&& n.kind->Text_0.is_pill == o.kind->Text_0.is_pill
                        &&& n.kind->Text_0.ellipsis == o.kind->Text_0.ellipsis
                        &&& n == (LayoutNode { kind: n.kind, dirty_layout: true, dirty_screen: true, ..o })
                    } else {
                        n == o
                    }
                },
            decreases start.len() - i,
        {
            let is_text = match &self.nodes[i].kind {
                NodeKind::Text(_) => true,
                _ => false,
            };
            if is_text && names_match(&self.nodes[i].name, name) {
                let ghost before = self.nodes@;
                let node = self.nodes.remove(i);
                let kind = match node.kind {
                    NodeKind::Text(t) => NodeKind::Text(TextContent { content: String::from_str(text), ..t }),
                    k => k,
                };
                let node = LayoutNode { kind, dirty_layout: true, dirty_screen: true, ..node };
                self.nodes.insert(i, node);
                proof {
                    assert(self.nodes@ =~= before.update(i as int, node));
                }
            }
            i += 1;
        }
    }

    /// Gives every node named `name` the text (and icon) color `color`, to be
    /// drawn again; other nodes stay as they are.
    pub fn set_text_color_by_name(&mut self, name: &NodeName, color: Color)
        ensures
            final(self).nodes@.len() == old(self).nodes@.len(),
            forall|i: int| 0 <= i < old(self).nodes@.len() ==> {
                let o = #[trigger] old(self).nodes@[i];
                final(self).nodes@[i] == if same_name(o.name, *name) {
                    LayoutNode { style: Style { text_color: color, ..o.style }, dirty_screen: true, ..o }
                } else {
                    o
                }
            },
            final(self).tree == old(self).tree,
            final(self).root_node == old(self).root_node,
            final(self).pending_action == old(self).pending_action,
            final(self).ids == old(self).ids,
    {
        let ghost start = self.nodes@;
        let mut i: usize = 0;
        while i < self.nodes.len()
            invariant
                i <= self.nodes@.len(),
                self.nodes@.len() == start.len(),
                self.tree == old(self).tree,
                self.root_node == old(self).root_node,
                self.pending_action == old(self).pending_action,
                self.ids == old(self).ids,
                start == old(self).nodes@,
                forall|j: int| i <= j < start.len() ==> self.nodes@[j] == start[j],
                forall|j: int| 0 <= j < i ==> {
                    let o = #[trigger] start[j];
                    self.nodes@[j] == if same_name(o.name, *name) {
                        LayoutNode { style: Style { text_color: color, ..o.style }, dirty_screen: true, ..o }
                    } else {
                        o
                    }
                },
            decreases start.len() - i,
        {
            if names_match(&self.nodes[i].name, name) {
                let ghost before = self.nodes@;
                let node = self.nodes.remove(i);
                let node = LayoutNode { style: Style { text_color: color, ..node.style }, dirty_screen: true, ..node };
                self.nodes.insert(i, node);
                proof {
                    assert(self.nodes@ =~= before.update(i as int, node));
                }
            }
            i += 1;
        }
    }

    /// Shows the icon `icon` in every icon node named `name`, to be drawn again;
    /// other nodes stay as they are.
    pub fn set_icon_by_name(&mut self, name: &NodeName, icon: &str)
        ensures
            final(self).nodes@.len() == old(self).nodes@.len(),
            forall|i: int| 0 <= i < old(self).nodes@.len() ==> {
                let o = #[trigger] old(self).nodes@[i];
                let n = final(self).nodes@[i];
                if o.kind is Icon && same_name(o.name, *name) {
                    &&& n.kind is Icon
                    &&& n.kind->Icon_0@ == icon@
                    &&& n == (LayoutNode { kind: n.kind, dirty_screen: true, ..o })
                } else {
                    n == o
                }
            },
            final(self).tree == old(self).tree,
            final(self).root_node == old(self).root_node,
            final(self).pending_action == old(self).pending_action,
            final(self).ids == old(self).ids,
    {
        let ghost start = self.nodes@;
        let mut i: usize = 0;
        while i < self.nodes.len()
            invariant
                i <= self.nodes@.len(),
                self.nodes@.len() == start.len(),
                self.tree == old(self).tree,
                self.root_node == old(self).root_node,
                self.pending_action == old(self).pending_action,
                self.ids == old(self).ids,
                start == old(self).nodes@,
                forall|j: int| i <= j < start.len() ==> self.nodes@[j] == start[j],
                forall|j: int| 0 <= j < i ==> {
                    let o = #[trigger] start[j];
                    let n = self.nodes@[j];
                    if o.kind is Icon && same_name(o.name, *name) {
                        &&& n.kind is Icon
                        &&& n.kind->Icon_0@ == icon@
                        &&& n == (LayoutNode { kind: n.kind, dirty_screen: true, ..o })
                    } else {
                        n == o
                    }
                },
            decreases start.len() - i,
        {
            let is_icon = match &self.nodes[i].kind {
                NodeKind::Icon(_) => true,
                _ => false,
            };
            if is_icon && names_match(&self.nodes[i].name, name) {
                let ghost before = self.nodes@;
                let node = self.nodes.remove(i);
                let node = LayoutNode { kind: NodeKind::Icon(String::from_str(icon)), dirty_screen: true, ..node };
                self.nodes.insert(i, node);
                proof {
                    assert(self.nodes@ =~= before.update(i as int, node));
                }
            }
            i += 1;
        }
    }

    /// Where the description that node `id` finds is: the last node created
    /// with the same name as node `id` (see `description_of`).
    pub fn description_index(&self, id: u64) -> (r: Option<usize>)
        ensures
            r is None <==> description_of(*self, id) is None,
            r matches Some(i) ==> i < self.nodes@.len() && description_of(*self, id) == Some(self.nodes@[i as int]),
    {
        proof {
            reveal(description_of);
        }
        let mut k: usize = 0;
        while k < self.nodes.len() && self.nodes[k].taffy_id != id
            invariant
                k <= self.nodes@.len(),
                forall|j: int| 0 <= j < k ==> (#[trigger] self.nodes@[j]).taffy_id != id,
            decreases self.nodes@.len() - k,
        {
            k += 1;
        }
        if k == self.nodes.len() {
            proof {
                assert(!has_id(self.nodes@, id));
            }
            return None;
        }
        proof {
            lemma_first_node_index(self.nodes@, id, k as int);
            assert(self.nodes@[k as int].taffy_id == id);
            assert(has_id(self.nodes@, id));
            lemma_same_name(self.nodes@[k as int].name, self.nodes@[k as int].name, self.nodes@[k as int].name);
        }
        let name = &self.nodes[k].name;
        let mut best: usize = k;
        let mut j: usize = k + 1;
        while j < self.nodes.len()
            invariant
                k < self.nodes@.len(),
                *name == self.nodes@[k as int].name,
                k <= best < j <= self.nodes@.len(),
                same_name(self.nodes@[best as int].name, *name),
                forall|m: int| best < m < j ==> !same_name(#[trigger] self.nodes@[m].name, *name),
            decreases self.nodes@.len() - j,
        {
            if names_match(&self.nodes[j].name, name) {
                best = j;
            }
            j += 1;
        }
        proof {
            lemma_last_named(self.nodes@, *name, best as int);
        }
        Some(best)
    }

    /// Appends the nodes under `id` in pre-order, at most `depth` levels down.
    fn push_preorder(&self, id: u64, depth: usize, out: &mut Vec<u64>)
        requires
            self.wf(),
            self.has_node(id),
        ensures
            final(out)@ == old(out)@ + preorder(*self, id, depth as nat),
        decreases depth,
    {
        if depth == 0 {
            assert(old(out)@ + preorder(*self, id, 0) =~= old(out)@);
            return;
        }
        out.push(id);
        let ghost start = out@;
        let kids = self.children(id);
        let mut i: usize = 0;
        assert(kids@.take(0) =~= Seq::<u64>::empty());
        while i < kids.len()
            invariant
                self.wf(),
                self.has_node(id),
                kids@ == self.children_of(id),
                i <= kids@.len(),
                depth > 0,
                out@ == start + preorder_all(*self, kids@.take(i as int), (depth - 1) as nat),
            decreases kids@.len() - i,
        {
            assert(self.has_node(kids@[i as int]));
            self.push_preorder(kids[i], depth - 1, out);
            proof {
                let t = kids@.take(i + 1);
                assert(t.drop_last() =~= kids@.take(i as int));
                assert(t.last() == kids@[i as int]);
            }
            i += 1;
        }
        assert(kids@.take(kids@.len() as int) =~= kids@);
        assert(out@ =~= old(out)@ + preorder(*self, id, depth as nat));
    }

    /// The order in which the screen is painted: the nodes of the tree in
    /// pre-order from the root, each node before its children and the children
    /// in their order. Nodes deeper than the number of described nodes are not
    /// reached; in a tree without cycles there are none.
    pub fn draw_order(&self) -> (order: Vec<u64>)
        requires
            self.wf(),
            self.nodes@.len() < usize::MAX,
        ensures
            order@ == preorder(*self, self.root_node, (self.nodes@.len() + 1) as nat),
    {
        let mut out: Vec<u64> = Vec::new();
        self.push_preorder(self.root_node, self.nodes.len() + 1, &mut out);
        assert(out@ =~= preorder(*self, self.root_node, (self.nodes@.len() + 1) as nat));
        out
    }

    /// The description that drawing node `id` paints: the one it finds (see
    /// `description_of`), unless that one is hidden.
    pub fn drawable(&self, id: u64) -> (r: Option<usize>)
        ensures
            r is Some <==> (description_of(*self, id) matches Some(d) && d.state.visible),
            r matches Some(i) ==> i < self.nodes@.len() && description_of(*self, id) == Some(self.nodes@[i as int]),
    {
        match self.description_index(id) {
            Some(i) => if self.nodes[i].state.visible {
                Some(i)
            } else {
                None
            },
            None => None,
        }
    }

    /// A click on node `id`: when the description it finds listens for clicks
    /// and has a navigation request, that request is queued. Returns whether it was.
    pub fn click(&mut self, id: u64) -> (queued: bool)
        ensures
            queued == (description_of(*old(self), id) matches Some(d) && clickable(d)),
            queued ==> final(self).pending_action == description_of(*old(self), id)->0.events.on_click,
            !queued ==> final(self).pending_action == old(self).pending_action,
            final(self).nodes@ == old(self).nodes@,
            final(self).tree == old(self).tree,
            final(self).root_node == old(self).root_node,
            final(self).ids == old(self).ids,
    {
        match self.description_index(id) {
            Some(i) => {
                if self.nodes[i].events.caps.bits % 2 == 1 {
                    match self.nodes[i].events.on_click {
                        Some(action) => {
                            self.pending_action = Some(action);
                            return true;
                        },
                        None => {},
                    }
                }
                false
            },
            None => false,
        }
    }

}

} // verus!
