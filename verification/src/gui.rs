//! The node registry and pointer dispatch.
//!
//! A [`Gui`] owns the layout tree and, per node, an optional [`Visual`] and
//! the fact whether a control is attached. Pointer events move a single
//! highlight over the tree; what the controls have to be told comes back as
//! a list of [`Delivery`] values, in the order in which it is owed.

use vstd::prelude::*;
use std::collections::{HashMap, HashSet};
use crate::cell::{Arena, Lock, Obj};
use crate::color::Color;
use crate::render::{GuiRenderer, PaintCommand, border_strokes};
use crate::two::{EdgeRect, Vec2};
use crate::units::{sat, to_units};
use crate::layout::{
    NodeId, NodeRecord, LayoutTree, SLOT_LIMIT, well_formed, forest, linked, unlinked, removed,
    tree_nodes, tree_slots, new_tree, new_leaf, add_child, remove_child, remove_node, set_style,
    compute_layout, frame_of, children_of, parent_of, node_count, tree_styles, tree_styled,
    tree_laid_out, with_frames, Frame,
};
use crate::style::{NodeStyle, made_of_plain_values};
use crate::forest::{
    is_ancestor, leaf_record, same_links, below, lemma_ancestor_step, lemma_ancestor_of_orphan,
    lemma_below_shrinks, lemma_below_bounded, lemma_below_child, lemma_orphan_subtree_apart,
    lemma_unlinked_subtree_apart, lemma_same_links_ancestor, ancestor, lemma_empty_well_formed, lemma_leaf_well_formed,
    lemma_linked_well_formed, lemma_unlinked_well_formed, lemma_removed_well_formed,
    lemma_childless_not_ancestor, lemma_same_links_well_formed, lemma_with_frames_links,
};

verus! {

broadcast use vstd::std_specs::hash::group_hash_axioms;

/// What a control is told about the pointer.
#[derive(Clone, Copy, PartialEq, Eq, Debug, Structural)]
pub enum PointerState {
    /// The pointer is elsewhere.
    Idle,
    /// The pointer is over the node, the button up.
    Over,
    /// The pointer is over the node, the button down.
    Press,
}

/// A stroke along the edges of a node's box.
#[derive(Clone, Copy, PartialEq, Eq, Debug)]
pub struct Border {
    /// Line width of each edge; an edge of width zero or less is not drawn.
    pub widths: EdgeRect,
    pub color: Color,
}

/// Which paint layers a node has.
#[derive(Clone, Copy, PartialEq, Eq, Debug)]
pub struct Visual {
    pub background: Option<Color>,
    pub border: Option<Border>,
    /// Whether the node's widget paints content of its own over the box.
    pub foreground: bool,
}

impl Visual {
    /// A node can take the highlight exactly if it paints a background.
    pub open spec fn spec_can_highlight(&self) -> bool {
        self.background is Some
    }

    #[verifier::when_used_as_spec(spec_can_highlight)]
    pub fn can_highlight(&self) -> (can: bool)
        ensures
            can == self.spec_can_highlight(),
    {
        self.background.is_some()
    }
}

/// Pointer and screen state of a [`Gui`].
#[derive(Clone, Copy, PartialEq, Eq, Debug)]
pub struct GuiState {
    pub screen_width: u32,
    pub screen_height: u32,
    pub pointer_x: i32,
    pub pointer_y: i32,
    pub pointer_down: bool,
    pub highlight: Option<NodeId>,
}

/// A pointer state owed to the control of a node.
#[derive(Clone, Copy, PartialEq, Eq, Debug, Structural)]
pub struct Delivery {
    pub node: NodeId,
    pub state: PointerState,
}

/// The topmost target under a point: the children of `node` are asked from
/// the last to the first, each in the space of `node`, and `node` itself
/// comes after all of them. `fuel` bounds the depth of the search.
pub open spec fn hit(
    nodes: Map<NodeId, NodeRecord>,
    targets: Set<NodeId>,
    node: NodeId,
    x: int,
    y: int,
    fuel: nat,
) -> Option<NodeId>
    decreases fuel, 0nat,
{
    if fuel == 0 || !nodes.contains_key(node) || !nodes[node].frame.contains(x, y) {
        None
    } else {
        let frame = nodes[node].frame;
        let children = nodes[node].children;
        match hit_children(
            nodes,
            targets,
            children,
            children.len(),
            x - frame.x,
            y - frame.y,
            (fuel - 1) as nat,
        ) {
            Some(found) => Some(found),
            None => if targets.contains(node) {
                Some(node)
            } else {
                None
            },
        }
    }
}

/// The hit among the first `upto` of `children`, the later ones first.
pub open spec fn hit_children(
    nodes: Map<NodeId, NodeRecord>,
    targets: Set<NodeId>,
    children: Seq<NodeId>,
    upto: nat,
    x: int,
    y: int,
    fuel: nat,
) -> Option<NodeId>
    decreases fuel, upto + 1,
{
    if upto == 0 {
        None
    } else {
        match hit(nodes, targets, children[upto - 1], x, y, fuel) {
            Some(found) => Some(found),
            None => hit_children(nodes, targets, children, (upto - 1) as nat, x, y, fuel),
        }
    }
}

/// The targets under a point, in the order in which they are painted: a
/// node before its children, the children from the first to the last. A
/// node whose frame does not hold the point hides all that lies below it.
pub open spec fn under(
    nodes: Map<NodeId, NodeRecord>,
    targets: Set<NodeId>,
    node: NodeId,
    x: int,
    y: int,
    fuel: nat,
) -> Seq<NodeId>
    decreases fuel, 0nat,
{
    if fuel == 0 || !nodes.contains_key(node) || !nodes[node].frame.contains(x, y) {
        Seq::empty()
    } else {
        let frame = nodes[node].frame;
        let children = nodes[node].children;
        let own = if targets.contains(node) {
            seq![node]
        } else {
            Seq::empty()
        };
        own + under_children(
            nodes,
            targets,
            children,
            children.len(),
            x - frame.x,
            y - frame.y,
            (fuel - 1) as nat,
        )
    }
}

/// The targets under a point among the first `upto` of `children` and all
/// that lies below them, in the order in which they are painted.
pub open spec fn under_children(
    nodes: Map<NodeId, NodeRecord>,
    targets: Set<NodeId>,
    children: Seq<NodeId>,
    upto: nat,
    x: int,
    y: int,
    fuel: nat,
) -> Seq<NodeId>
    decreases fuel, upto + 1,
{
    if upto == 0 {
        Seq::empty()
    } else {
        under_children(nodes, targets, children, (upto - 1) as nat, x, y, fuel) + under(
            nodes,
            targets,
            children[upto - 1],
            x,
            y,
            fuel,
        )
    }
}

/// The last of a sequence, if it has one.
pub open spec fn last_of(s: Seq<NodeId>) -> Option<NodeId> {
    if s.len() == 0 {
        None
    } else {
        Some(s.last())
    }
}

/// What is owed when the highlight goes from `before` to `after`: `Idle` to
/// the control that loses it, then `Press` or `Over` to the one that gets it.
pub open spec fn motion_deliveries(
    before: Option<NodeId>,
    after: Option<NodeId>,
    controls: Set<NodeId>,
    pointer_down: bool,
) -> Seq<Delivery> {
    if before == after {
        Seq::empty()
    } else {
        let leave = if before is Some && controls.contains(before.unwrap()) {
            seq![Delivery { node: before.unwrap(), state: PointerState::Idle }]
        } else {
            Seq::empty()
        };
        let enter = if after is Some && controls.contains(after.unwrap()) {
            seq![Delivery { node: after.unwrap(), state: press_or_over(pointer_down) }]
        } else {
            Seq::empty()
        };
        leave + enter
    }
}

/// The state that a highlighted control is in while the button is down or up.
pub open spec fn press_or_over(pointer_down: bool) -> PointerState {
    if pointer_down {
        PointerState::Press
    } else {
        PointerState::Over
    }
}

/// What is owed when the button goes to `pressed`: nothing if it was there
/// already, else the new state to the control of the highlight, if any.
pub open spec fn button_delivery(
    pointer_down: bool,
    highlight: Option<NodeId>,
    controls: Set<NodeId>,
    pressed: bool,
) -> Option<Delivery> {
    if pointer_down != pressed && highlight is Some && controls.contains(highlight.unwrap()) {
        Some(Delivery { node: highlight.unwrap(), state: press_or_over(pressed) })
    } else {
        None
    }
}

/// The commands that paint the layers of a visual into a box: background,
/// then border, then the foreground, which is left to the node's widget.
pub open spec fn paint_visual(visual: Visual, node: NodeId, origin: Vec2, size: Vec2) -> Seq<
    PaintCommand,
> {
    let background = match visual.background {
        Some(color) => seq![PaintCommand::Rect { position: origin, size, color }],
        None => Seq::empty(),
    };
    let border = match visual.border {
        Some(border) => border_strokes(origin, size, border.color, border.widths),
        None => Seq::empty(),
    };
    let foreground = if visual.foreground {
        seq![PaintCommand::Foreground { node, position: origin, size }]
    } else {
        Seq::empty()
    };
    background + border + foreground
}

/// Where the box of a node lies, in units, when its parent lies at `origin`.
pub open spec fn node_origin(nodes: Map<NodeId, NodeRecord>, node: NodeId, origin: Vec2) -> Vec2 {
    origin.plus(
        Vec2 {
            x: sat(nodes[node].frame.x * 64) as i32,
            y: sat(nodes[node].frame.y * 64) as i32,
        },
    )
}

/// The size of the box of a node, in units.
pub open spec fn node_size(nodes: Map<NodeId, NodeRecord>, node: NodeId) -> Vec2 {
    Vec2 {
        x: sat(nodes[node].frame.width * 64) as i32,
        y: sat(nodes[node].frame.height * 64) as i32,
    }
}

/// The commands that paint `node` and all below it: the node's own layers
/// first, then its children from the first to the last, each in the space of
/// `node`. `fuel` bounds the depth of the walk.
pub open spec fn paint_node(
    nodes: Map<NodeId, NodeRecord>,
    visuals: Map<NodeId, Visual>,
    node: NodeId,
    origin: Vec2,
    fuel: nat,
) -> Seq<PaintCommand>
    decreases fuel, 0nat,
{
    if fuel == 0 || !nodes.contains_key(node) {
        Seq::empty()
    } else {
        let at = node_origin(nodes, node, origin);
        let own = if visuals.contains_key(node) {
            paint_visual(visuals[node], node, at, node_size(nodes, node))
        } else {
            Seq::empty()
        };
        let children = nodes[node].children;
        own + paint_children(nodes, visuals, children, children.len(), at, (fuel - 1) as nat)
    }
}

/// The commands that paint the first `upto` of `children`, in their order.
pub open spec fn paint_children(
    nodes: Map<NodeId, NodeRecord>,
    visuals: Map<NodeId, Visual>,
    children: Seq<NodeId>,
    upto: nat,
    origin: Vec2,
    fuel: nat,
) -> Seq<PaintCommand>
    decreases fuel, upto + 1,
{
    if upto == 0 {
        Seq::empty()
    } else {
        paint_children(nodes, visuals, children, (upto - 1) as nat, origin, fuel) + paint_node(
            nodes,
            visuals,
            children[upto - 1],
            origin,
            fuel,
        )
    }
}

/// The mathematical content of a [`Gui`].
pub struct GuiView {
    /// The nodes of the layout tree.
    pub nodes: Map<NodeId, NodeRecord>,
    /// The layout style of each node.
    pub styles: Map<NodeId, NodeStyle>,
    /// The paint descriptor of each node that has one.
    pub visuals: Map<NodeId, Visual>,
    /// The nodes with a control attached.
    pub controls: Set<NodeId>,
    pub root: NodeId,
    pub state: GuiState,
    /// How many nodes were ever created.
    pub allocated: nat,
}

impl GuiView {
    /// The nodes that can take the highlight.
    pub open spec fn targets(self) -> Set<NodeId> {
        Set::new(|n: NodeId| self.visuals.contains_key(n) && self.visuals[n].can_highlight())
    }

    /// The topmost target under the point, seen from the root.
    pub open spec fn hit(self, x: int, y: int) -> Option<NodeId> {
        hit(self.nodes, self.targets(), self.root, x, y, self.nodes.dom().len())
    }

    /// The commands that paint the tree from the root, at the origin.
    pub open spec fn paint(self) -> Seq<PaintCommand> {
        paint_node(
            self.nodes,
            self.visuals,
            self.root,
            Vec2 { x: 0, y: 0 },
            self.nodes.dom().len(),
        )
    }

    /// The view after the button went to `pressed`.
    pub open spec fn after_button(self, pressed: bool) -> GuiView {
        GuiView { state: GuiState { pointer_down: pressed, ..self.state }, ..self }
    }

    /// The view after the root was sized to `width` by `height` pixels and
    /// the tree laid out, with `frames` as the outcome.
    pub open spec fn relaid(self, width: u32, height: u32, frames: Map<NodeId, Frame>) -> GuiView {
        GuiView {
            nodes: with_frames(self.nodes, frames),
            styles: self.styles.insert(self.root, self.styles[self.root].sized(width, height)),
            ..self
        }
    }

    /// Whether the tree holds the root. It does until the root is deleted,
    /// and again once another node of the tree is made the root.
    pub open spec fn rooted(self) -> bool {
        self.nodes.contains_key(self.root)
    }

    /// The tree is a forest that has a style for each node, the registry
    /// speaks of stored nodes only, and the highlight lies on a stored
    /// target.
    pub open spec fn wf(self) -> bool {
        &&& well_formed(self.nodes)
        &&& self.styles.dom() == self.nodes.dom()
        &&& forall|n: NodeId| self.visuals.contains_key(n) ==> self.nodes.contains_key(n)
        &&& forall|n: NodeId| self.controls.contains(n) ==> self.nodes.contains_key(n)
        &&& self.state.highlight matches Some(h) ==> self.nodes.contains_key(h)
            && self.targets().contains(h)
    }

    /// The highlight after `node` has gone or lost its background.
    pub open spec fn highlight_without(self, node: NodeId) -> Option<NodeId> {
        if self.state.highlight == Some(node) {
            None
        } else {
            self.state.highlight
        }
    }
}

/// The registry of nodes with its layout tree and pointer state.
pub struct Gui {
    state: GuiState,
    layout: LayoutTree,
    root: NodeId,
    allocated: u32,
    known: HashSet<NodeId>,
    styles: HashMap<NodeId, NodeStyle>,
    visuals: HashMap<NodeId, Visual>,
    controls: HashSet<NodeId>,
}

impl View for Gui {
    type V = GuiView;

    closed spec fn view(&self) -> GuiView {
        GuiView {
            nodes: tree_nodes(self.layout),
            styles: self.styles@,
            visuals: self.visuals@,
            controls: self.controls@,
            root: self.root,
            state: self.state,
            allocated: self.allocated as nat,
        }
    }
}

/// Paints the layers of a visual into the box of the cursor.
fn paint_layers(renderer: &mut GuiRenderer, visual: &Visual, node: NodeId)
    ensures
        final(renderer).commands@ == old(renderer).commands@ + paint_visual(
            *visual,
            node,
            old(renderer).translation,
            old(renderer).size,
        ),
        final(renderer).translation == old(renderer).translation,
        final(renderer).translation_stack == old(renderer).translation_stack,
        final(renderer).size == old(renderer).size,
{
    let ghost base = renderer.commands@;
    let ghost at = renderer.translation;
    let ghost size = renderer.size;
    match visual.background {
        Some(color) => {
            renderer.set_color(color);
            renderer.draw_rect();
        },
        None => {},
    }
    let ghost background = match visual.background {
        Some(color) => seq![PaintCommand::Rect { position: at, size, color }],
        None => Seq::empty(),
    };
    assert(renderer.commands@ =~= base + background);
    match visual.border {
        Some(border) => {
            renderer.set_color(border.color);
            renderer.draw_border(border.widths);
        },
        None => {},
    }
    let ghost strokes = match visual.border {
        Some(border) => border_strokes(at, size, border.color, border.widths),
        None => Seq::empty(),
    };
    assert(renderer.commands@ =~= base + background + strokes);
    if visual.foreground {
        renderer.draw_foreground(node);
    }
    let ghost foreground = if visual.foreground {
        seq![PaintCommand::Foreground { node, position: at, size }]
    } else {
        Seq::empty()
    };
    assert(renderer.commands@ =~= base + (background + strokes + foreground));
}

fn same_node(a: Option<NodeId>, b: Option<NodeId>) -> (same: bool)
    ensures
        same == (a == b),
{
    match (a, b) {
        (Some(x), Some(y)) => x == y,
        (None, None) => true,
        _ => false,
    }
}

impl Gui {
    /// The invariant of the registry.
    pub closed spec fn wf(&self) -> bool {
        &&& self@.wf()
        &&& tree_slots(self.layout) <= self.allocated
        &&& self.known@ == self@.nodes.dom()
        &&& tree_styles(self.layout).dom() == self@.nodes.dom()
        &&& forall|n: NodeId| #[trigger]
            self.styles@.contains_key(n) ==> tree_styles(self.layout)[n] == self.styles@[n].engine()
    }

    /// The frames that the engine computes for the tree of this registry
    /// once `root` is sized to `width` by `height` pixels and the tree is
    /// laid out from it in that space.
    pub closed spec fn laid_out(&self, root: NodeId, width: u32, height: u32) -> Map<NodeId, Frame> {
        tree_laid_out(
            tree_styled(
                self.layout,
                root,
                self.styles@[root].sized(width, height).engine(),
            ),
            root,
            width,
            height,
        )
    }

    /// What the invariant says of the content of the registry.
    pub proof fn lemma_view_wf(&self)
        requires
            self.wf(),
        ensures
            self@.wf(),
    {
    }

    /// A registry whose tree is a single root without visual or control.
    pub fn new() -> (gui: Gui)
        ensures
            gui.wf(),
            gui@.rooted(),
            gui@.nodes == Map::<NodeId, NodeRecord>::empty().insert(gui@.root, leaf_record()),
            gui@.styles == Map::<NodeId, NodeStyle>::empty().insert(gui@.root, NodeStyle::plain()),
            gui@.visuals == Map::<NodeId, Visual>::empty(),
            gui@.controls == Set::<NodeId>::empty(),
            gui@.allocated == 1,
            gui@.state == (GuiState {
                screen_width: 0,
                screen_height: 0,
                pointer_x: 0,
                pointer_y: 0,
                pointer_down: false,
                highlight: None,
            }),
    {
        let mut layout = new_tree();
        let ghost before = tree_nodes(layout);
        let style = NodeStyle::new();
        let root = new_leaf(&mut layout, style.to_engine());
        let mut known = HashSet::new();
        known.insert(root);
        let mut styles = HashMap::new();
        styles.insert(root, style);
        proof {
            assert(before =~= Map::<NodeId, NodeRecord>::empty());
            lemma_empty_well_formed(before);
            lemma_leaf_well_formed(before, root);
            assert(known@ =~= tree_nodes(layout).dom());
            assert(styles@.dom() =~= tree_nodes(layout).dom());
            assert(tree_styles(layout).dom() =~= tree_nodes(layout).dom());
        }
        Gui {
            state: GuiState {
                screen_width: 0,
                screen_height: 0,
                pointer_x: 0,
                pointer_y: 0,
                pointer_down: false,
                highlight: None,
            },
            layout,
            root,
            allocated: 1,
            known,
            styles,
            visuals: HashMap::new(),
            controls: HashSet::new(),
        }
    }

    /// Takes the new screen size and lays the tree out in it.
    pub fn set_screen_size(&mut self, width: u32, height: u32)
        requires
            old(self).wf(),
            old(self)@.rooted(),
        ensures
            final(self).wf(),
            final(self)@.rooted() == old(self)@.rooted(),
            same_links(old(self)@.nodes, final(self)@.nodes),
            final(self)@ == (GuiView {
                state: GuiState { screen_width: width, screen_height: height, ..old(self)@.state },
                ..old(self)@
            }).relaid(width, height, old(self).laid_out(old(self)@.root, width, height)),
    {
        self.state.screen_width = width;
        self.state.screen_height = height;
        self.layout();
    }

    pub fn root(&self) -> (root: NodeId)
        ensures
            root == self@.root,
    {
        self.root
    }

    /// The pointer and screen state.
    pub fn state(&self) -> (state: GuiState)
        ensures
            state == self@.state,
    {
        self.state
    }

    /// Whether the tree holds the root.
    pub fn rooted(&self) -> (found: bool)
        requires
            self.wf(),
        ensures
            found == self@.rooted(),
    {
        self.known.contains(&self.root)
    }

    /// Whether the tree holds the node.
    pub fn contains(&self, node: NodeId) -> (found: bool)
        requires
            self.wf(),
        ensures
            found == self@.nodes.contains_key(node),
    {
        self.known.contains(&node)
    }

    /// The parent of a node of the tree.
    pub fn parent(&self, node: NodeId) -> (parent: Option<NodeId>)
        requires
            self.wf(),
            self@.nodes.contains_key(node),
        ensures
            parent == self@.nodes[node].parent,
    {
        parent_of(&self.layout, node)
    }

    /// The children of a node of the tree, in the order they were added.
    pub fn children(&self, node: NodeId) -> (children: Vec<NodeId>)
        requires
            self.wf(),
            self@.nodes.contains_key(node),
        ensures
            children@ == self@.nodes[node].children,
    {
        children_of(&self.layout, node)
    }

    /// Whether `child` is one of the children of `parent`.
    pub fn has_child(&self, parent: NodeId, child: NodeId) -> (found: bool)
        requires
            self.wf(),
            self@.nodes.contains_key(parent),
        ensures
            found == self@.nodes[parent].children.contains(child),
    {
        let children = children_of(&self.layout, parent);
        let mut i: usize = 0;
        while i < children.len()
            invariant
                i <= children@.len(),
                children@ == self@.nodes[parent].children,
                forall|j: int| 0 <= j < i ==> children@[j] != child,
            decreases children@.len() - i,
        {
            if children[i] == child {
                return true;
            }
            i = i + 1;
        }
        false
    }

    /// Whether `ancestor` is `node` or lies on the chain of parents above it.
    pub fn is_ancestor(&self, ancestor: NodeId, node: NodeId) -> (found: bool)
        requires
            self.wf(),
            self@.nodes.contains_key(node),
        ensures
            found == is_ancestor(self@.nodes, ancestor, node),
    {
        let ghost nodes = self@.nodes;
        let ghost depth = choose|depth: Map<NodeId, nat>| forest(nodes, depth);
        let mut current = node;
        loop
            invariant
                self.wf(),
                nodes == self@.nodes,
                forest(nodes, depth),
                nodes.contains_key(current),
                is_ancestor(nodes, ancestor, node) <==> is_ancestor(nodes, ancestor, current),
            decreases depth[current],
        {
            if current == ancestor {
                proof {
                    assert(crate::forest::ancestor(nodes, current, 0) == Some(ancestor));
                }
                return true;
            }
            match parent_of(&self.layout, current) {
                Some(parent) => {
                    proof {
                        lemma_ancestor_step(nodes, ancestor, current);
                    }
                    current = parent;
                },
                None => {
                    proof {
                        lemma_ancestor_of_orphan(nodes, ancestor, current);
                    }
                    return false;
                },
            }
        }
    }

    /// How many nodes were ever created; creation stops at [`SLOT_LIMIT`].
    pub fn allocated(&self) -> (count: u32)
        ensures
            count == self@.allocated,
    {
        self.allocated
    }

    /// Creates a node that hangs under no parent.
    pub fn add_root(&mut self) -> (node: NodeId)
        requires
            old(self).wf(),
            old(self)@.allocated < SLOT_LIMIT,
        ensures
            final(self).wf(),
            old(self)@.rooted() ==> final(self)@.rooted(),
            !old(self)@.nodes.contains_key(node),
            final(self)@ == (GuiView {
                nodes: old(self)@.nodes.insert(node, leaf_record()),
                styles: old(self)@.styles.insert(node, NodeStyle::plain()),
                allocated: old(self)@.allocated + 1,
                ..old(self)@
            }),
    {
        self.new_leaf(NodeStyle::new())
    }

    fn new_leaf(&mut self, style: NodeStyle) -> (node: NodeId)
        requires
            old(self).wf(),
            old(self)@.allocated < SLOT_LIMIT,
        ensures
            final(self).wf(),
            old(self)@.rooted() ==> final(self)@.rooted(),
            !old(self)@.nodes.contains_key(node),
            final(self)@ == (GuiView {
                nodes: old(self)@.nodes.insert(node, leaf_record()),
                styles: old(self)@.styles.insert(node, style),
                allocated: old(self)@.allocated + 1,
                ..old(self)@
            }),
    {
        let node = new_leaf(&mut self.layout, style.to_engine());
        self.allocated = self.allocated + 1;
        self.known.insert(node);
        self.styles.insert(node, style);
        proof {
            lemma_leaf_well_formed(old(self)@.nodes, node);
            assert(self.known@ =~= self@.nodes.dom());
            assert(self@.styles.dom() =~= self@.nodes.dom());
            assert(tree_styles(self.layout).dom() =~= self@.nodes.dom());
        }
        node
    }

    /// Creates a node that hangs under no parent, with the visual if one is
    /// given.
    pub fn create_node(&mut self, style: NodeStyle, visual: Option<Visual>) -> (node: NodeId)
        requires
            old(self).wf(),
            old(self)@.allocated < SLOT_LIMIT,
        ensures
            final(self).wf(),
            old(self)@.rooted() ==> final(self)@.rooted(),
            !old(self)@.nodes.contains_key(node),
            final(self)@ == (GuiView {
                nodes: old(self)@.nodes.insert(node, leaf_record()),
                styles: old(self)@.styles.insert(node, style),
                visuals: match visual {
                    Some(v) => old(self)@.visuals.insert(node, v),
                    None => old(self)@.visuals,
                },
                allocated: old(self)@.allocated + 1,
                ..old(self)@
            }),
    {
        let node = self.new_leaf(style);
        match visual {
            Some(v) => {
                self.visuals.insert(node, v);
                proof {
                    assert(old(self)@.state.highlight matches Some(h) ==> h != node);
                }
            },
            None => {},
        }
        node
    }

    /// Creates a node with a control, under no parent, and the widget that
    /// belongs to it: `factory` makes the widget for the node, and the
    /// widget is put into the arena.
    pub fn create_widget<T, F: FnOnce(NodeId) -> T>(
        &mut self,
        arena: &mut Arena<T>,
        style: NodeStyle,
        visual: Option<Visual>,
        factory: F,
    ) -> (created: (NodeId, Obj))
        requires
            old(self).wf(),
            old(arena).wf(),
            old(self)@.allocated < SLOT_LIMIT,
            forall|node: NodeId| call_requires(factory, (node,)),
        ensures
            final(self).wf(),
            old(self)@.rooted() ==> final(self)@.rooted(),
            final(arena).wf(),
            !old(self)@.nodes.contains_key(created.0),
            final(self)@ == (GuiView {
                nodes: old(self)@.nodes.insert(created.0, leaf_record()),
                styles: old(self)@.styles.insert(created.0, style),
                visuals: match visual {
                    Some(v) => old(self)@.visuals.insert(created.0, v),
                    None => old(self)@.visuals,
                },
                controls: old(self)@.controls.insert(created.0),
                allocated: old(self)@.allocated + 1,
                ..old(self)@
            }),
            final(arena).alive(created.1@),
            !old(arena).alive(created.1@),
            final(arena)@[created.1@.index].strong() == 1,
            final(arena).cell(created.1@).lock() == Lock::Free,
            call_ensures(factory, (created.0,), final(arena).cell(created.1@).inner()),
            final(arena)@.len() >= old(arena)@.len(),
            forall|i: int|
                0 <= i < old(arena)@.len() && i != created.1@.index ==> final(arena)@[i] == old(
                    arena,
                )@[i],
    {
        let node = self.create_node(style, visual);
        self.controls.insert(node);
        let widget = factory(node);
        let obj = Obj::new(arena, widget);
        (node, obj)
    }

    /// Makes `root` the node from which layout, painting and hit-testing
    /// start, lays the tree out and looks again for what is under the pointer.
    pub fn set_root(&mut self, root: NodeId) -> (deliveries: Vec<Delivery>)
        requires
            old(self).wf(),
            old(self)@.nodes.contains_key(root),
        ensures
            final(self).wf(),
            final(self)@.rooted(),
            root == old(self)@.root ==> final(self)@ == old(self)@ && deliveries@.len() == 0,
            root != old(self)@.root ==> {
                &&& same_links(old(self)@.nodes, final(self)@.nodes)
                &&& final(self)@ == (GuiView {
                    state: GuiState {
                        highlight: final(self)@.hit(
                            old(self)@.state.pointer_x as int,
                            old(self)@.state.pointer_y as int,
                        ),
                        ..old(self)@.state
                    },
                    ..(GuiView { root, ..old(self)@ }).relaid(
                        old(self)@.state.screen_width,
                        old(self)@.state.screen_height,
                        old(self).laid_out(
                            root,
                            old(self)@.state.screen_width,
                            old(self)@.state.screen_height,
                        ),
                    )
                })
                &&& deliveries@ == motion_deliveries(
                    old(self)@.state.highlight,
                    final(self)@.state.highlight,
                    old(self)@.controls,
                    old(self)@.state.pointer_down,
                )
            },
    {
        if self.root != root {
            self.root = root;
            self.layout();
            let x = self.state.pointer_x;
            let y = self.state.pointer_y;
            self.handle_pointer_motion(x, y)
        } else {
            Vec::new()
        }
    }

    /// Appends `child`, which has no parent yet, to the children of `parent`.
    /// A node cannot be hung under itself or under one of its descendants.
    pub fn add_child(&mut self, parent: NodeId, child: NodeId)
        requires
            old(self).wf(),
            old(self)@.nodes.contains_key(parent),
            old(self)@.nodes.contains_key(child),
            old(self)@.nodes[child].parent is None,
            !is_ancestor(old(self)@.nodes, child, parent),
        ensures
            final(self).wf(),
            final(self)@.rooted() == old(self)@.rooted(),
            final(self)@ == (GuiView {
                nodes: linked(old(self)@.nodes, parent, child),
                ..old(self)@
            }),
    {
        proof {
            lemma_linked_well_formed(self@.nodes, parent, child);
            assert(linked(self@.nodes, parent, child).dom() =~= self@.nodes.dom());
        }
        add_child(&mut self.layout, parent, child);
    }

    /// Takes `child` out of the children of `parent`. The child stays in the
    /// registry; if it held the highlight, the highlight is cleared.
    pub fn remove_child(&mut self, parent: NodeId, child: NodeId)
        requires
            old(self).wf(),
            old(self)@.nodes.contains_key(parent),
            old(self)@.nodes[parent].children.contains(child),
        ensures
            final(self).wf(),
            final(self)@.rooted() == old(self)@.rooted(),
            final(self)@ == (GuiView {
                nodes: unlinked(old(self)@.nodes, parent, child),
                state: GuiState {
                    highlight: old(self)@.highlight_without(child),
                    ..old(self)@.state
                },
                ..old(self)@
            }),
    {
        proof {
            lemma_unlinked_well_formed(self@.nodes, parent, child);
        }
        remove_child(&mut self.layout, parent, child);
        if same_node(self.state.highlight, Some(child)) {
            self.state.highlight = None;
        }
    }

    /// Creates a node without visual or control as the last child of `parent`.
    pub fn add_node(&mut self, parent: NodeId, style: NodeStyle) -> (node: NodeId)
        requires
            old(self).wf(),
            old(self)@.nodes.contains_key(parent),
            old(self)@.allocated < SLOT_LIMIT,
        ensures
            final(self).wf(),
            old(self)@.rooted() ==> final(self)@.rooted(),
            !old(self)@.nodes.contains_key(node),
            final(self)@ == (GuiView {
                nodes: linked(old(self)@.nodes.insert(node, leaf_record()), parent, node),
                styles: old(self)@.styles.insert(node, style),
                allocated: old(self)@.allocated + 1,
                ..old(self)@
            }),
    {
        let node = self.new_leaf(style);
        proof {
            lemma_childless_not_ancestor(self@.nodes, node, parent);
        }
        self.add_child(parent, node);
        node
    }

    /// Creates a painted node as the last child of `parent`.
    pub fn add_view(&mut self, parent: NodeId, visual: Visual, style: NodeStyle) -> (node: NodeId)
        requires
            old(self).wf(),
            old(self)@.nodes.contains_key(parent),
            old(self)@.allocated < SLOT_LIMIT,
        ensures
            final(self).wf(),
            old(self)@.rooted() ==> final(self)@.rooted(),
            !old(self)@.nodes.contains_key(node),
            final(self)@ == (GuiView {
                nodes: linked(old(self)@.nodes.insert(node, leaf_record()), parent, node),
                styles: old(self)@.styles.insert(node, style),
                visuals: old(self)@.visuals.insert(node, visual),
                allocated: old(self)@.allocated + 1,
                ..old(self)@
            }),
    {
        let node = self.add_node(parent, style);
        self.visuals.insert(node, visual);
        proof {
            assert(old(self)@.state.highlight matches Some(h) ==> h != node);
        }
        node
    }

    /// Creates a painted node with a control as the last child of `parent`.
    pub fn add_view_control(&mut self, parent: NodeId, visual: Visual, style: NodeStyle) -> (node:
        NodeId)
        requires
            old(self).wf(),
            old(self)@.nodes.contains_key(parent),
            old(self)@.allocated < SLOT_LIMIT,
        ensures
            final(self).wf(),
            old(self)@.rooted() ==> final(self)@.rooted(),
            !old(self)@.nodes.contains_key(node),
            final(self)@ == (GuiView {
                nodes: linked(old(self)@.nodes.insert(node, leaf_record()), parent, node),
                styles: old(self)@.styles.insert(node, style),
                visuals: old(self)@.visuals.insert(node, visual),
                controls: old(self)@.controls.insert(node),
                allocated: old(self)@.allocated + 1,
                ..old(self)@
            }),
    {
        let node = self.add_view(parent, visual, style);
        self.controls.insert(node);
        node
    }

    /// Gives `node` the visual, or takes its visual away. A highlighted node
    /// that loses its background loses the highlight with it.
    pub fn set_visual(&mut self, node: NodeId, visual: Option<Visual>)
        requires
            old(self).wf(),
            old(self)@.nodes.contains_key(node),
        ensures
            final(self).wf(),
            final(self)@.rooted() == old(self)@.rooted(),
            final(self)@ == (GuiView {
                visuals: match visual {
                    Some(v) => old(self)@.visuals.insert(node, v),
                    None => old(self)@.visuals.remove(node),
                },
                state: GuiState {
                    highlight: if visual matches Some(v) && v.can_highlight() {
                        old(self)@.state.highlight
                    } else {
                        old(self)@.highlight_without(node)
                    },
                    ..old(self)@.state
                },
                ..old(self)@
            }),
    {
        let keeps = match visual {
            Some(v) => {
                self.visuals.insert(node, v);
                v.can_highlight()
            },
            None => {
                self.visuals.remove(&node);
                false
            },
        };
        if !keeps && same_node(self.state.highlight, Some(node)) {
            self.state.highlight = None;
        }
    }

    /// Deletes `node` from the tree and the registry. Its children stay,
    /// without a parent. When the root is deleted, the tree is without root
    /// until another node is made the root.
    pub fn destroy(&mut self, node: NodeId)
        requires
            old(self).wf(),
            old(self)@.nodes.contains_key(node),
        ensures
            final(self).wf(),
            final(self)@.rooted() == (old(self)@.rooted() && node != old(self)@.root),
            final(self)@ == (GuiView {
                nodes: removed(old(self)@.nodes, node),
                styles: old(self)@.styles.remove(node),
                visuals: old(self)@.visuals.remove(node),
                controls: old(self)@.controls.remove(node),
                state: GuiState {
                    highlight: old(self)@.highlight_without(node),
                    ..old(self)@.state
                },
                ..old(self)@
            }),
    {
        proof {
            lemma_removed_well_formed(self@.nodes, node);
        }
        remove_node(&mut self.layout, node);
        self.known.remove(&node);
        self.styles.remove(&node);
        self.visuals.remove(&node);
        self.controls.remove(&node);
        if same_node(self.state.highlight, Some(node)) {
            self.state.highlight = None;
        }
    }

    /// Replaces the layout style of `node`. Frames stay as they are until
    /// the tree is laid out again.
    pub fn set_style(&mut self, node: NodeId, style: NodeStyle)
        requires
            old(self).wf(),
            old(self)@.nodes.contains_key(node),
        ensures
            final(self).wf(),
            final(self)@.rooted() == old(self)@.rooted(),
            final(self)@ == (GuiView {
                styles: old(self)@.styles.insert(node, style),
                ..old(self)@
            }),
    {
        set_style(&mut self.layout, node, style.to_engine());
        self.styles.insert(node, style);
        proof {
            assert(self@.styles.dom() =~= old(self)@.styles.dom());
            assert(tree_styles(self.layout).dom() =~= self@.nodes.dom());
        }
    }

    /// The layout style of `node`.
    pub fn style(&self, node: NodeId) -> (style: NodeStyle)
        requires
            self.wf(),
            self@.nodes.contains_key(node),
        ensures
            style == self@.styles[node],
    {
        match self.styles.get(&node) {
            Some(style) => *style,
            None => NodeStyle::new(),
        }
    }

    /// Sizes the root to the screen and computes the frames below it: the
    /// style of the root gets the size of the screen, and every node gets
    /// the frame that the engine computes for it. The links of the tree and
    /// the registry stay as they are.
    pub fn layout(&mut self)
        requires
            old(self).wf(),
            old(self)@.rooted(),
        ensures
            final(self).wf(),
            final(self)@.rooted() == old(self)@.rooted(),
            same_links(old(self)@.nodes, final(self)@.nodes),
            final(self)@ == old(self)@.relaid(
                old(self)@.state.screen_width,
                old(self)@.state.screen_height,
                old(self).laid_out(
                    old(self)@.root,
                    old(self)@.state.screen_width,
                    old(self)@.state.screen_height,
                ),
            ),
    {
        let width = self.state.screen_width;
        let height = self.state.screen_height;
        let root_style = self.style(self.root).with_size(width, height);
        set_style(&mut self.layout, self.root, root_style.to_engine());
        self.styles.insert(self.root, root_style);
        proof {
            assert(self.styles@.dom() =~= old(self)@.styles.dom());
            assert(tree_styles(self.layout).dom() =~= tree_nodes(self.layout).dom());
            assert forall|n: NodeId| #[trigger]
                tree_styles(self.layout).contains_key(n) implies made_of_plain_values(
                tree_styles(self.layout)[n],
            ) by {
                assert(self.styles@.contains_key(n));
                assert(tree_styles(self.layout)[n] == self.styles@[n].engine());
            }
        }
        compute_layout(&mut self.layout, self.root, width, height);
        proof {
            lemma_with_frames_links(
                old(self)@.nodes,
                old(self).laid_out(old(self)@.root, width, height),
            );
            lemma_same_links_well_formed(old(self)@.nodes, self@.nodes);
            assert(self@.styles.dom() =~= old(self)@.styles.dom());
        }
    }

    /// Paints the tree: every node after its parent and after the siblings
    /// that were added before it.
    pub fn render(&self) -> (commands: Vec<PaintCommand>)
        requires
            self.wf(),
            self@.rooted(),
        ensures
            commands@ == self@.paint(),
    {
        let mut renderer = GuiRenderer::new();
        let fuel = node_count(&self.layout);
        self.render_node(&mut renderer, self.root, fuel);
        renderer.commands
    }

    fn render_node(&self, renderer: &mut GuiRenderer, node: NodeId, fuel: usize)
        requires
            self.wf(),
            self@.nodes.contains_key(node),
        ensures
            final(renderer).commands@ == old(renderer).commands@ + paint_node(
                self@.nodes,
                self@.visuals,
                node,
                old(renderer).translation,
                fuel as nat,
            ),
            final(renderer).translation == old(renderer).translation,
            final(renderer).translation_stack@ == old(renderer).translation_stack@,
        decreases fuel,
    {
        if fuel == 0 {
            return ;
        }
        let ghost nodes = self@.nodes;
        let ghost visuals = self@.visuals;
        let ghost base = renderer.commands@;
        let ghost start = renderer.translation;
        let ghost stack = renderer.translation_stack@;
        let frame = frame_of(&self.layout, node);
        renderer.push_translation();
        renderer.translate(to_units(frame.x), to_units(frame.y));
        let ghost at = renderer.translation;
        match self.visuals.get(&node) {
            Some(visual) => {
                renderer.set_size(
                    Vec2 { x: to_units(frame.width), y: to_units(frame.height) },
                );
                paint_layers(renderer, visual, node);
            },
            None => {},
        }
        let ghost own = if visuals.contains_key(node) {
            paint_visual(visuals[node], node, at, node_size(nodes, node))
        } else {
            Seq::empty()
        };
        let children = children_of(&self.layout, node);
        proof {
            let depth = choose|depth: Map<NodeId, nat>| forest(nodes, depth);
            assert forall|j: int| 0 <= j < children@.len() implies nodes.contains_key(
                #[trigger] children@[j],
            ) by {
                assert(nodes.contains_key(nodes[node].children[j]));
            }
            assert(renderer.commands@ =~= base + own);
        }
        let mut i: usize = 0;
        while i < children.len()
            invariant
                self.wf(),
                nodes == self@.nodes,
                visuals == self@.visuals,
                fuel > 0,
                i <= children@.len(),
                forall|j: int| 0 <= j < children@.len() ==> nodes.contains_key(#[trigger] children@[j]),
                renderer.translation == at,
                renderer.translation_stack@ == stack.push(start),
                renderer.commands@ == base + own + paint_children(
                    nodes,
                    visuals,
                    children@,
                    i as nat,
                    at,
                    (fuel - 1) as nat,
                ),
            decreases children@.len() - i,
        {
            let child = children[i];
            let ghost before = renderer.commands@;
            self.render_node(renderer, child, fuel - 1);
            i = i + 1;
            proof {
                assert(renderer.commands@ =~= base + own + paint_children(
                    nodes,
                    visuals,
                    children@,
                    i as nat,
                    at,
                    (fuel - 1) as nat,
                ));
            }
        }
        renderer.pop_translation();
        proof {
            assert(stack.push(start).drop_last() =~= stack);
            assert(renderer.commands@ =~= base + paint_node(nodes, visuals, node, start, fuel as nat));
        }
    }

    fn is_target(&self, node: NodeId) -> (target: bool)
        ensures
            target == self@.targets().contains(node),
    {
        match self.visuals.get(&node) {
            Some(visual) => visual.can_highlight(),
            None => false,
        }
    }

    fn hit_highlightable_node(&self, node: NodeId, x: i32, y: i32, fuel: usize) -> (found: Option<
        NodeId,
    >)
        requires
            self.wf(),
            self@.nodes.contains_key(node),
        ensures
            found == hit(self@.nodes, self@.targets(), node, x as int, y as int, fuel as nat),
        decreases fuel,
    {
        if fuel == 0 {
            return None;
        }
        let frame = frame_of(&self.layout, node);
        let local_x: i64 = x as i64 - frame.x as i64;
        let local_y: i64 = y as i64 - frame.y as i64;
        if local_x >= 0 && local_y >= 0 && local_x < frame.width as i64 && local_y
            < frame.height as i64 {
            let children = children_of(&self.layout, node);
            let ghost nodes = self@.nodes;
            let ghost targets = self@.targets();
            proof {
                let depth = choose|depth: Map<NodeId, nat>| forest(nodes, depth);
                assert forall|j: int| 0 <= j < children@.len() implies nodes.contains_key(
                    #[trigger] children@[j],
                ) by {
                    assert(nodes.contains_key(nodes[node].children[j]));
                }
            }
            let mut i = children.len();
            while i > 0
                invariant
                    self.wf(),
                    nodes == self@.nodes,
                    targets == self@.targets(),
                    fuel > 0,
                    nodes.contains_key(node),
                    children@ == nodes[node].children,
                    frame == nodes[node].frame,
                    frame.contains(x as int, y as int),
                    local_x == x - frame.x,
                    local_y == y - frame.y,
                    0 <= i <= children@.len(),
                    forall|j: int| 0 <= j < children@.len() ==> nodes.contains_key(#[trigger] children@[j]),
                    hit_children(
                        nodes,
                        targets,
                        children@,
                        children@.len(),
                        local_x as int,
                        local_y as int,
                        (fuel - 1) as nat,
                    ) == hit_children(
                        nodes,
                        targets,
                        children@,
                        i as nat,
                        local_x as int,
                        local_y as int,
                        (fuel - 1) as nat,
                    ),
                decreases i,
            {
                i = i - 1;
                let child = children[i];
                let found = self.hit_highlightable_node(child, local_x as i32, local_y as i32, fuel - 1);
                if found.is_some() {
                    return found;
                }
            }
            if self.is_target(node) {
                return Some(node);
            }
        }
        None
    }

    /// The topmost node under the point that can take the highlight.
    pub fn hit_test(&self, x: i32, y: i32) -> (found: Option<NodeId>)
        requires
            self.wf(),
            self@.rooted(),
        ensures
            found == self@.hit(x as int, y as int),
            found matches Some(n) ==> self@.nodes.contains_key(n) && self@.targets().contains(n),
            found matches Some(n) ==> n == self@.root || below(self@.nodes, self@.root).contains(n),
    {
        let fuel = node_count(&self.layout);
        proof {
            lemma_hit_is_target(
                self@.nodes,
                self@.targets(),
                self@.root,
                x as int,
                y as int,
                fuel as nat,
            );
            lemma_hit_below(
                self@.nodes,
                self@.targets(),
                self@.root,
                x as int,
                y as int,
                fuel as nat,
            );
        }
        self.hit_highlightable_node(self.root, x, y, fuel)
    }

    /// Moves the pointer and, with it, the highlight to the topmost target
    /// under the new position.
    pub fn handle_pointer_motion(&mut self, x: i32, y: i32) -> (deliveries: Vec<Delivery>)
        requires
            old(self).wf(),
            old(self)@.rooted(),
        ensures
            final(self).wf(),
            final(self)@.rooted() == old(self)@.rooted(),
            final(self)@ == (GuiView {
                state: GuiState {
                    pointer_x: x,
                    pointer_y: y,
                    highlight: old(self)@.hit(x as int, y as int),
                    ..old(self)@.state
                },
                ..old(self)@
            }),
            deliveries@ == motion_deliveries(
                old(self)@.state.highlight,
                old(self)@.hit(x as int, y as int),
                old(self)@.controls,
                old(self)@.state.pointer_down,
            ),
    {
        let highlight = self.hit_test(x, y);
        self.state.pointer_x = x;
        self.state.pointer_y = y;
        let mut deliveries: Vec<Delivery> = Vec::new();
        if !same_node(highlight, self.state.highlight) {
            if let Some(node) = self.state.highlight {
                if self.controls.contains(&node) {
                    deliveries.push(Delivery { node, state: PointerState::Idle });
                }
            }
            if let Some(node) = highlight {
                if self.controls.contains(&node) {
                    let state = if self.state.pointer_down {
                        PointerState::Press
                    } else {
                        PointerState::Over
                    };
                    deliveries.push(Delivery { node, state });
                }
            }
            self.state.highlight = highlight;
        }
        proof {
            assert(deliveries@ =~= motion_deliveries(
                old(self)@.state.highlight,
                old(self)@.hit(x as int, y as int),
                old(self)@.controls,
                old(self)@.state.pointer_down,
            ));
        }
        deliveries
    }

    /// Takes the new state of the pointer button. A value that is already
    /// stored changes nothing and owes nothing.
    pub fn handle_pointer_button(&mut self, pressed: bool) -> (delivery: Option<Delivery>)
        requires
            old(self).wf(),
        ensures
            final(self).wf(),
            final(self)@.rooted() == old(self)@.rooted(),
            final(self)@ == old(self)@.after_button(pressed),
            delivery == button_delivery(
                old(self)@.state.pointer_down,
                old(self)@.state.highlight,
                old(self)@.controls,
                pressed,
            ),
    {
        if self.state.pointer_down == pressed {
            return None;
        }
        let mut delivery: Option<Delivery> = None;
        if let Some(node) = self.state.highlight {
            if self.controls.contains(&node) {
                let state = if pressed {
                    PointerState::Press
                } else {
                    PointerState::Over
                };
                delivery = Some(Delivery { node, state });
            }
        }
        self.state.pointer_down = pressed;
        delivery
    }
}

/// Pressing or releasing the button twice in a row with the same value makes
/// one transition at most: after the first call the value is stored, so the
/// second call changes nothing and owes nothing. The first call owes
/// something only if the value was new.
pub proof fn lemma_button_repeat(view: GuiView, pressed: bool)
    ensures
        view.after_button(pressed).after_button(pressed) == view.after_button(pressed),
        button_delivery(
            view.after_button(pressed).state.pointer_down,
            view.after_button(pressed).state.highlight,
            view.after_button(pressed).controls,
            pressed,
        ) is None,
        view.state.pointer_down == pressed ==> view.after_button(pressed) == view
            && button_delivery(view.state.pointer_down, view.state.highlight, view.controls, pressed)
            is None,
{
}

/// Nothing is owed to a node outside the tree.
pub proof fn lemma_deliveries_in_tree(view: GuiView, after: Option<NodeId>, i: int)
    requires
        view.wf(),
        0 <= i < motion_deliveries(
            view.state.highlight,
            after,
            view.controls,
            view.state.pointer_down,
        ).len(),
    ensures
        view.nodes.contains_key(
            motion_deliveries(view.state.highlight, after, view.controls, view.state.pointer_down)[i].node,
        ),
{
}

/// Nothing is owed to a node outside the tree when the button changes.
pub proof fn lemma_button_delivery_in_tree(view: GuiView, pressed: bool)
    requires
        view.wf(),
    ensures
        button_delivery(view.state.pointer_down, view.state.highlight, view.controls, pressed)
            matches Some(delivery) ==> view.nodes.contains_key(delivery.node)
            && view.state.highlight == Some(delivery.node),
{
}

/// A hit can only be found where the point lies in the frame of the node
/// from which the search starts.
pub proof fn lemma_hit_inside_frame(
    nodes: Map<NodeId, NodeRecord>,
    targets: Set<NodeId>,
    node: NodeId,
    x: int,
    y: int,
    fuel: nat,
)
    ensures
        hit(nodes, targets, node, x, y, fuel) is Some ==> nodes.contains_key(node)
            && nodes[node].frame.contains(x, y),
{
}

/// Among the children, the last one that has a hit wins: a hit in child `at`
/// is the hit of the whole list if no child after it has one.
pub proof fn lemma_last_child_wins(
    nodes: Map<NodeId, NodeRecord>,
    targets: Set<NodeId>,
    children: Seq<NodeId>,
    upto: nat,
    at: int,
    x: int,
    y: int,
    fuel: nat,
)
    requires
        0 <= at < upto <= children.len(),
        hit(nodes, targets, children[at], x, y, fuel) is Some,
        forall|j: int| at < j < upto ==> hit(nodes, targets, #[trigger] children[j], x, y, fuel) is None,
    ensures
        hit_children(nodes, targets, children, upto, x, y, fuel) == hit(
            nodes,
            targets,
            children[at],
            x,
            y,
            fuel,
        ),
    decreases upto,
{
    if at < upto - 1 {
        lemma_last_child_wins(nodes, targets, children, (upto - 1) as nat, at, x, y, fuel);
    }
}

/// A node itself is found only after all of its children: if none of them
/// has a hit, the hit is the node if it is a target, else nothing.
pub proof fn lemma_self_comes_last(
    nodes: Map<NodeId, NodeRecord>,
    targets: Set<NodeId>,
    children: Seq<NodeId>,
    upto: nat,
    x: int,
    y: int,
    fuel: nat,
)
    requires
        upto <= children.len(),
        forall|j: int| 0 <= j < upto ==> hit(nodes, targets, #[trigger] children[j], x, y, fuel) is None,
    ensures
        hit_children(nodes, targets, children, upto, x, y, fuel) is None,
    decreases upto,
{
    if upto > 0 {
        lemma_self_comes_last(nodes, targets, children, (upto - 1) as nat, x, y, fuel);
    }
}

/// In a well-formed tree the search does not depend on its fuel, as long
/// as the fuel is more than the number of nodes below the start.
pub proof fn lemma_hit_fuel(
    nodes: Map<NodeId, NodeRecord>,
    targets: Set<NodeId>,
    node: NodeId,
    x: int,
    y: int,
    fuel: nat,
    more: nat,
)
    requires
        well_formed(nodes),
        nodes.contains_key(node) ==> fuel > below(nodes, node).len() && more > below(
            nodes,
            node,
        ).len(),
        !nodes.contains_key(node) ==> fuel > 0 && more > 0,
    ensures
        hit(nodes, targets, node, x, y, fuel) == hit(nodes, targets, node, x, y, more),
    decreases fuel, 0nat,
{
    if nodes.contains_key(node) && nodes[node].frame.contains(x, y) {
        let frame = nodes[node].frame;
        let children = nodes[node].children;
        lemma_hit_children_fuel(
            nodes,
            targets,
            node,
            children.len(),
            x - frame.x,
            y - frame.y,
            (fuel - 1) as nat,
            (more - 1) as nat,
        );
    }
}

/// The same for the search among the children of a node.
pub proof fn lemma_hit_children_fuel(
    nodes: Map<NodeId, NodeRecord>,
    targets: Set<NodeId>,
    node: NodeId,
    upto: nat,
    x: int,
    y: int,
    fuel: nat,
    more: nat,
)
    requires
        well_formed(nodes),
        nodes.contains_key(node),
        upto <= nodes[node].children.len(),
        fuel + 1 > below(nodes, node).len(),
        more + 1 > below(nodes, node).len(),
    ensures
        hit_children(nodes, targets, nodes[node].children, upto, x, y, fuel) == hit_children(
            nodes,
            targets,
            nodes[node].children,
            upto,
            x,
            y,
            more,
        ),
    decreases fuel, upto + 1,
{
    if upto > 0 {
        let children = nodes[node].children;
        let child = children[upto - 1];
        lemma_below_shrinks(nodes, node, upto - 1);
        let depth = choose|depth: Map<NodeId, nat>| forest(nodes, depth);
        assert(nodes.contains_key(nodes[node].children[upto - 1]));
        lemma_hit_fuel(nodes, targets, child, x, y, fuel, more);
        lemma_hit_children_fuel(nodes, targets, node, (upto - 1) as nat, x, y, fuel, more);
    }
}

/// In a well-formed tree the hit from the root is the same for any fuel
/// that is at least the number of nodes: the search is never cut short.
pub proof fn lemma_hit_complete(view: GuiView, x: int, y: int, fuel: nat)
    requires
        view.wf(),
        view.rooted(),
        fuel >= view.nodes.dom().len(),
    ensures
        hit(view.nodes, view.targets(), view.root, x, y, fuel) == view.hit(x, y),
{
    lemma_below_bounded(view.nodes, view.root);
    lemma_hit_fuel(
        view.nodes,
        view.targets(),
        view.root,
        x,
        y,
        fuel,
        view.nodes.dom().len(),
    );
}

/// In a well-formed tree the walk does not depend on its fuel, as long as
/// the fuel is more than the number of nodes below the start.
pub proof fn lemma_paint_fuel(
    nodes: Map<NodeId, NodeRecord>,
    visuals: Map<NodeId, Visual>,
    node: NodeId,
    origin: Vec2,
    fuel: nat,
    more: nat,
)
    requires
        well_formed(nodes),
        nodes.contains_key(node) ==> fuel > below(nodes, node).len() && more > below(
            nodes,
            node,
        ).len(),
        !nodes.contains_key(node) ==> fuel > 0 && more > 0,
    ensures
        paint_node(nodes, visuals, node, origin, fuel) == paint_node(
            nodes,
            visuals,
            node,
            origin,
            more,
        ),
    decreases fuel, 0nat,
{
    if nodes.contains_key(node) {
        let at = node_origin(nodes, node, origin);
        let children = nodes[node].children;
        lemma_paint_children_fuel(
            nodes,
            visuals,
            node,
            children.len(),
            at,
            (fuel - 1) as nat,
            (more - 1) as nat,
        );
    }
}

/// The same for the walk over the children of a node.
pub proof fn lemma_paint_children_fuel(
    nodes: Map<NodeId, NodeRecord>,
    visuals: Map<NodeId, Visual>,
    node: NodeId,
    upto: nat,
    origin: Vec2,
    fuel: nat,
    more: nat,
)
    requires
        well_formed(nodes),
        nodes.contains_key(node),
        upto <= nodes[node].children.len(),
        fuel + 1 > below(nodes, node).len(),
        more + 1 > below(nodes, node).len(),
    ensures
        paint_children(nodes, visuals, nodes[node].children, upto, origin, fuel) == paint_children(
            nodes,
            visuals,
            nodes[node].children,
            upto,
            origin,
            more,
        ),
    decreases fuel, upto + 1,
{
    if upto > 0 {
        let children = nodes[node].children;
        let child = children[upto - 1];
        lemma_below_shrinks(nodes, node, upto - 1);
        let depth = choose|depth: Map<NodeId, nat>| forest(nodes, depth);
        assert(nodes.contains_key(nodes[node].children[upto - 1]));
        lemma_paint_fuel(nodes, visuals, child, origin, fuel, more);
        lemma_paint_children_fuel(nodes, visuals, node, (upto - 1) as nat, origin, fuel, more);
    }
}

/// In a well-formed tree the painting from the root is the same for any
/// fuel that is at least the number of nodes: the walk is never cut short.
pub proof fn lemma_paint_complete(view: GuiView, fuel: nat)
    requires
        view.wf(),
        view.rooted(),
        fuel >= view.nodes.dom().len(),
    ensures
        paint_node(view.nodes, view.visuals, view.root, Vec2 { x: 0, y: 0 }, fuel) == view.paint(),
{
    lemma_below_bounded(view.nodes, view.root);
    lemma_paint_fuel(
        view.nodes,
        view.visuals,
        view.root,
        Vec2 { x: 0, y: 0 },
        fuel,
        view.nodes.dom().len(),
    );
}

/// The hit is the topmost target under the point: of all targets under the
/// point, the one that is painted last.
pub proof fn lemma_hit_is_topmost(
    nodes: Map<NodeId, NodeRecord>,
    targets: Set<NodeId>,
    node: NodeId,
    x: int,
    y: int,
    fuel: nat,
)
    ensures
        hit(nodes, targets, node, x, y, fuel) == last_of(under(nodes, targets, node, x, y, fuel)),
    decreases fuel, 0nat,
{
    if fuel > 0 && nodes.contains_key(node) && nodes[node].frame.contains(x, y) {
        let frame = nodes[node].frame;
        let children = nodes[node].children;
        lemma_hit_children_is_topmost(
            nodes,
            targets,
            children,
            children.len(),
            x - frame.x,
            y - frame.y,
            (fuel - 1) as nat,
        );
    }
}

/// The same for the hit among the children of a node.
pub proof fn lemma_hit_children_is_topmost(
    nodes: Map<NodeId, NodeRecord>,
    targets: Set<NodeId>,
    children: Seq<NodeId>,
    upto: nat,
    x: int,
    y: int,
    fuel: nat,
)
    ensures
        hit_children(nodes, targets, children, upto, x, y, fuel) == last_of(
            under_children(nodes, targets, children, upto, x, y, fuel),
        ),
    decreases fuel, upto + 1,
{
    if upto > 0 {
        lemma_hit_is_topmost(nodes, targets, children[upto - 1], x, y, fuel);
        lemma_hit_children_is_topmost(nodes, targets, children, (upto - 1) as nat, x, y, fuel);
        let before = under_children(nodes, targets, children, (upto - 1) as nat, x, y, fuel);
        let here = under(nodes, targets, children[upto - 1], x, y, fuel);
        if here.len() == 0 {
            assert(before + here =~= before);
        }
    }
}

/// A hit lies where the search began or below it: in a well-formed tree
/// nothing is found that cannot be reached from the start through children.
pub proof fn lemma_hit_below(
    nodes: Map<NodeId, NodeRecord>,
    targets: Set<NodeId>,
    node: NodeId,
    x: int,
    y: int,
    fuel: nat,
)
    requires
        well_formed(nodes),
    ensures
        hit(nodes, targets, node, x, y, fuel) matches Some(found) ==> found == node || below(
            nodes,
            node,
        ).contains(found),
    decreases fuel, 0nat,
{
    if fuel > 0 && nodes.contains_key(node) && nodes[node].frame.contains(x, y) {
        let frame = nodes[node].frame;
        lemma_hit_children_below(
            nodes,
            targets,
            node,
            nodes[node].children.len(),
            x - frame.x,
            y - frame.y,
            (fuel - 1) as nat,
        );
    }
}

/// A hit among the children of a node lies below the node.
pub proof fn lemma_hit_children_below(
    nodes: Map<NodeId, NodeRecord>,
    targets: Set<NodeId>,
    node: NodeId,
    upto: nat,
    x: int,
    y: int,
    fuel: nat,
)
    requires
        well_formed(nodes),
        nodes.contains_key(node),
        upto <= nodes[node].children.len(),
    ensures
        hit_children(nodes, targets, nodes[node].children, upto, x, y, fuel) matches Some(found)
            ==> below(nodes, node).contains(found),
    decreases fuel, upto + 1,
{
    if upto > 0 {
        let child = nodes[node].children[upto - 1];
        lemma_hit_below(nodes, targets, child, x, y, fuel);
        lemma_hit_children_below(nodes, targets, node, (upto - 1) as nat, x, y, fuel);
        if hit(nodes, targets, child, x, y, fuel) is Some {
            let found = hit(nodes, targets, child, x, y, fuel).unwrap();
            if found == child {
                lemma_hit_is_target(nodes, targets, child, x, y, fuel);
                assert(ancestor(nodes, child, 0) == Some(child));
            }
            lemma_below_child(nodes, node, upto - 1, found);
        }
    }
}

/// Nothing at or below a node without parent is hit, unless the root lies
/// at or below that node: what was taken out of the tree, and all below
/// it, is out of reach of the pointer.
pub proof fn lemma_detached_is_not_hit(view: GuiView, orphan: NodeId, d: NodeId, x: int, y: int)
    requires
        well_formed(view.nodes),
        view.nodes.contains_key(orphan),
        view.nodes[orphan].parent is None,
        is_ancestor(view.nodes, orphan, d),
        !is_ancestor(view.nodes, orphan, view.root),
    ensures
        view.hit(x, y) != Some(d),
{
    lemma_orphan_subtree_apart(view.nodes, orphan, view.root, d);
    lemma_hit_below(view.nodes, view.targets(), view.root, x, y, view.nodes.dom().len());
}

/// After a child was taken out of the children of a node at or below the
/// root, neither the child nor anything below it is hit, whatever frames
/// the next layout gives.
pub proof fn lemma_removed_child_is_not_hit(
    view: GuiView,
    parent: NodeId,
    child: NodeId,
    d: NodeId,
    frames: Map<NodeId, Frame>,
    x: int,
    y: int,
)
    requires
        view.wf(),
        view.nodes.contains_key(parent),
        view.nodes[parent].children.contains(child),
        is_ancestor(view.nodes, view.root, parent),
        is_ancestor(unlinked(view.nodes, parent, child), child, d),
    ensures
        (GuiView { nodes: unlinked(view.nodes, parent, child), ..view }).hit(x, y) != Some(d),
        (GuiView {
            nodes: with_frames(unlinked(view.nodes, parent, child), frames),
            ..view
        }).hit(x, y) != Some(d),
{
    let detached = unlinked(view.nodes, parent, child);
    let relaid = with_frames(detached, frames);
    lemma_unlinked_subtree_apart(view.nodes, parent, child, view.root, d);
    lemma_unlinked_well_formed(view.nodes, parent, child);
    lemma_detached_is_not_hit(GuiView { nodes: detached, ..view }, child, d, x, y);
    lemma_with_frames_links(detached, frames);
    lemma_same_links_well_formed(detached, relaid);
    assert(is_ancestor(relaid, child, d)) by {
        let k = choose|k: nat| ancestor(detached, d, k) == Some(child);
        lemma_same_links_ancestor(detached, relaid, d, k);
    }
    assert(!is_ancestor(relaid, child, view.root)) by {
        if is_ancestor(relaid, child, view.root) {
            let k = choose|k: nat| ancestor(relaid, view.root, k) == Some(child);
            lemma_same_links_ancestor(detached, relaid, view.root, k);
        }
    }
    lemma_detached_is_not_hit(GuiView { nodes: relaid, ..view }, child, d, x, y);
}

/// A hit is a stored node that can take the highlight.
pub proof fn lemma_hit_is_target(
    nodes: Map<NodeId, NodeRecord>,
    targets: Set<NodeId>,
    node: NodeId,
    x: int,
    y: int,
    fuel: nat,
)
    ensures
        hit(nodes, targets, node, x, y, fuel) matches Some(found) ==> nodes.contains_key(found)
            && targets.contains(found),
    decreases fuel, 0nat,
{
    if fuel > 0 && nodes.contains_key(node) && nodes[node].frame.contains(x, y) {
        let frame = nodes[node].frame;
        let children = nodes[node].children;
        lemma_hit_children_is_target(
            nodes,
            targets,
            children,
            children.len(),
            x - frame.x,
            y - frame.y,
            (fuel - 1) as nat,
        );
    }
}

/// A hit among children is a stored node that can take the highlight.
pub proof fn lemma_hit_children_is_target(
    nodes: Map<NodeId, NodeRecord>,
    targets: Set<NodeId>,
    children: Seq<NodeId>,
    upto: nat,
    x: int,
    y: int,
    fuel: nat,
)
    ensures
        hit_children(nodes, targets, children, upto, x, y, fuel) matches Some(found)
            ==> nodes.contains_key(found) && targets.contains(found),
    decreases fuel, upto + 1,
{
    if upto > 0 {
        lemma_hit_is_target(nodes, targets, children[upto - 1], x, y, fuel);
        lemma_hit_children_is_target(nodes, targets, children, (upto - 1) as nat, x, y, fuel);
    }
}

} // verus!
