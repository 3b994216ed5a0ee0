//! Adapter around the flexbox engine's node tree.
//!
//! The engine owns the tree: which nodes exist, each node's parent, its
//! ordered children and its computed frame. Verus cannot look inside it,
//! so this module names what the tree holds ([`tree_nodes`]) and gives
//! each engine call that the library makes a contract over that name. The
//! engine's styles are made here too, field by field, from the plain values
//! of a [`crate::style::NodeStyle`]. These contracts are trusted, not
//! proved; everything built on them is proved.

use vstd::prelude::*;
use crate::style::{Align, Dimension, Direction, Edges, Extent, Gap, Place, made_of_plain_values};

verus! {

/// Identity of a node of the layout tree.
pub type NodeId = u64;

/// The engine's tree, with no data of its own attached to the nodes.
pub type LayoutTree = taffy::TaffyTree<()>;

/// The most slots that one tree can ever hand out.
pub const SLOT_LIMIT: u32 = 0xFFFF_FFFE;

/// `taffy::TaffyTree`: the engine's tree. Nothing is known of a value of it
/// but what [`tree_nodes`] and [`tree_slots`] say.
#[verifier::external_type_specification]
#[verifier::external_body]
#[verifier::reject_recursive_types(NodeContext)]
pub struct ExTaffyTree<NodeContext>(taffy::TaffyTree<NodeContext>);

/// `taffy::Style`: how a node asks to be laid out, in the engine's own
/// terms. The library makes such styles from plain values and never looks
/// into them.
#[verifier::external_type_specification]
#[verifier::external_body]
pub struct ExStyle(taffy::Style);

/// Computed box of a node: offset from its parent's origin, and size.
#[derive(Clone, Copy, PartialEq, Eq, Debug, Structural)]
pub struct Frame {
    pub x: i32,
    pub y: i32,
    pub width: i32,
    pub height: i32,
}

impl Frame {
    /// The frame of a node that has not been laid out yet.
    pub open spec fn zero() -> Frame {
        Frame { x: 0, y: 0, width: 0, height: 0 }
    }

    /// Half-open containment of a point given in the parent's space.
    pub open spec fn contains(self, x: int, y: int) -> bool {
        0 <= x - self.x < self.width && 0 <= y - self.y < self.height
    }
}

/// What the tree stores for one node.
pub struct NodeRecord {
    pub parent: Option<NodeId>,
    pub children: Seq<NodeId>,
    pub frame: Frame,
}

/// The nodes that a layout tree currently holds, by identity, each with its
/// parent, its children in their order, and the frame that the engine stored
/// for it last.
pub uninterp spec fn tree_nodes(tree: LayoutTree) -> Map<NodeId, NodeRecord>;

/// The style that a layout tree stores for each of its nodes.
pub uninterp spec fn tree_styles(tree: LayoutTree) -> Map<NodeId, taffy::Style>;

/// The engine's default style with the direction of the line and the
/// share in growth put in.
pub uninterp spec fn style_flex(direction: Direction, grow: u16) -> taffy::Style;

/// A style with the alignment of the children replaced, and all else as it
/// was.
pub uninterp spec fn style_aligned(style: taffy::Style, items: Option<Align>) -> taffy::Style;

/// A style with its size and its least size replaced, and all else as it
/// was.
pub uninterp spec fn style_sized(style: taffy::Style, size: Extent, min_size: Extent) -> taffy::Style;

/// A style with its padding and its gaps replaced by lengths in pixels, and
/// all else as it was.
pub uninterp spec fn style_spaced(style: taffy::Style, padding: Edges, gap: Gap) -> taffy::Style;

/// A style with its position and the offsets from the left and the top
/// edge replaced, and all else as it was.
pub uninterp spec fn style_placed(style: taffy::Style, place: Place) -> taffy::Style;

/// A layout tree after the style of one of its nodes was replaced.
pub uninterp spec fn tree_styled(tree: LayoutTree, node: NodeId, style: taffy::Style) -> LayoutTree;

/// The frames that a layout tree stores once the engine has laid out the
/// subtree of `root` in a space of `width` by `height` pixels.
pub uninterp spec fn tree_laid_out(tree: LayoutTree, root: NodeId, width: u32, height: u32) -> Map<
    NodeId,
    Frame,
>;

/// The largest number of nodes that the tree has held at one time: the
/// engine keeps a slot for each of them and never gives one back.
pub uninterp spec fn tree_slots(tree: LayoutTree) -> nat;

/// Every child link is matched by a parent link and the other way round,
/// no child is listed twice, and `depth` grows strictly from parent to child.
pub open spec fn forest(nodes: Map<NodeId, NodeRecord>, depth: Map<NodeId, nat>) -> bool {
    &&& nodes.dom().finite()
    &&& forall|n: NodeId, i: int|
        nodes.contains_key(n) && 0 <= i < nodes[n].children.len() ==> {
            &&& nodes.contains_key(#[trigger] nodes[n].children[i])
            &&& nodes[nodes[n].children[i]].parent == Some(n)
        }
    &&& forall|n: NodeId| #[trigger] nodes.contains_key(n) ==> nodes[n].children.no_duplicates()
    &&& forall|c: NodeId|
        #[trigger] nodes.contains_key(c) && nodes[c].parent is Some ==> {
            let p = nodes[c].parent.unwrap();
            &&& nodes.contains_key(p)
            &&& nodes[p].children.contains(c)
            &&& depth[p] < depth[c]
        }
}

/// The tree is a finite forest: consistent links and no cycle.
pub open spec fn well_formed(nodes: Map<NodeId, NodeRecord>) -> bool {
    exists|depth: Map<NodeId, nat>| forest(nodes, depth)
}

/// The tree after `child` was appended to the children of `parent`.
pub open spec fn linked(nodes: Map<NodeId, NodeRecord>, parent: NodeId, child: NodeId) -> Map<
    NodeId,
    NodeRecord,
> {
    let with_child = nodes.insert(child, NodeRecord { parent: Some(parent), ..nodes[child] });
    with_child.insert(
        parent,
        NodeRecord { children: with_child[parent].children.push(child), ..with_child[parent] },
    )
}

/// The tree after `child` was taken out of the children of `parent`.
pub open spec fn unlinked(nodes: Map<NodeId, NodeRecord>, parent: NodeId, child: NodeId) -> Map<
    NodeId,
    NodeRecord,
> {
    let without = nodes.insert(child, NodeRecord { parent: None, ..nodes[child] });
    without.insert(
        parent,
        NodeRecord {
            children: without[parent].children.remove(without[parent].children.index_of(child)),
            ..without[parent]
        },
    )
}

/// The record of `n` once `node` has been deleted from a well-formed tree:
/// the parent of `node` no longer lists it, and its children lose their parent.
pub open spec fn after_removal(nodes: Map<NodeId, NodeRecord>, node: NodeId, n: NodeId)
    -> NodeRecord {
    NodeRecord {
        parent: if nodes[n].parent == Some(node) {
            None
        } else {
            nodes[n].parent
        },
        children: if nodes[node].parent == Some(n) {
            nodes[n].children.remove(nodes[n].children.index_of(node))
        } else {
            nodes[n].children
        },
        frame: nodes[n].frame,
    }
}

/// The tree with the frames taken from `frames`, and all links as they were.
pub open spec fn with_frames(nodes: Map<NodeId, NodeRecord>, frames: Map<NodeId, Frame>) -> Map<
    NodeId,
    NodeRecord,
> {
    Map::new(
        |n: NodeId| nodes.contains_key(n),
        |n: NodeId|
            NodeRecord { parent: nodes[n].parent, children: nodes[n].children, frame: frames[n] },
    )
}

/// The tree after `node` was deleted.
pub open spec fn removed(nodes: Map<NodeId, NodeRecord>, node: NodeId) -> Map<NodeId, NodeRecord> {
    Map::new(
        |n: NodeId| nodes.contains_key(n) && n != node,
        |n: NodeId| after_removal(nodes, node, n),
    )
}

/// `TaffyTree::new`: an empty tree.
#[verifier::external_body]
pub(crate) fn new_tree() -> (tree: LayoutTree)
    ensures
        tree_nodes(tree).dom() == Set::<NodeId>::empty(),
        tree_styles(tree).dom() == Set::<NodeId>::empty(),
        tree_slots(tree) == 0,
{
    LayoutTree::new()
}

/// `Style::DEFAULT` with the fields `flex_direction` and `flex_grow` put in:
/// a flex container that keeps its children on one line.
#[verifier::external_body]
pub(crate) fn flex_style(direction: Direction, grow: u16) -> (style: taffy::Style)
    ensures
        style == style_flex(direction, grow),
{
    taffy::Style {
        flex_direction: match direction {
            Direction::Row => taffy::FlexDirection::Row,
            Direction::Column => taffy::FlexDirection::Column,
            Direction::RowReverse => taffy::FlexDirection::RowReverse,
            Direction::ColumnReverse => taffy::FlexDirection::ColumnReverse,
        },
        flex_grow: grow.into(),
        ..taffy::Style::DEFAULT
    }
}

/// Sets the field `align_items` of a `Style`; the other fields are kept.
#[verifier::external_body]
pub(crate) fn style_with_align(style: taffy::Style, items: Option<Align>) -> (aligned: taffy::Style)
    ensures
        aligned == style_aligned(style, items),
{
    let mut aligned = style;
    aligned.align_items = items.map(|align| match align {
        Align::Start => taffy::AlignItems::Start,
        Align::End => taffy::AlignItems::End,
        Align::FlexStart => taffy::AlignItems::FlexStart,
        Align::FlexEnd => taffy::AlignItems::FlexEnd,
        Align::Center => taffy::AlignItems::Center,
        Align::Baseline => taffy::AlignItems::Baseline,
        Align::Stretch => taffy::AlignItems::Stretch,
    });
    aligned
}

/// Sets the fields `size` and `min_size` of a `Style`, each to `Auto` or to
/// a length in pixels; the other fields are kept.
#[verifier::external_body]
pub(crate) fn style_with_sizes(style: taffy::Style, size: Extent, min_size: Extent) -> (sized:
    taffy::Style)
    ensures
        sized == style_sized(style, size, min_size),
{
    let dimension = |asked: Dimension| match asked {
        Dimension::Auto => taffy::Dimension::Auto,
        Dimension::Length(pixels) => taffy::Dimension::Length(pixels as _),
    };
    let mut sized = style;
    sized.size = taffy::Size { width: dimension(size.width), height: dimension(size.height) };
    sized.min_size =
        taffy::Size { width: dimension(min_size.width), height: dimension(min_size.height) };
    sized
}

/// Sets the fields `padding` and `gap` of a `Style` to lengths in pixels;
/// the other fields are kept.
#[verifier::external_body]
pub(crate) fn style_with_spacing(style: taffy::Style, padding: Edges, gap: Gap) -> (spaced:
    taffy::Style)
    ensures
        spaced == style_spaced(style, padding, gap),
{
    let length = |pixels: u32| taffy::LengthPercentage::Length(pixels as _);
    let mut spaced = style;
    spaced.padding = taffy::Rect {
        left: length(padding.left),
        right: length(padding.right),
        top: length(padding.top),
        bottom: length(padding.bottom),
    };
    spaced.gap = taffy::Size { width: length(gap.width), height: length(gap.height) };
    spaced
}

/// Sets the field `position` of a `Style` and, in its field `inset`, the
/// offsets from the left and the top edge: relative and without these
/// offsets for a node in the flow, absolute and with them for one that is
/// placed. All else is kept.
#[verifier::external_body]
pub(crate) fn style_with_place(style: taffy::Style, place: Place) -> (placed: taffy::Style)
    ensures
        placed == style_placed(style, place),
{
    let auto = taffy::LengthPercentageAuto::Auto;
    let mut placed = style;
    (placed.position, placed.inset.left, placed.inset.top) = match place {
        Place::Flow => (taffy::Position::Relative, auto, auto),
        Place::At { left, top } => (
            taffy::Position::Absolute,
            taffy::LengthPercentageAuto::Length(left as _),
            taffy::LengthPercentageAuto::Length(top as _),
        ),
    };
    placed
}

/// `TaffyTree::new_leaf`: stores a node without parent or children, with an
/// all-zero frame and the given style, under an identity that no stored
/// node has. The engine
/// fails when it runs out of slots, so a free slot is asked for.
#[verifier::external_body]
pub(crate) fn new_leaf(tree: &mut LayoutTree, style: taffy::Style) -> (id: NodeId)
    requires
        tree_slots(*old(tree)) < SLOT_LIMIT,
    ensures
        !tree_nodes(*old(tree)).contains_key(id),
        tree_nodes(*final(tree)) == tree_nodes(*old(tree)).insert(
            id,
            NodeRecord { parent: None, children: Seq::empty(), frame: Frame::zero() },
        ),
        tree_styles(*final(tree)) == tree_styles(*old(tree)).insert(id, style),
        tree_slots(*old(tree)) <= tree_slots(*final(tree)) <= tree_slots(*old(tree)) + 1,
{
    tree.new_leaf(style).unwrap().into()
}

/// `TaffyTree::add_child`: records `parent` as the parent of `child` and
/// appends `child` to the children of `parent`, then walks up from `parent`
/// to mark the ancestors for a new layout. Both nodes must be stored, and the
/// walk ends only if the new link closes no cycle.
#[verifier::external_body]
pub(crate) fn add_child(tree: &mut LayoutTree, parent: NodeId, child: NodeId)
    requires
        tree_nodes(*old(tree)).contains_key(parent),
        tree_nodes(*old(tree)).contains_key(child),
        well_formed(linked(tree_nodes(*old(tree)), parent, child)),
    ensures
        tree_nodes(*final(tree)) == linked(tree_nodes(*old(tree)), parent, child),
        tree_styles(*final(tree)) == tree_styles(*old(tree)),
        tree_slots(*final(tree)) == tree_slots(*old(tree)),
{
    tree.add_child(parent.into(), child.into()).unwrap();
}

/// `TaffyTree::remove_child`: takes the first entry equal to `child` out of
/// the children of `parent` and clears the parent of `child`. The engine
/// fails when `child` is not listed.
#[verifier::external_body]
pub(crate) fn remove_child(tree: &mut LayoutTree, parent: NodeId, child: NodeId)
    requires
        well_formed(tree_nodes(*old(tree))),
        tree_nodes(*old(tree)).contains_key(parent),
        tree_nodes(*old(tree))[parent].children.contains(child),
    ensures
        tree_nodes(*final(tree)) == unlinked(tree_nodes(*old(tree)), parent, child),
        tree_styles(*final(tree)) == tree_styles(*old(tree)),
        tree_slots(*final(tree)) == tree_slots(*old(tree)),
{
    tree.remove_child(parent.into(), child.into()).unwrap();
}

/// `TaffyTree::remove`: deletes `node` with its style; its parent no longer
/// lists it and its children stay in the tree without a parent.
#[verifier::external_body]
pub(crate) fn remove_node(tree: &mut LayoutTree, node: NodeId)
    requires
        well_formed(tree_nodes(*old(tree))),
        tree_nodes(*old(tree)).contains_key(node),
    ensures
        tree_nodes(*final(tree)) == removed(tree_nodes(*old(tree)), node),
        tree_styles(*final(tree)) == tree_styles(*old(tree)).remove(node),
        tree_slots(*final(tree)) == tree_slots(*old(tree)),
{
    tree.remove(node.into()).unwrap();
}

/// `TaffyTree::set_style`: replaces the style of `node` and marks it and its
/// ancestors for a new layout. Links, frames and the styles of the other
/// nodes stay as they are. What else the tree keeps for its own use is a
/// matter of the tree before, the node and the style.
#[verifier::external_body]
pub(crate) fn set_style(tree: &mut LayoutTree, node: NodeId, style: taffy::Style)
    requires
        well_formed(tree_nodes(*old(tree))),
        tree_nodes(*old(tree)).contains_key(node),
    ensures
        *final(tree) == tree_styled(*old(tree), node, style),
        tree_nodes(*final(tree)) == tree_nodes(*old(tree)),
        tree_styles(*final(tree)) == tree_styles(*old(tree)).insert(node, style),
        tree_slots(*final(tree)) == tree_slots(*old(tree)),
{
    tree.set_style(node.into(), style).unwrap();
}

/// `TaffyTree::compute_layout`: lays out the subtree of `root` in the given
/// space. Only frames change. Which frames come out takes the whole of the
/// engine to say; they are a matter of the tree, the root and the space.
///
/// The engine is asked only for trees without cycles in which every style
/// was made from plain values: each node is then a flex container on one
/// line, or a leaf, with lengths in whole pixels, and nothing asks for a
/// grid, a block, a hidden node, wrapping or a percentage. On that path
/// the engine computes in floating point, indexes only the one line it has
/// made, and its loop over flexible lengths freezes an item in each round;
/// it goes as deep as the tree is.
#[verifier::external_body]
pub(crate) fn compute_layout(tree: &mut LayoutTree, root: NodeId, width: u32, height: u32)
    requires
        well_formed(tree_nodes(*old(tree))),
        tree_nodes(*old(tree)).contains_key(root),
        tree_styles(*old(tree)).dom() == tree_nodes(*old(tree)).dom(),
        forall|n: NodeId| #[trigger]
            tree_styles(*old(tree)).contains_key(n) ==> made_of_plain_values(
                tree_styles(*old(tree))[n],
            ),
    ensures
        tree_nodes(*final(tree)) == with_frames(
            tree_nodes(*old(tree)),
            tree_laid_out(*old(tree), root, width, height),
        ),
        tree_styles(*final(tree)) == tree_styles(*old(tree)),
        tree_slots(*final(tree)) == tree_slots(*old(tree)),
{
    let space = taffy::Size {
        width: taffy::AvailableSpace::Definite(width as _),
        height: taffy::AvailableSpace::Definite(height as _),
    };
    tree.compute_layout(root.into(), space).unwrap();
}

/// `TaffyTree::layout`: the frame stored for `node`, in whole pixels.
#[verifier::external_body]
pub(crate) fn frame_of(tree: &LayoutTree, node: NodeId) -> (frame: Frame)
    requires
        tree_nodes(*tree).contains_key(node),
    ensures
        frame == tree_nodes(*tree)[node].frame,
{
    let layout = tree.layout(node.into()).unwrap();
    Frame {
        x: layout.location.x as i32,
        y: layout.location.y as i32,
        width: layout.size.width as i32,
        height: layout.size.height as i32,
    }
}

/// `TaffyTree::children`: the children of `node`, in the order they were added.
#[verifier::external_body]
pub(crate) fn children_of(tree: &LayoutTree, node: NodeId) -> (children: Vec<NodeId>)
    requires
        tree_nodes(*tree).contains_key(node),
    ensures
        children@ == tree_nodes(*tree)[node].children,
{
    tree.children(node.into()).unwrap().into_iter().map(u64::from).collect()
}

/// `TaffyTree::parent`: the parent of `node`, if it has one.
#[verifier::external_body]
pub(crate) fn parent_of(tree: &LayoutTree, node: NodeId) -> (parent: Option<NodeId>)
    requires
        tree_nodes(*tree).contains_key(node),
    ensures
        parent == tree_nodes(*tree)[node].parent,
{
    tree.parent(node.into()).map(u64::from)
}

/// `TaffyTree::total_node_count`: how many nodes the tree holds.
#[verifier::external_body]
pub(crate) fn node_count(tree: &LayoutTree) -> (count: usize)
    ensures
        count == tree_nodes(*tree).dom().len(),
{
    tree.total_node_count()
}

} // verus!
