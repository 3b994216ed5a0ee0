//! Facts about the shape of the node tree: ancestors, and why each change
//! that the registry makes leaves a well-formed forest behind.

use vstd::prelude::*;
use vstd::set_lib::lemma_len_subset;
use crate::layout::{
    NodeId, NodeRecord, Frame, forest, well_formed, linked, unlinked, removed, after_removal,
    with_frames,
};

verus! {

/// The node reached from `n` by following `k` parent links, if the chain is
/// that long. `ancestor(nodes, n, 0)` is `n` itself.
pub open spec fn ancestor(nodes: Map<NodeId, NodeRecord>, n: NodeId, k: nat) -> Option<NodeId>
    decreases k,
{
    if !nodes.contains_key(n) {
        None
    } else if k == 0 {
        Some(n)
    } else if nodes[n].parent is Some {
        ancestor(nodes, nodes[n].parent.unwrap(), (k - 1) as nat)
    } else {
        None
    }
}

/// `a` is `n` or lies on the chain of parents above `n`.
pub open spec fn is_ancestor(nodes: Map<NodeId, NodeRecord>, a: NodeId, n: NodeId) -> bool {
    exists|k: nat| ancestor(nodes, n, k) == Some(a)
}

/// A node without parent or children, not laid out yet.
pub open spec fn leaf_record() -> NodeRecord {
    NodeRecord { parent: None, children: Seq::empty(), frame: Frame::zero() }
}

/// Two trees with the same nodes and the same links; frames may differ.
pub open spec fn same_links(before: Map<NodeId, NodeRecord>, after: Map<NodeId, NodeRecord>) -> bool {
    &&& after.dom() == before.dom()
    &&& forall|n: NodeId| #[trigger]
        before.contains_key(n) ==> after[n].parent == before[n].parent && after[n].children
            == before[n].children
}

/// New frames leave the nodes and their links as they are.
pub proof fn lemma_with_frames_links(nodes: Map<NodeId, NodeRecord>, frames: Map<NodeId, Frame>)
    ensures
        same_links(nodes, with_frames(nodes, frames)),
{
    assert(with_frames(nodes, frames).dom() =~= nodes.dom());
}

/// Well-formedness is a matter of the links alone.
pub proof fn lemma_same_links_well_formed(
    before: Map<NodeId, NodeRecord>,
    after: Map<NodeId, NodeRecord>,
)
    requires
        well_formed(before),
        same_links(before, after),
    ensures
        well_formed(after),
{
    let depth = choose|depth: Map<NodeId, nat>| forest(before, depth);
    assert forall|n: NodeId, i: int|
        after.contains_key(n) && 0 <= i < after[n].children.len() implies {
        &&& after.contains_key(#[trigger] after[n].children[i])
        &&& after[after[n].children[i]].parent == Some(n)
    } by {
        assert(before.contains_key(n));
        assert(before.contains_key(before[n].children[i]));
    }
    assert forall|n: NodeId| #[trigger] after.contains_key(n) implies after[n].children.no_duplicates() by {
        assert(before.contains_key(n));
    }
    assert forall|c: NodeId| #[trigger] after.contains_key(c) && after[c].parent is Some implies {
        let p = after[c].parent.unwrap();
        &&& after.contains_key(p)
        &&& after[p].children.contains(c)
        &&& depth[p] < depth[c]
    } by {
        assert(before.contains_key(c));
        assert(before.contains_key(before[c].parent.unwrap()));
    }
    assert(forest(after, depth));
}

/// Below a node other than `a`, the chains that pass through `a` are those
/// that pass through `a` from the node's parent on.
pub proof fn lemma_ancestor_step(nodes: Map<NodeId, NodeRecord>, a: NodeId, c: NodeId)
    requires
        nodes.contains_key(c),
        nodes[c].parent is Some,
        a != c,
    ensures
        is_ancestor(nodes, a, c) <==> is_ancestor(nodes, a, nodes[c].parent.unwrap()),
{
    let p = nodes[c].parent.unwrap();
    if is_ancestor(nodes, a, c) {
        let k = choose|k: nat| ancestor(nodes, c, k) == Some(a);
        assert(k > 0);
        assert(ancestor(nodes, p, (k - 1) as nat) == Some(a));
    }
    if is_ancestor(nodes, a, p) {
        let k = choose|k: nat| ancestor(nodes, p, k) == Some(a);
        assert(ancestor(nodes, c, k + 1) == Some(a));
    }
}

/// Above a node without parent there is nothing: its only ancestor is the
/// node itself.
pub proof fn lemma_ancestor_of_orphan(nodes: Map<NodeId, NodeRecord>, a: NodeId, n: NodeId)
    requires
        nodes.contains_key(n),
        nodes[n].parent is None,
    ensures
        is_ancestor(nodes, a, n) <==> a == n,
{
    if is_ancestor(nodes, a, n) {
        let k = choose|k: nat| ancestor(nodes, n, k) == Some(a);
        assert(k == 0);
    }
    if a == n {
        assert(ancestor(nodes, n, 0) == Some(a));
    }
}

proof fn lemma_childless_not_reached(
    nodes: Map<NodeId, NodeRecord>,
    depth: Map<NodeId, nat>,
    a: NodeId,
    n: NodeId,
    k: nat,
)
    requires
        forest(nodes, depth),
        nodes.contains_key(a),
        nodes[a].children.len() == 0,
        a != n,
    ensures
        ancestor(nodes, n, k) != Some(a),
    decreases k,
{
    if k > 0 && nodes.contains_key(n) && nodes[n].parent is Some {
        let p = nodes[n].parent.unwrap();
        if p == a {
            assert(nodes[a].children.contains(n));
        } else {
            lemma_childless_not_reached(nodes, depth, a, p, (k - 1) as nat);
        }
    }
}

/// A node without children is an ancestor of no other node.
pub proof fn lemma_childless_not_ancestor(nodes: Map<NodeId, NodeRecord>, a: NodeId, n: NodeId)
    requires
        well_formed(nodes),
        nodes.contains_key(a),
        nodes[a].children.len() == 0,
        a != n,
    ensures
        !is_ancestor(nodes, a, n),
{
    let depth = choose|depth: Map<NodeId, nat>| forest(nodes, depth);
    assert forall|k: nat| ancestor(nodes, n, k) != Some(a) by {
        lemma_childless_not_reached(nodes, depth, a, n, k);
    }
}

/// The nodes below `n`: those that have `n` on the chain of their parents.
pub open spec fn below(nodes: Map<NodeId, NodeRecord>, n: NodeId) -> Set<NodeId> {
    Set::new(|m: NodeId| nodes.contains_key(m) && m != n && is_ancestor(nodes, n, m))
}

proof fn lemma_ancestor_deeper(
    nodes: Map<NodeId, NodeRecord>,
    depth: Map<NodeId, nat>,
    a: NodeId,
    m: NodeId,
    k: nat,
)
    requires
        forest(nodes, depth),
        ancestor(nodes, m, k) == Some(a),
    ensures
        nodes.contains_key(a),
        nodes.contains_key(m),
        a != m ==> depth[a] < depth[m],
        a == m <==> k == 0,
    decreases k,
{
    if k > 0 {
        let p = nodes[m].parent.unwrap();
        lemma_ancestor_deeper(nodes, depth, a, p, (k - 1) as nat);
    }
}

proof fn lemma_ancestor_extends(
    nodes: Map<NodeId, NodeRecord>,
    depth: Map<NodeId, nat>,
    c: NodeId,
    m: NodeId,
    k: nat,
)
    requires
        forest(nodes, depth),
        ancestor(nodes, m, k) == Some(c),
        nodes[c].parent is Some,
    ensures
        ancestor(nodes, m, k + 1) == nodes[c].parent,
    decreases k,
{
    lemma_ancestor_deeper(nodes, depth, c, m, k);
    if k > 0 {
        lemma_ancestor_extends(nodes, depth, c, nodes[m].parent.unwrap(), (k - 1) as nat);
    } else {
        let p = nodes[c].parent.unwrap();
        assert(nodes.contains_key(p));
        assert(ancestor(nodes, p, 0) == Some(p));
    }
}

/// Going up `k` links and then `m` more is going up `k + m` links.
proof fn lemma_ancestor_chain(nodes: Map<NodeId, NodeRecord>, d: NodeId, a: NodeId, k: nat, m: nat)
    requires
        ancestor(nodes, d, k) == Some(a),
    ensures
        ancestor(nodes, d, k + m) == ancestor(nodes, a, m),
    decreases k,
{
    if k > 0 {
        lemma_ancestor_chain(nodes, nodes[d].parent.unwrap(), a, (k - 1) as nat, m);
    } else {
        if m > 0 && !nodes.contains_key(d) {
            assert(ancestor(nodes, d, 0) is None);
        }
    }
}

/// The ancestors of a node lie on one chain: of two of them, one is an
/// ancestor of the other.
pub proof fn lemma_ancestors_comparable(
    nodes: Map<NodeId, NodeRecord>,
    a: NodeId,
    b: NodeId,
    d: NodeId,
)
    requires
        is_ancestor(nodes, a, d),
        is_ancestor(nodes, b, d),
    ensures
        is_ancestor(nodes, a, b) || is_ancestor(nodes, b, a),
{
    let i = choose|k: nat| ancestor(nodes, d, k) == Some(a);
    let j = choose|k: nat| ancestor(nodes, d, k) == Some(b);
    if i <= j {
        lemma_ancestor_chain(nodes, d, a, i, (j - i) as nat);
        assert(ancestor(nodes, a, (j - i) as nat) == Some(b));
    } else {
        lemma_ancestor_chain(nodes, d, b, j, (i - j) as nat);
        assert(ancestor(nodes, b, (i - j) as nat) == Some(a));
    }
}

/// What lies at or below a child of a node lies below the node.
pub proof fn lemma_below_child(nodes: Map<NodeId, NodeRecord>, n: NodeId, i: int, h: NodeId)
    requires
        well_formed(nodes),
        nodes.contains_key(n),
        0 <= i < nodes[n].children.len(),
        is_ancestor(nodes, nodes[n].children[i], h),
    ensures
        below(nodes, n).contains(h),
{
    let depth = choose|depth: Map<NodeId, nat>| forest(nodes, depth);
    let c = nodes[n].children[i];
    assert(nodes.contains_key(c) && nodes[c].parent == Some(n));
    let k = choose|k: nat| ancestor(nodes, h, k) == Some(c);
    lemma_ancestor_deeper(nodes, depth, c, h, k);
    lemma_ancestor_extends(nodes, depth, c, h, k);
    assert(ancestor(nodes, h, k + 1) == Some(n));
    lemma_ancestor_deeper(nodes, depth, n, h, k + 1);
}

/// What lies at or below a node without parent lies neither at nor below a
/// node outside it.
pub proof fn lemma_orphan_subtree_apart(
    nodes: Map<NodeId, NodeRecord>,
    orphan: NodeId,
    outside: NodeId,
    d: NodeId,
)
    requires
        nodes.contains_key(orphan),
        nodes[orphan].parent is None,
        is_ancestor(nodes, orphan, d),
        !is_ancestor(nodes, orphan, outside),
    ensures
        d != outside,
        !below(nodes, outside).contains(d),
{
    if is_ancestor(nodes, outside, d) {
        lemma_ancestors_comparable(nodes, orphan, outside, d);
        lemma_ancestor_of_orphan(nodes, outside, orphan);
        assert(ancestor(nodes, orphan, 0) == Some(orphan));
    } else if d == outside {
        assert(false);
    }
}

/// Trees with the same links have the same chains of parents.
pub proof fn lemma_same_links_ancestor(
    before: Map<NodeId, NodeRecord>,
    after: Map<NodeId, NodeRecord>,
    n: NodeId,
    k: nat,
)
    requires
        same_links(before, after),
    ensures
        ancestor(after, n, k) == ancestor(before, n, k),
    decreases k,
{
    if k > 0 && before.contains_key(n) && before[n].parent is Some {
        lemma_same_links_ancestor(before, after, before[n].parent.unwrap(), (k - 1) as nat);
    }
}

/// A chain that leads up to a node in a tree where only that node has lost
/// its parent leads up to it in the tree before as well.
proof fn lemma_chain_before_unlink(
    nodes: Map<NodeId, NodeRecord>,
    after: Map<NodeId, NodeRecord>,
    child: NodeId,
    r: NodeId,
    k: nat,
)
    requires
        after.dom() == nodes.dom(),
        forall|n: NodeId| nodes.contains_key(n) && n != child ==> after[n].parent == nodes[n].parent,
        ancestor(after, r, k) == Some(child),
    ensures
        is_ancestor(nodes, child, r),
    decreases k,
{
    if r == child {
        assert(ancestor(nodes, child, 0) == Some(child));
    } else {
        let p = after[r].parent.unwrap();
        lemma_chain_before_unlink(nodes, after, child, p, (k - 1) as nat);
        lemma_ancestor_step(nodes, child, r);
    }
}

/// Once a child is taken out of the children of a node that lies at or
/// below `root`, nothing at or below the child lies at or below `root`.
pub proof fn lemma_unlinked_subtree_apart(
    nodes: Map<NodeId, NodeRecord>,
    parent: NodeId,
    child: NodeId,
    root: NodeId,
    d: NodeId,
)
    requires
        well_formed(nodes),
        nodes.contains_key(parent),
        nodes[parent].children.contains(child),
        is_ancestor(nodes, root, parent),
        is_ancestor(unlinked(nodes, parent, child), child, d),
    ensures
        d != root,
        !below(unlinked(nodes, parent, child), root).contains(d),
        unlinked(nodes, parent, child)[child].parent is None,
        !is_ancestor(unlinked(nodes, parent, child), child, root),
{
    let depth = choose|depth: Map<NodeId, nat>| forest(nodes, depth);
    let after = unlinked(nodes, parent, child);
    lemma_unlinked_well_formed(nodes, parent, child);
    let at = choose|i: int| 0 <= i < nodes[parent].children.len() && nodes[parent].children[i] == child;
    assert(nodes.contains_key(nodes[parent].children[at]));
    assert(nodes[child].parent == Some(parent));
    assert(child != parent);
    assert(after[child].parent is None);
    let up = choose|k: nat| ancestor(nodes, parent, k) == Some(root);
    assert(ancestor(nodes, parent, 0) == Some(parent));
    assert(ancestor(nodes, child, 1) == Some(parent));
    lemma_ancestor_chain(nodes, child, parent, 1, up);
    assert(ancestor(nodes, child, 1 + up) == Some(root));
    lemma_ancestor_deeper(nodes, depth, root, child, 1 + up);
    if is_ancestor(after, child, root) {
        let k = choose|k: nat| ancestor(after, root, k) == Some(child);
        lemma_chain_before_unlink(nodes, after, child, root, k);
        let back = choose|k: nat| ancestor(nodes, root, k) == Some(child);
        lemma_ancestor_deeper(nodes, depth, child, root, back);
        assert(false);
    }
    lemma_orphan_subtree_apart(after, child, root, d);
}

/// In a well-formed tree fewer nodes lie below a child than below its
/// parent, and fewer below any node than the tree holds.
pub proof fn lemma_below_shrinks(nodes: Map<NodeId, NodeRecord>, n: NodeId, i: int)
    requires
        well_formed(nodes),
        nodes.contains_key(n),
        0 <= i < nodes[n].children.len(),
    ensures
        below(nodes, nodes[n].children[i]).len() < below(nodes, n).len(),
{
    let depth = choose|depth: Map<NodeId, nat>| forest(nodes, depth);
    let c = nodes[n].children[i];
    assert(nodes.contains_key(c) && nodes[c].parent == Some(n));
    assert(ancestor(nodes, c, 0) == Some(c));
    assert(ancestor(nodes, n, 0) == Some(n));
    assert(ancestor(nodes, c, 1) == Some(n));
    assert(below(nodes, n).subset_of(nodes.dom()));
    lemma_len_subset(below(nodes, n), nodes.dom());
    let grown = below(nodes, c).insert(c);
    assert forall|m: NodeId| grown.contains(m) implies below(nodes, n).contains(m) by {
        if m != c {
            let k = choose|k: nat| ancestor(nodes, m, k) == Some(c);
            lemma_ancestor_extends(nodes, depth, c, m, k);
            lemma_ancestor_deeper(nodes, depth, c, m, k);
            assert(ancestor(nodes, m, k + 1) == Some(n));
        }
    }
    assert(grown.subset_of(below(nodes, n)));
    lemma_len_subset(grown, below(nodes, n));
    assert(below(nodes, c).subset_of(grown));
    lemma_len_subset(below(nodes, c), grown);
    assert(!below(nodes, c).contains(c));
}

/// Fewer nodes lie below a node than the tree holds.
pub proof fn lemma_below_bounded(nodes: Map<NodeId, NodeRecord>, n: NodeId)
    requires
        well_formed(nodes),
        nodes.contains_key(n),
    ensures
        below(nodes, n).len() < nodes.dom().len(),
{
    let grown = below(nodes, n).insert(n);
    assert(below(nodes, n).subset_of(nodes.dom()));
    lemma_len_subset(below(nodes, n), nodes.dom());
    assert(grown.subset_of(nodes.dom()));
    lemma_len_subset(grown, nodes.dom());
}

/// The empty tree is well formed.
pub proof fn lemma_empty_well_formed(nodes: Map<NodeId, NodeRecord>)
    requires
        nodes.dom() == Set::<NodeId>::empty(),
    ensures
        well_formed(nodes),
{
    let depth = Map::<NodeId, nat>::empty();
    assert(forest(nodes, depth));
}

/// Adding a fresh, unattached leaf keeps the tree well formed.
pub proof fn lemma_leaf_well_formed(nodes: Map<NodeId, NodeRecord>, id: NodeId)
    requires
        well_formed(nodes),
        !nodes.contains_key(id),
    ensures
        well_formed(nodes.insert(id, leaf_record())),
{
    let depth = choose|depth: Map<NodeId, nat>| forest(nodes, depth);
    let after = nodes.insert(id, leaf_record());
    assert(after.dom() =~= nodes.dom().insert(id));
    assert forall|n: NodeId, i: int|
        after.contains_key(n) && 0 <= i < after[n].children.len() implies {
        &&& after.contains_key(#[trigger] after[n].children[i])
        &&& after[after[n].children[i]].parent == Some(n)
    } by {
        assert(n != id);
        assert(nodes.contains_key(nodes[n].children[i]));
    }
    assert forall|c: NodeId| #[trigger] after.contains_key(c) && after[c].parent is Some implies {
        let p = after[c].parent.unwrap();
        &&& after.contains_key(p)
        &&& after[p].children.contains(c)
        &&& depth[p] < depth[c]
    } by {
        assert(c != id);
        assert(nodes.contains_key(c));
    }
    assert(forest(after, depth));
}

/// Hanging a parentless node under a node that it is no ancestor of keeps
/// the tree well formed.
pub proof fn lemma_linked_well_formed(nodes: Map<NodeId, NodeRecord>, parent: NodeId, child: NodeId)
    requires
        well_formed(nodes),
        nodes.contains_key(parent),
        nodes.contains_key(child),
        nodes[child].parent is None,
        !is_ancestor(nodes, child, parent),
    ensures
        well_formed(linked(nodes, parent, child)),
{
    let depth = choose|depth: Map<NodeId, nat>| forest(nodes, depth);
    let shift = depth[parent] + 1;
    let shifted = Map::<NodeId, nat>::new(
        |n: NodeId| true,
        |n: NodeId|
            if is_ancestor(nodes, child, n) {
                depth[n] + shift
            } else {
                depth[n]
            },
    );
    let after = linked(nodes, parent, child);
    assert(ancestor(nodes, child, 0) == Some(child));
    assert(child != parent);
    assert(after.dom() =~= nodes.dom());
    assert(!nodes[parent].children.contains(child));
    assert forall|n: NodeId, i: int|
        after.contains_key(n) && 0 <= i < after[n].children.len() implies {
        &&& after.contains_key(#[trigger] after[n].children[i])
        &&& after[after[n].children[i]].parent == Some(n)
    } by {
        let c = after[n].children[i];
        if n == parent && i == nodes[parent].children.len() {
            assert(c == child);
        } else {
            assert(c == nodes[n].children[i]);
            assert(nodes.contains_key(c));
            assert(nodes[c].parent == Some(n));
            assert(c != child);
        }
    }
    assert forall|n: NodeId| #[trigger] after.contains_key(n) implies after[n].children.no_duplicates() by {
        assert(nodes[n].children.no_duplicates());
        if n == parent {
            let old_children = nodes[parent].children;
            let new_children = old_children.push(child);
            assert forall|i: int, j: int|
                0 <= i < new_children.len() && 0 <= j < new_children.len() && i != j implies new_children[i]
                != new_children[j] by {
                if i < old_children.len() {
                    assert(old_children.contains(old_children[i]));
                }
                if j < old_children.len() {
                    assert(old_children.contains(old_children[j]));
                }
            }
        }
    }
    assert forall|c: NodeId| #[trigger] after.contains_key(c) && after[c].parent is Some implies {
        let p = after[c].parent.unwrap();
        &&& after.contains_key(p)
        &&& after[p].children.contains(c)
        &&& shifted[p] < shifted[c]
    } by {
        let p = after[c].parent.unwrap();
        if c == child {
            assert(p == parent);
            let new_children = nodes[parent].children.push(child);
            assert(new_children[new_children.len() - 1] == child);
            assert(is_ancestor(nodes, child, child));
        } else {
            assert(nodes[c].parent == Some(p));
            assert(nodes[p].children.contains(c));
            let i = choose|i: int| 0 <= i < nodes[p].children.len() && nodes[p].children[i] == c;
            assert(after[p].children[i] == c);
            lemma_ancestor_step(nodes, child, c);
        }
    }
    assert(forest(after, shifted));
}

/// Taking a child out of its parent's list keeps the tree well formed.
pub proof fn lemma_unlinked_well_formed(nodes: Map<NodeId, NodeRecord>, parent: NodeId, child: NodeId)
    requires
        well_formed(nodes),
        nodes.contains_key(parent),
        nodes[parent].children.contains(child),
    ensures
        well_formed(unlinked(nodes, parent, child)),
        unlinked(nodes, parent, child).dom() == nodes.dom(),
{
    let depth = choose|depth: Map<NodeId, nat>| forest(nodes, depth);
    let after = unlinked(nodes, parent, child);
    let old_children = nodes[parent].children;
    let at = old_children.index_of(child);
    old_children.index_of_first_ensures(child);
    assert(0 <= at < old_children.len() && old_children[at] == child);
    assert(nodes.contains_key(child) && nodes[child].parent == Some(parent));
    assert(child != parent);
    assert(after.dom() =~= nodes.dom());
    let new_children = old_children.remove(at);
    assert(after[parent].children == new_children);
    assert forall|i: int| 0 <= i < new_children.len() implies #[trigger] new_children[i] != child
        && old_children.contains(new_children[i]) by {
        if i < at {
            assert(new_children[i] == old_children[i]);
        } else {
            assert(new_children[i] == old_children[i + 1]);
        }
    }
    assert forall|n: NodeId, i: int|
        after.contains_key(n) && 0 <= i < after[n].children.len() implies {
        &&& after.contains_key(#[trigger] after[n].children[i])
        &&& after[after[n].children[i]].parent == Some(n)
    } by {
        let c = after[n].children[i];
        if n == parent {
            assert(c == new_children[i]);
            let j = choose|j: int| 0 <= j < old_children.len() && old_children[j] == c;
            assert(nodes[parent].children[j] == c);
            assert(nodes[c].parent == Some(parent));
        } else {
            assert(c == nodes[n].children[i]);
            assert(nodes[c].parent == Some(n));
        }
    }
    assert forall|n: NodeId| #[trigger] after.contains_key(n) implies after[n].children.no_duplicates() by {
        assert(nodes[n].children.no_duplicates());
        if n == parent {
            assert forall|i: int, j: int|
                0 <= i < new_children.len() && 0 <= j < new_children.len() && i != j implies new_children[i]
                != new_children[j] by {
                let oi = if i < at { i } else { i + 1 };
                let oj = if j < at { j } else { j + 1 };
                assert(new_children[i] == old_children[oi]);
                assert(new_children[j] == old_children[oj]);
            }
        }
    }
    assert forall|c: NodeId| #[trigger] after.contains_key(c) && after[c].parent is Some implies {
        let p = after[c].parent.unwrap();
        &&& after.contains_key(p)
        &&& after[p].children.contains(c)
        &&& depth[p] < depth[c]
    } by {
        let p = after[c].parent.unwrap();
        assert(c != child);
        assert(nodes[c].parent == Some(p));
        assert(nodes[p].children.contains(c));
        let j = choose|j: int| 0 <= j < nodes[p].children.len() && nodes[p].children[j] == c;
        if p == parent {
            assert(j != at);
            let i = if j < at { j } else { j - 1 };
            assert(new_children[i] == c);
        } else {
            assert(after[p].children[j] == c);
        }
    }
    assert(forest(after, depth));
}

/// Deleting a node keeps the tree well formed.
pub proof fn lemma_removed_well_formed(nodes: Map<NodeId, NodeRecord>, node: NodeId)
    requires
        well_formed(nodes),
        nodes.contains_key(node),
    ensures
        well_formed(removed(nodes, node)),
        removed(nodes, node).dom() == nodes.dom().remove(node),
{
    let depth = choose|depth: Map<NodeId, nat>| forest(nodes, depth);
    let after = removed(nodes, node);
    assert(after.dom() =~= nodes.dom().remove(node));
    assert forall|n: NodeId, i: int|
        after.contains_key(n) && 0 <= i < after[n].children.len() implies {
        &&& after.contains_key(#[trigger] after[n].children[i])
        &&& after[after[n].children[i]].parent == Some(n)
    } by {
        lemma_removal_children(nodes, node, n);
        let c = after[n].children[i];
        assert(nodes[n].children.contains(c));
        let j = choose|j: int| 0 <= j < nodes[n].children.len() && nodes[n].children[j] == c;
        assert(nodes[n].children[j] == c);
        assert(nodes.contains_key(c) && nodes[c].parent == Some(n));
    }
    assert forall|n: NodeId| #[trigger] after.contains_key(n) implies after[n].children.no_duplicates() by {
        lemma_removal_children(nodes, node, n);
    }
    assert forall|c: NodeId| #[trigger] after.contains_key(c) && after[c].parent is Some implies {
        let p = after[c].parent.unwrap();
        &&& after.contains_key(p)
        &&& after[p].children.contains(c)
        &&& depth[p] < depth[c]
    } by {
        let p = after[c].parent.unwrap();
        assert(nodes.contains_key(c));
        assert(nodes[c].parent == Some(p));
        assert(p != node);
        lemma_removal_children(nodes, node, p);
    }
    assert(forest(after, depth));
}

/// What deleting `node` leaves of the children of another node `n`: all of
/// them but `node`, still without repeats.
proof fn lemma_removal_children(nodes: Map<NodeId, NodeRecord>, node: NodeId, n: NodeId)
    requires
        well_formed(nodes),
        nodes.contains_key(node),
        nodes.contains_key(n),
        n != node,
    ensures
        after_removal(nodes, node, n).children.no_duplicates(),
        forall|c: NodeId|
            after_removal(nodes, node, n).children.contains(c) <==> (nodes[n].children.contains(c)
                && c != node),
{
    let depth = choose|depth: Map<NodeId, nat>| forest(nodes, depth);
    let old_children = nodes[n].children;
    let new_children = after_removal(nodes, node, n).children;
    assert(old_children.no_duplicates());
    if nodes[node].parent == Some(n) {
        assert(old_children.contains(node));
        let at = old_children.index_of(node);
        old_children.index_of_first_ensures(node);
        assert(new_children == old_children.remove(at));
        assert forall|i: int| 0 <= i < new_children.len() implies #[trigger] new_children[i]
            == old_children[if i < at { i } else { i + 1 }] by {}
        assert forall|i: int, j: int|
            0 <= i < new_children.len() && 0 <= j < new_children.len() && i != j implies new_children[i]
            != new_children[j] by {
            let oi = if i < at { i } else { i + 1 };
            let oj = if j < at { j } else { j + 1 };
            assert(new_children[i] == old_children[oi]);
            assert(new_children[j] == old_children[oj]);
        }
        assert forall|c: NodeId| new_children.contains(c) <==> (old_children.contains(c) && c != node) by {
            if new_children.contains(c) {
                let i = choose|i: int| 0 <= i < new_children.len() && new_children[i] == c;
                let oi = if i < at { i } else { i + 1 };
                assert(old_children[oi] == c);
            }
            if old_children.contains(c) && c != node {
                let j = choose|j: int| 0 <= j < old_children.len() && old_children[j] == c;
                let i = if j < at { j } else { j - 1 };
                assert(new_children[i] == c);
            }
        }
    } else {
        assert(new_children == old_children);
        if old_children.contains(node) {
            let j = choose|j: int| 0 <= j < old_children.len() && old_children[j] == node;
            assert(nodes[n].children[j] == node);
            assert(nodes[node].parent == Some(n));
        }
    }
}

} // verus!
