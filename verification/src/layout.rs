//! The layout engine: split, stacking and tabbed placement of a container's
//! children inside a rectangle, applied recursively with each child laid out
//! by its own mode.

use vstd::prelude::*;
use vstd::arithmetic::div_mod::{lemma_fundamental_div_mod, lemma_mod_division_less_than_divisor};
use vstd::arithmetic::mul::{lemma_mul_inequality, lemma_mul_is_commutative,
    lemma_mul_is_distributive_add, lemma_mul_is_distributive_add_other_way,
    lemma_mul_is_distributive_sub_other_way, lemma_mul_nonnegative};
use crate::container::{Container, LayoutMode, NodeId, Rectangle};
use crate::tree::WindowTree;

verus! {

/// Height of the strip a tabbed container reserves at its top.
pub const TAB_BAR_HEIGHT: u32 = 30;

/// Gap the tree's own layout pass places between split children.
pub const TREE_GAP_WIDTH: u32 = 4;

/// The even share each split cell gets: the length that remains after the
/// gaps, divided by the child count (the last cell also receives the
/// remainder of this division).
pub open spec fn split_unit(len: int, n: int, gap: int) -> int {
    (len - (n - 1) * gap) / n
}

/// Offset of the `i`-th split cell from the rectangle's near edge.
pub open spec fn split_off(len: int, n: int, gap: int, i: int) -> int {
    i * (split_unit(len, n, gap) + gap)
}

/// Length of the `i`-th split cell: the even share, except that the last
/// cell runs to the far edge and so absorbs the rounding remainder.
pub open spec fn split_len(len: int, n: int, gap: int, i: int) -> int {
    if i == n - 1 {
        len - (n - 1) * (split_unit(len, n, gap) + gap)
    } else {
        split_unit(len, n, gap)
    }
}

/// Sum of the first `k` cell lengths.
pub open spec fn sum_split_len(len: int, n: int, gap: int, k: int) -> int
    decreases k,
{
    if k <= 0 {
        0
    } else {
        sum_split_len(len, n, gap, k - 1) + split_len(len, n, gap, k - 1)
    }
}

/// Basic facts about a valid split: the even share is non-negative and `n`
/// shares fit into the available length.
proof fn lemma_split_unit_bounds(len: int, n: int, gap: int)
    requires
        1 <= n,
        0 <= gap,
        (n - 1) * gap < len,
    ensures
        0 <= split_unit(len, n, gap),
        n * split_unit(len, n, gap) <= len - (n - 1) * gap,
{
    let avail = len - (n - 1) * gap;
    let cw = avail / n;
    lemma_fundamental_div_mod(avail, n);
    assert(avail == n * cw + avail % n);
    assert(0 <= avail % n < n);
    if cw < 0 {
        assert(n * cw <= 1 * cw) by (nonlinear_arith)
            requires 1 <= n, cw < 0;
        assert(false);
    }
}

/// The sum of the first `k` even shares is `k` shares.
proof fn lemma_sum_prefix(len: int, n: int, gap: int, k: int)
    requires
        1 <= n,
        0 <= k <= n - 1,
    ensures
        sum_split_len(len, n, gap, k) == k * split_unit(len, n, gap),
    decreases k,
{
    let cw = split_unit(len, n, gap);
    if k == 0 {
        assert(0 * cw == 0) by (nonlinear_arith);
    } else {
        lemma_sum_prefix(len, n, gap, k - 1);
        assert(split_len(len, n, gap, k - 1) == cw);
        assert((k - 1) * cw + cw == k * cw) by (nonlinear_arith);
    }
}

/// The law of a valid split along one axis with `n` cells and gap `g` over a
/// length `L` where the gaps leave room (`(n-1)*g < L`): the cell lengths
/// are non-negative and together with the `n-1` gaps they sum exactly to
/// `L`; consecutive cells are separated by exactly one gap; and any earlier
/// cell ends at or before any later cell begins, so the cells are pairwise
/// disjoint and ordered by index.
pub proof fn lemma_split_partition(len: int, n: int, gap: int)
    requires
        1 <= n,
        0 <= gap,
        (n - 1) * gap < len,
    ensures
        sum_split_len(len, n, gap, n) + (n - 1) * gap == len,
        forall|i: int| 0 <= i < n ==> 0 <= #[trigger] split_len(len, n, gap, i),
        forall|i: int| 0 <= i < n ==> #[trigger] split_off(len, n, gap, i) >= 0
            && split_off(len, n, gap, i) + split_len(len, n, gap, i) <= len,
        forall|i: int| 0 <= i < n - 1 ==> #[trigger] split_off(len, n, gap, i + 1)
            == split_off(len, n, gap, i) + split_len(len, n, gap, i) + gap,
        forall|i: int, j: int| 0 <= i < j < n
            ==> #[trigger] split_off(len, n, gap, i) + split_len(len, n, gap, i)
                <= #[trigger] split_off(len, n, gap, j),
{
    let avail = len - (n - 1) * gap;
    let cw = split_unit(len, n, gap);
    let step = cw + gap;
    lemma_split_unit_bounds(len, n, gap);
    assert((n - 1) * step == (n - 1) * cw + (n - 1) * gap) by {
        lemma_mul_is_distributive_add(n - 1, cw, gap);
    }
    assert(n * cw == (n - 1) * cw + cw) by {
        lemma_mul_is_distributive_sub_other_way(cw, n, 1);
    }
    // the last cell length equals the remainder plus one share
    let last = len - (n - 1) * step;
    assert(last == avail - (n - 1) * cw);
    assert(cw <= last);

    // sum: n-1 shares plus the last cell fill the available length
    lemma_sum_prefix(len, n, gap, n - 1);
    assert(sum_split_len(len, n, gap, n) == (n - 1) * cw + last);

    // offsets are multiples of the step
    assert forall|i: int| 0 <= i < n implies #[trigger] split_off(len, n, gap, i) >= 0
        && split_off(len, n, gap, i) + split_len(len, n, gap, i) <= len by {
        lemma_mul_nonnegative(i, step);
        lemma_mul_inequality(i, n - 1, step);
        assert(i * step <= (n - 1) * step);
        if i == n - 1 {
        } else {
            assert(split_len(len, n, gap, i) == cw);
            assert(i * step + cw <= (n - 1) * step + cw);
            assert((n - 1) * step + cw <= (n - 1) * step + last);
        }
    }
    assert forall|i: int| 0 <= i < n - 1 implies #[trigger] split_off(len, n, gap, i + 1)
        == split_off(len, n, gap, i) + split_len(len, n, gap, i) + gap by {
        lemma_mul_is_distributive_add_other_way(step, i, 1);
    }
    assert forall|i: int, j: int| 0 <= i < j < n implies #[trigger] split_off(len, n, gap, i)
        + split_len(len, n, gap, i) <= #[trigger] split_off(len, n, gap, j) by {
        assert(split_len(len, n, gap, i) == cw);
        lemma_mul_inequality(i + 1, j, step);
        lemma_mul_is_distributive_add_other_way(step, i, 1);
        assert(i * step + cw <= i * step + step);
    }
}


/// The law of a horizontal split stated over the cell rectangles: for a
/// valid split of a rectangle among `n` children with gap `g`, the cells'
/// widths plus the `n-1` gaps sum exactly to the rectangle's width, every
/// cell spans the rectangle's full height at its top edge, and any earlier
/// cell ends at or before any later cell begins, so the cells are pairwise
/// disjoint and ordered left to right by index.
pub proof fn lemma_hsplit_rectangles(rect: Rectangle, n: int, gap: int, tab_bar: int)
    requires
        rect_ok(rect),
        1 <= n,
        0 <= gap,
        (n - 1) * gap < rect.width,
    ensures
        sum_split_len(rect.width as int, n, gap, n) + (n - 1) * gap == rect.width,
        forall|i: int| 0 <= i < n ==> (#[trigger] mode_cell(
            LayoutMode::SplitH,
            rect,
            n,
            gap,
            tab_bar,
            i,
        )).width == split_len(rect.width as int, n, gap, i),
        forall|i: int| 0 <= i < n ==> (#[trigger] mode_cell(
            LayoutMode::SplitH,
            rect,
            n,
            gap,
            tab_bar,
            i,
        )).x == rect.x + split_off(rect.width as int, n, gap, i),
        forall|i: int| 0 <= i < n ==> (#[trigger] mode_cell(
            LayoutMode::SplitH,
            rect,
            n,
            gap,
            tab_bar,
            i,
        )).y == rect.y && mode_cell(LayoutMode::SplitH, rect, n, gap, tab_bar, i).height
            == rect.height,
        forall|i: int, j: int| 0 <= i < j < n ==> ({
            let a = #[trigger] mode_cell(LayoutMode::SplitH, rect, n, gap, tab_bar, i);
            let b = #[trigger] mode_cell(LayoutMode::SplitH, rect, n, gap, tab_bar, j);
            a.x + a.width <= b.x
        }),
{
    let len = rect.width as int;
    lemma_split_partition(len, n, gap);
    assert forall|i: int| 0 <= i < n implies (#[trigger] mode_cell(
        LayoutMode::SplitH,
        rect,
        n,
        gap,
        tab_bar,
        i,
    )).width == split_len(len, n, gap, i) && mode_cell(
        LayoutMode::SplitH,
        rect,
        n,
        gap,
        tab_bar,
        i,
    ).x == rect.x + split_off(len, n, gap, i) by {
        // each cell lies inside the rectangle, so the casts keep the values
        assert(0 <= split_len(len, n, gap, i) <= len);
        assert(0 <= split_off(len, n, gap, i) <= len);
        assert(rect.x + split_off(len, n, gap, i) <= rect.x + len);
    }
}

/// The rectangle left to a tabbed container's children: the input with a
/// strip of the tab-bar height (clamped to the available height) removed
/// from its top.
pub open spec fn tabbed_content(rect: Rectangle, tab_bar: int) -> Rectangle {
    let strip = if rect.height < tab_bar {
        rect.height as int
    } else {
        tab_bar
    };
    Rectangle {
        x: rect.x,
        y: (rect.y + strip) as i32,
        width: rect.width,
        height: (rect.height - strip) as u32,
    }
}

/// The rectangle the `i`-th of `n` children receives under a layout mode.
pub open spec fn mode_cell(
    mode: LayoutMode,
    rect: Rectangle,
    n: int,
    gap: int,
    tab_bar: int,
    i: int,
) -> Rectangle {
    match mode {
        LayoutMode::SplitH => Rectangle {
            x: (rect.x + split_off(rect.width as int, n, gap, i)) as i32,
            y: rect.y,
            width: split_len(rect.width as int, n, gap, i) as u32,
            height: rect.height,
        },
        LayoutMode::SplitV => Rectangle {
            x: rect.x,
            y: (rect.y + split_off(rect.height as int, n, gap, i)) as i32,
            width: rect.width,
            height: split_len(rect.height as int, n, gap, i) as u32,
        },
        LayoutMode::Stacking => rect,
        LayoutMode::Tabbed => tabbed_content(rect, tab_bar),
    }
}

/// A rectangle the engine can lay out without arithmetic overflow: its far
/// edges stay within the coordinate type.
pub open spec fn rect_ok(rect: Rectangle) -> bool {
    &&& rect.x + rect.width <= i32::MAX
    &&& rect.y + rect.height <= i32::MAX
}

/// A parent whose children are distinct live leaves: for such containers
/// the engine's result is pinned exactly, child by child.
pub open spec fn flat_container(tree: WindowTree, parent_id: NodeId) -> bool {
    &&& tree.has_node(parent_id)
    &&& tree.node(parent_id).children@.no_duplicates()
    &&& forall|k: int| 0 <= k < tree.node(parent_id).children@.len()
            ==> tree.has_node(#[trigger] tree.node(parent_id).children@[k])
                && tree.node(tree.node(parent_id).children@[k]).children@.len() == 0
}

/// The engine touches geometry only: every node keeps its identity,
/// relations and flags; the root and focus stand.
pub open spec fn geometry_only(pre: WindowTree, post: WindowTree) -> bool {
    &&& post.spec_root() == pre.spec_root()
    &&& post.spec_focused() == pre.spec_focused()
    &&& forall|n: NodeId| post.has_node(n) == pre.has_node(n)
    &&& forall|n: NodeId| #[trigger] pre.has_node(n) ==> post.node(n) == (Container {
            geometry: post.node(n).geometry,
            ..pre.node(n)
        })
}


/// Whether `n` lies in the subtree under `root`: it is the root itself, or
/// lies under one of the root's children, descending at most `fuel` steps.
pub open spec fn in_subtree(tree: WindowTree, root: NodeId, n: NodeId, fuel: nat) -> bool
    decreases fuel, 0nat, 0nat,
{
    ||| n == root
    ||| (fuel > 0 && tree.has_node(root) && under_any(
        tree,
        tree.node(root).children@,
        n,
        (fuel - 1) as nat,
    ))
}

/// Whether `n` lies in the subtree under any root in the list.
pub open spec fn under_any(tree: WindowTree, roots: Seq<NodeId>, n: NodeId, fuel: nat) -> bool
    decreases fuel, 1nat, roots.len(),
{
    roots.len() > 0 && (in_subtree(tree, roots.last(), n, fuel) || under_any(
        tree,
        roots.drop_last(),
        n,
        fuel,
    ))
}

/// A pass that touches geometry only does not move any node between
/// subtrees: reachability reads links and kinds, never rectangles.
proof fn lemma_in_subtree_stable(a: WindowTree, b: WindowTree, root: NodeId, n: NodeId, fuel: nat)
    requires
        geometry_only(a, b),
    ensures
        in_subtree(b, root, n, fuel) == in_subtree(a, root, n, fuel),
    decreases fuel, 0nat, 0nat,
{
    if fuel > 0 && a.has_node(root) {
        assert(b.node(root).children@ == a.node(root).children@);
        lemma_under_any_stable(a, b, a.node(root).children@, n, (fuel - 1) as nat);
    }
}

/// List form of `lemma_in_subtree_stable`.
proof fn lemma_under_any_stable(
    a: WindowTree,
    b: WindowTree,
    roots: Seq<NodeId>,
    n: NodeId,
    fuel: nat,
)
    requires
        geometry_only(a, b),
    ensures
        under_any(b, roots, n, fuel) == under_any(a, roots, n, fuel),
    decreases fuel, 1nat, roots.len(),
{
    if roots.len() > 0 {
        lemma_in_subtree_stable(a, b, roots.last(), n, fuel);
        lemma_under_any_stable(a, b, roots.drop_last(), n, fuel);
    }
}

/// A node under some listed root is under the list.
proof fn lemma_under_any_member(tree: WindowTree, roots: Seq<NodeId>, k: int, n: NodeId, fuel: nat)
    requires
        0 <= k < roots.len(),
        in_subtree(tree, roots[k], n, fuel),
    ensures
        under_any(tree, roots, n, fuel),
    decreases roots.len(),
{
    if k == roots.len() - 1 {
        assert(roots.last() == roots[k]);
    } else {
        assert(roots.drop_last()[k] == roots[k]);
        lemma_under_any_member(tree, roots.drop_last(), k, n, fuel);
    }
}



/// More fuel reaches no fewer nodes.
proof fn lemma_in_subtree_fuel(tree: WindowTree, root: NodeId, n: NodeId, f1: nat, f2: nat)
    requires
        f1 <= f2,
        in_subtree(tree, root, n, f1),
    ensures
        in_subtree(tree, root, n, f2),
    decreases f1, 0nat, 0nat,
{
    if n != root {
        lemma_under_any_fuel(tree, tree.node(root).children@, n, (f1 - 1) as nat,
            (f2 - 1) as nat);
    }
}

/// List form of `lemma_in_subtree_fuel`.
proof fn lemma_under_any_fuel(tree: WindowTree, roots: Seq<NodeId>, n: NodeId, f1: nat, f2: nat)
    requires
        f1 <= f2,
        under_any(tree, roots, n, f1),
    ensures
        under_any(tree, roots, n, f2),
    decreases f1, 1nat, roots.len(),
{
    if in_subtree(tree, roots.last(), n, f1) {
        lemma_in_subtree_fuel(tree, roots.last(), n, f1, f2);
    } else {
        lemma_under_any_fuel(tree, roots.drop_last(), n, f1, f2);
    }
}

/// A parent whose children are distinct, live, and pairwise clear of one
/// another's subtrees, none of them containing itself: the shape every
/// well-formed tree has, container children included. For such a parent
/// the engine's result is pinned child by child.
pub open spec fn separated_children(tree: WindowTree, parent_id: NodeId, fuel: nat) -> bool {
    &&& tree.has_node(parent_id)
    &&& tree.node(parent_id).children@.no_duplicates()
    &&& forall|k: int| 0 <= k < tree.node(parent_id).children@.len()
            ==> tree.has_node(#[trigger] tree.node(parent_id).children@[k])
    &&& forall|k1: int, k2: int| 0 <= k1 < tree.node(parent_id).children@.len()
            && 0 <= k2 < tree.node(parent_id).children@.len() && k1 != k2 ==> !in_subtree(
            tree,
            #[trigger] tree.node(parent_id).children@[k2],
            #[trigger] tree.node(parent_id).children@[k1],
            fuel,
        )
    &&& forall|k: int| 0 <= k < tree.node(parent_id).children@.len() ==> !under_any(
            tree,
            tree.node(#[trigger] tree.node(parent_id).children@[k]).children@,
            tree.node(parent_id).children@[k],
            fuel,
        )
    &&& !under_any(tree, tree.node(parent_id).children@, parent_id, fuel)
}

/// Separation reads links only, so a pass that touches geometry alone
/// neither makes nor unmakes it.
proof fn lemma_separated_stable(a: WindowTree, b: WindowTree, parent_id: NodeId, fuel: nat)
    requires
        geometry_only(a, b),
        separated_children(a, parent_id, fuel),
    ensures
        separated_children(b, parent_id, fuel),
{
    let kids = a.node(parent_id).children@;
    assert(b.node(parent_id).children@ == kids);
    assert forall|k: int| 0 <= k < kids.len()
        implies b.has_node(#[trigger] b.node(parent_id).children@[k]) by {
        assert(a.has_node(kids[k]));
    }
    assert forall|k1: int, k2: int| 0 <= k1 < kids.len() && 0 <= k2 < kids.len() && k1 != k2
        implies !in_subtree(b, #[trigger] b.node(parent_id).children@[k2],
            #[trigger] b.node(parent_id).children@[k1], fuel) by {
        lemma_in_subtree_stable(a, b, kids[k2], kids[k1], fuel);
    }
    assert forall|k: int| 0 <= k < kids.len() implies !under_any(
        b,
        b.node(#[trigger] b.node(parent_id).children@[k]).children@,
        b.node(parent_id).children@[k],
        fuel,
    ) by {
        assert(b.node(kids[k]).children@ == a.node(kids[k]).children@);
        lemma_under_any_stable(a, b, a.node(kids[k]).children@, kids[k], fuel);
    }
    lemma_under_any_stable(a, b, kids, parent_id, fuel);
}

/// When the engine's per-child result is pinned exactly: the parent's
/// children are distinct live leaves, and for a split the gaps leave room.
pub open spec fn flat_exact_pre(
    tree: WindowTree,
    parent_id: NodeId,
    mode: LayoutMode,
    rect: Rectangle,
    gap: int,
) -> bool {
    &&& flat_container(tree, parent_id)
    &&& tree.node(parent_id).children@.len() >= 1
    &&& (mode is SplitH ==> (tree.node(parent_id).children@.len() - 1) * gap < rect.width)
    &&& (mode is SplitV ==> (tree.node(parent_id).children@.len() - 1) * gap < rect.height)
}


/// One geometry write, exactly as `set_geometry` promises it: the named
/// node (when live) carries the new rectangle, and nothing else changes.
pub open spec fn geom_step(pre: WindowTree, post: WindowTree, id: NodeId, rect: Rectangle) -> bool {
    &&& WindowTree::one_node_frame(pre, post, id)
    &&& pre.has_node(id) ==> post.node(id) == (Container { geometry: rect, ..pre.node(id) })
}

/// The engine's descent into one child that has just received its cell:
/// out of fuel or a gone child changes nothing; otherwise the child's
/// children are laid out inside the cell by the child's own recorded mode.
pub open spec fn descend_rel(
    pre: WindowTree,
    post: WindowTree,
    child: NodeId,
    cell: Rectangle,
    gap: int,
    tab_bar: int,
    fuel: nat,
) -> bool
    decreases fuel, 0nat, 0nat,
{
    if fuel == 0 {
        post == pre
    } else if !pre.has_node(child) {
        post == pre
    } else {
        engine_rel(pre, post, child, cell, pre.node(child).layout, gap, tab_bar, (fuel - 1) as nat)
    }
}

/// One child fully handled: its geometry is set to its cell, then the
/// engine descends into it.
pub open spec fn child_done(
    pre: WindowTree,
    post: WindowTree,
    child: NodeId,
    cell: Rectangle,
    gap: int,
    tab_bar: int,
    fuel: nat,
) -> bool
    decreases fuel, 1nat, 0nat,
{
    exists|mid: WindowTree|
        #[trigger] geom_step(pre, mid, child, cell)
        && descend_rel(mid, post, child, cell, gap, tab_bar, fuel)
}

/// Identity on tree states. Quantifiers over the intermediate states of a
/// layout pass trigger on it, so that naming a state brings the chain into
/// view.
pub open spec fn chain_state(t: WindowTree) -> WindowTree {
    t
}

/// The first `i` children handled in order, each receiving its cell under
/// the parent's mode and then laid out recursively.
pub open spec fn cells_rel(
    pre: WindowTree,
    post: WindowTree,
    kids: Seq<NodeId>,
    mode: LayoutMode,
    rect: Rectangle,
    n: int,
    gap: int,
    tab_bar: int,
    i: int,
    fuel: nat,
) -> bool
    decreases fuel, 2nat, (if i >= 0 { i } else { 0 }), 0nat,
{
    if i <= 0 {
        post == pre
    } else {
        exists|mid: WindowTree|
            #[trigger] chain_state(mid) == mid
            && cells_link(pre, mid, post, kids, mode, rect, n, gap, tab_bar, i, fuel)
    }
}

/// One link of the chain: the first `i - 1` children reached `mid`, and the
/// `i`-th was handled from there.
pub open spec fn cells_link(
    pre: WindowTree,
    mid: WindowTree,
    post: WindowTree,
    kids: Seq<NodeId>,
    mode: LayoutMode,
    rect: Rectangle,
    n: int,
    gap: int,
    tab_bar: int,
    i: int,
    fuel: nat,
) -> bool
    decreases fuel, 2nat, (if i >= 1 { i - 1 } else { 0 }), 1nat,
{
    &&& cells_rel(pre, mid, kids, mode, rect, n, gap, tab_bar, i - 1, fuel)
    &&& child_done(
        mid,
        post,
        kids[i - 1],
        mode_cell(mode, rect, n, gap, tab_bar, i - 1),
        gap,
        tab_bar,
        fuel,
    )
}

/// Extending a handled prefix by one more handled child extends the
/// relation.
proof fn lemma_cells_rel_step(
    pre: WindowTree,
    mid: WindowTree,
    post: WindowTree,
    kids: Seq<NodeId>,
    mode: LayoutMode,
    rect: Rectangle,
    n: int,
    gap: int,
    tab_bar: int,
    i: int,
    fuel: nat,
)
    requires
        i >= 1,
        cells_rel(pre, mid, kids, mode, rect, n, gap, tab_bar, i - 1, fuel),
        child_done(
            mid,
            post,
            kids[i - 1],
            mode_cell(mode, rect, n, gap, tab_bar, i - 1),
            gap,
            tab_bar,
            fuel,
        ),
    ensures
        cells_rel(pre, post, kids, mode, rect, n, gap, tab_bar, i, fuel),
{
    assert(chain_state(mid) == mid);
    assert(cells_link(pre, mid, post, kids, mode, rect, n, gap, tab_bar, i, fuel));
}

/// The engine's whole recursive effect on a container: a missing or
/// childless container, or a split whose gaps leave no room, changes
/// nothing; otherwise each child in order receives its cell and is laid
/// out inside it by its own mode. This is the engine's specification for
/// arbitrary trees, nesting included.
pub open spec fn engine_rel(
    pre: WindowTree,
    post: WindowTree,
    parent: NodeId,
    rect: Rectangle,
    mode: LayoutMode,
    gap: int,
    tab_bar: int,
    fuel: nat,
) -> bool
    decreases fuel, 3nat, 0nat,
{
    if !pre.has_node(parent) {
        post == pre
    } else {
        let kids = pre.node(parent).children@;
        let n = kids.len() as int;
        if n == 0 {
            post == pre
        } else if mode is SplitH && (n - 1) * gap >= rect.width {
            post == pre
        } else if mode is SplitV && (n - 1) * gap >= rect.height {
            post == pre
        } else {
            cells_rel(pre, post, kids, mode, rect, n, gap, tab_bar, n, fuel)
        }
    }
}

/// Assign rectangles to a container's children per the given mode, then lay
/// each child out by its own recorded mode. Only geometries change. For a
/// split whose gaps leave no room the pass changes nothing, and a missing
/// or childless container is left alone. For a container of distinct live
/// leaf children the result is pinned cell by cell; `fuel` bounds the
/// recursion depth, which on any well-formed tree never reaches the bound.
#[verifier::rlimit(30)]
pub(crate) fn layout_children(
    tree: &mut WindowTree,
    parent_id: NodeId,
    rect: Rectangle,
    mode: LayoutMode,
    gap: u32,
    tab_bar: u32,
    fuel: usize,
)
    requires
        rect_ok(rect),
    ensures
        geometry_only(*old(tree), *final(tree)),
        !old(tree).has_node(parent_id) ==> *final(tree) == *old(tree),
        old(tree).has_node(parent_id) && old(tree).node(parent_id).children@.len() == 0
            ==> *final(tree) == *old(tree),
        old(tree).has_node(parent_id) && old(tree).node(parent_id).children@.len() >= 1
            && mode is SplitH
            && (old(tree).node(parent_id).children@.len() - 1) * gap >= rect.width
            ==> *final(tree) == *old(tree),
        old(tree).has_node(parent_id) && old(tree).node(parent_id).children@.len() >= 1
            && mode is SplitV
            && (old(tree).node(parent_id).children@.len() - 1) * gap >= rect.height
            ==> *final(tree) == *old(tree),
        flat_exact_pre(*old(tree), parent_id, mode, rect, gap as int) ==> ({
            let kids = old(tree).node(parent_id).children@;
            &&& forall|k: int| 0 <= k < kids.len()
                    ==> final(tree).node(kids[k]).geometry == mode_cell(
                        mode,
                        rect,
                        kids.len() as int,
                        gap as int,
                        tab_bar as int,
                        k,
                    )
            &&& forall|m: NodeId| #[trigger] old(tree).has_node(m) && !kids.contains(m)
                    ==> final(tree).node(m).geometry == old(tree).node(m).geometry
        }),
        engine_rel(*old(tree), *final(tree), parent_id, rect, mode, gap as int, tab_bar as int,
            fuel as nat),
        forall|m: NodeId| #[trigger] old(tree).has_node(m)
            && !in_subtree(*old(tree), parent_id, m, fuel as nat + 1)
            ==> final(tree).node(m).geometry == old(tree).node(m).geometry,
        old(tree).has_node(parent_id) ==> forall|m: NodeId| #[trigger] old(tree).has_node(m)
            && !under_any(*old(tree), old(tree).node(parent_id).children@, m, fuel as nat)
            ==> final(tree).node(m).geometry == old(tree).node(m).geometry,
        separated_children(*old(tree), parent_id, fuel as nat)
            && old(tree).node(parent_id).children@.len() >= 1
            && (mode is SplitH ==> (old(tree).node(parent_id).children@.len() - 1) * gap
                < rect.width)
            && (mode is SplitV ==> (old(tree).node(parent_id).children@.len() - 1) * gap
                < rect.height) ==> forall|k: int|
            0 <= k < old(tree).node(parent_id).children@.len()
            ==> final(tree).node(#[trigger] old(tree).node(parent_id).children@[k]).geometry
                == mode_cell(
                mode,
                rect,
                old(tree).node(parent_id).children@.len() as int,
                gap as int,
                tab_bar as int,
                k,
            ),
    decreases fuel, 1nat,
{
    let kids = tree.children(parent_id);
    let n = kids.len();
    if n == 0 {
        return;
    }
    let ghost pre = *tree;
    let ghost kseq = kids@;
    let ghost nn = n as int;
    let ghost gg = gap as int;
    let ghost tb = tab_bar as int;

    match mode {
        LayoutMode::SplitH => {
            let n64: u64 = n as u64;
            let w64: u64 = rect.width as u64;
            let g64: u64 = gap as u64;
            if g64 > 0 && n64 - 1 > w64 / g64 {
                proof {
                    let q = (w64 / g64) as int;
                    let g = g64 as int;
                    lemma_fundamental_div_mod(w64 as int, g);
                    lemma_mod_division_less_than_divisor(w64 as int, g);
                    assert((w64 as int) < (q + 1) * g) by {
                        lemma_mul_is_distributive_add_other_way(g, q, 1);
                    }
                    lemma_mul_inequality(q + 1, n64 as int - 1, g);
                    assert((nn - 1) * gg >= rect.width);
                }
                return;
            }
            if g64 > 0 {
                proof {
                    let q = (w64 / g64) as int;
                    let g = g64 as int;
                    lemma_fundamental_div_mod(w64 as int, g);
                    lemma_mod_division_less_than_divisor(w64 as int, g);
                    lemma_mul_inequality(n64 as int - 1, q, g);
                    lemma_mul_is_commutative(q, g);
                    assert((n64 - 1) as int * g <= q * g);
                    assert(q * g <= w64 as int);
                }
            }
            let total_gap: u64 = (n64 - 1) * g64;
            if total_gap >= w64 {
                proof {
                    assert((nn - 1) * gg >= rect.width);
                }
                return;
            }
            assert((nn - 1) * gg < rect.width);
            let avail: u64 = w64 - total_gap;
            let cw: u64 = avail / n64;
            proof {
                lemma_split_partition(rect.width as int, nn, gg);
                assert(cw as int == split_unit(rect.width as int, nn, gg));
            }
            let mut x: i64 = rect.x as i64;
            let mut i: usize = 0;
            proof {
                assert(split_off(rect.width as int, nn, gg, 0) == 0) by (nonlinear_arith);
            }
            while i < n
                invariant
                    n == kseq.len(),
                    1 <= n <= usize::MAX,
                    i <= n,
                    rect_ok(rect),
                    nn == n as int,
                    gg == gap as int,
                    tb == tab_bar as int,
                    (nn - 1) * gg < rect.width,
                    cw as int == split_unit(rect.width as int, nn, gg),
                    kids@ == kseq,
                    i < n ==> x == rect.x + split_off(rect.width as int, nn, gg, i as int),
                    geometry_only(pre, *tree),
                    pre.has_node(parent_id),
                    pre.node(parent_id).children@ == kseq,
                    flat_exact_pre(pre, parent_id, LayoutMode::SplitH, rect, gg)
                        ==> forall|k: int| 0 <= k < i ==> tree.node(kseq[k]).geometry
                            == mode_cell(LayoutMode::SplitH, rect, nn, gg, tb, k),
                    flat_exact_pre(pre, parent_id, LayoutMode::SplitH, rect, gg)
                        ==> forall|m: NodeId| #[trigger] pre.has_node(m) && !kseq.contains(m)
                            ==> tree.node(m).geometry == pre.node(m).geometry,
                    cells_rel(pre, *tree, kseq, LayoutMode::SplitH, rect, nn, gg, tb, i as int,
                        fuel as nat),
                    forall|m: NodeId| #[trigger] pre.has_node(m)
                        && !in_subtree(pre, parent_id, m, fuel as nat + 1)
                        ==> tree.node(m).geometry == pre.node(m).geometry,
                    forall|m: NodeId| #[trigger] pre.has_node(m)
                        && !under_any(pre, kseq, m, fuel as nat)
                        ==> tree.node(m).geometry == pre.node(m).geometry,
                    separated_children(pre, parent_id, fuel as nat) ==> forall|k: int|
                        0 <= k < i ==> tree.node(#[trigger] kseq[k]).geometry == mode_cell(
                            LayoutMode::SplitH,
                            rect,
                            nn,
                            gg,
                            tb,
                            k,
                        ),
                decreases n - i,
            {
                proof {
                    lemma_split_partition(rect.width as int, nn, gg);
                }
                let w_i: u64 = if i == n - 1 {
                    assert(x <= rect.x as i64 + rect.width as i64);
                    ((rect.x as i64 + rect.width as i64) - x) as u64
                } else {
                    cw
                };
                proof {
                    assert(w_i as int == split_len(rect.width as int, nn, gg, i as int));
                    assert(split_off(rect.width as int, nn, gg, i as int)
                        + split_len(rect.width as int, nn, gg, i as int) <= rect.width);
                }
                let cell = Rectangle {
                    x: x as i32,
                    y: rect.y,
                    width: w_i as u32,
                    height: rect.height,
                };
                proof {
                    assert(cell == mode_cell(LayoutMode::SplitH, rect, nn, gg, tb, i as int));
                    assert(rect_ok(cell));
                }
                let child = kids[i];
                let ghost step_pre = *tree;
                tree.set_geometry(child, cell);
                let ghost step_mid = *tree;
                layout_into(tree, child, cell, gap, tab_bar, fuel);
                proof {
                    assert(geom_step(step_pre, step_mid, child, cell));
                    let ghost j: int = i as int + 1;
                    assert(cells_rel(pre, step_pre, kseq, LayoutMode::SplitH, rect, nn, gg, tb,
                        j - 1, fuel as nat));
                    assert(child_done(
                        step_pre,
                        *tree,
                        kseq[j - 1],
                        mode_cell(LayoutMode::SplitH, rect, nn, gg, tb, j - 1),
                        gg,
                        tb,
                        fuel as nat,
                    ));
                    lemma_cells_rel_step(pre, step_pre, *tree, kseq, LayoutMode::SplitH, rect,
                        nn, gg, tb, j, fuel as nat);
                    assert(geometry_only(pre, step_mid));
                    assert(in_subtree(pre, kseq[i as int], kseq[i as int], fuel as nat));
                    lemma_under_any_member(pre, kseq, i as int, kseq[i as int], fuel as nat);
                    assert(in_subtree(pre, parent_id, kseq[i as int], fuel as nat + 1));
                    assert forall|m: NodeId| #[trigger] pre.has_node(m)
                        && !in_subtree(pre, parent_id, m, fuel as nat + 1)
                        implies tree.node(m).geometry == pre.node(m).geometry by {
                        assert(m != kseq[i as int]);
                        if in_subtree(pre, kseq[i as int], m, fuel as nat) {
                            lemma_under_any_member(pre, kseq, i as int, m, fuel as nat);
                            assert(in_subtree(pre, parent_id, m, fuel as nat + 1));
                        }
                        lemma_in_subtree_stable(pre, step_mid, kseq[i as int], m, fuel as nat);
                        assert(step_mid.node(m).geometry == pre.node(m).geometry);
                    }
                    assert forall|m: NodeId| #[trigger] pre.has_node(m)
                        && !under_any(pre, kseq, m, fuel as nat)
                        implies tree.node(m).geometry == pre.node(m).geometry by {
                        if in_subtree(pre, kseq[i as int], m, fuel as nat) {
                            lemma_under_any_member(pre, kseq, i as int, m, fuel as nat);
                        }
                        lemma_in_subtree_stable(pre, step_mid, kseq[i as int], m, fuel as nat);
                        assert(step_mid.node(m).geometry == pre.node(m).geometry);
                    }
                    if separated_children(pre, parent_id, fuel as nat) {
                        let ci = kseq[i as int];
                        assert(pre.has_node(ci));
                        assert(step_mid.node(ci).geometry == cell);
                        if fuel == 0 {
                            assert(*tree == step_mid);
                        } else {
                            assert(!under_any(pre, pre.node(ci).children@, ci, fuel as nat));
                            assert(!under_any(pre, pre.node(ci).children@, ci,
                                (fuel - 1) as nat)) by {
                                if under_any(pre, pre.node(ci).children@, ci,
                                    (fuel - 1) as nat) {
                                    lemma_under_any_fuel(pre, pre.node(ci).children@, ci,
                                        (fuel - 1) as nat, fuel as nat);
                                }
                            }
                            lemma_under_any_stable(pre, step_mid, pre.node(ci).children@, ci,
                                (fuel - 1) as nat);
                            assert(step_mid.node(ci).children@ == pre.node(ci).children@);
                            assert(tree.node(ci).geometry == step_mid.node(ci).geometry);
                        }
                        assert(tree.node(ci).geometry == mode_cell(LayoutMode::SplitH, rect, nn,
                            gg, tb, i as int));
                        assert forall|k: int| 0 <= k < i as int + 1
                            implies tree.node(#[trigger] kseq[k]).geometry == mode_cell(
                            LayoutMode::SplitH,
                            rect,
                            nn,
                            gg,
                            tb,
                            k,
                        ) by {
                            if k < i as int {
                                assert(kseq[k] != kseq[i as int]);
                                assert(!in_subtree(pre, kseq[i as int], kseq[k],
                                    fuel as nat));
                                lemma_in_subtree_stable(pre, step_mid, kseq[i as int],
                                    kseq[k], fuel as nat);
                                assert(step_mid.node(kseq[k]).geometry == mode_cell(
                                    LayoutMode::SplitH, rect, nn, gg, tb, k));
                            }
                        }
                    }
                    assert(geometry_only(pre, *tree));
                    if flat_exact_pre(pre, parent_id, LayoutMode::SplitH, rect, gg) {
                        assert(pre.has_node(kseq[i as int]));
                        assert(pre.node(kseq[i as int]).children@.len() == 0);
                        assert(tree.node(kseq[i as int]).geometry == cell);
                        assert forall|k: int| 0 <= k < i implies kseq[k] != kseq[i as int] by {
                            assert(kseq.no_duplicates());
                        }
                        assert(kseq.contains(kseq[i as int]));
                    }
                }
                x = x + w_i as i64 + gap as i64;
                i = i + 1;
            }
        }
        LayoutMode::SplitV => {
            let n64: u64 = n as u64;
            let h64: u64 = rect.height as u64;
            let g64: u64 = gap as u64;
            if g64 > 0 && n64 - 1 > h64 / g64 {
                proof {
                    lemma_fundamental_div_mod(h64 as int, g64 as int);
                    lemma_mod_division_less_than_divisor(h64 as int, g64 as int);
                    lemma_mul_inequality(
                        (h64 / g64) as int + 1,
                        n64 as int - 1,
                        g64 as int,
                    );
                    lemma_mul_is_distributive_add_other_way(
                        g64 as int,
                        (h64 / g64) as int,
                        1,
                    );
                    assert((nn - 1) * gg >= rect.height);
                }
                return;
            }
            if g64 > 0 {
                proof {
                    let q = (h64 / g64) as int;
                    let g = g64 as int;
                    lemma_fundamental_div_mod(h64 as int, g);
                    lemma_mod_division_less_than_divisor(h64 as int, g);
                    lemma_mul_inequality(n64 as int - 1, q, g);
                    lemma_mul_is_commutative(q, g);
                    assert((n64 - 1) as int * g <= q * g);
                    assert(q * g <= h64 as int);
                }
            }
            let total_gap: u64 = (n64 - 1) * g64;
            if total_gap >= h64 {
                proof {
                    assert((nn - 1) * gg >= rect.height);
                }
                return;
            }
            assert((nn - 1) * gg < rect.height);
            let avail: u64 = h64 - total_gap;
            let ch: u64 = avail / n64;
            proof {
                lemma_split_partition(rect.height as int, nn, gg);
                assert(ch as int == split_unit(rect.height as int, nn, gg));
            }
            let mut y: i64 = rect.y as i64;
            let mut i: usize = 0;
            proof {
                assert(split_off(rect.height as int, nn, gg, 0) == 0) by (nonlinear_arith);
            }
            while i < n
                invariant
                    n == kseq.len(),
                    1 <= n <= usize::MAX,
                    i <= n,
                    rect_ok(rect),
                    nn == n as int,
                    gg == gap as int,
                    tb == tab_bar as int,
                    (nn - 1) * gg < rect.height,
                    ch as int == split_unit(rect.height as int, nn, gg),
                    kids@ == kseq,
                    i < n ==> y == rect.y + split_off(rect.height as int, nn, gg, i as int),
                    geometry_only(pre, *tree),
                    pre.has_node(parent_id),
                    pre.node(parent_id).children@ == kseq,
                    flat_exact_pre(pre, parent_id, LayoutMode::SplitV, rect, gg)
                        ==> forall|k: int| 0 <= k < i ==> tree.node(kseq[k]).geometry
                            == mode_cell(LayoutMode::SplitV, rect, nn, gg, tb, k),
                    flat_exact_pre(pre, parent_id, LayoutMode::SplitV, rect, gg)
                        ==> forall|m: NodeId| #[trigger] pre.has_node(m) && !kseq.contains(m)
                            ==> tree.node(m).geometry == pre.node(m).geometry,
                    cells_rel(pre, *tree, kseq, LayoutMode::SplitV, rect, nn, gg, tb, i as int,
                        fuel as nat),
                    forall|m: NodeId| #[trigger] pre.has_node(m)
                        && !in_subtree(pre, parent_id, m, fuel as nat + 1)
                        ==> tree.node(m).geometry == pre.node(m).geometry,
                    forall|m: NodeId| #[trigger] pre.has_node(m)
                        && !under_any(pre, kseq, m, fuel as nat)
                        ==> tree.node(m).geometry == pre.node(m).geometry,
                    separated_children(pre, parent_id, fuel as nat) ==> forall|k: int|
                        0 <= k < i ==> tree.node(#[trigger] kseq[k]).geometry == mode_cell(
                            LayoutMode::SplitV,
                            rect,
                            nn,
                            gg,
                            tb,
                            k,
                        ),
                decreases n - i,
            {
                proof {
                    lemma_split_partition(rect.height as int, nn, gg);
                }
                let h_i: u64 = if i == n - 1 {
                    assert(y <= rect.y as i64 + rect.height as i64);
                    ((rect.y as i64 + rect.height as i64) - y) as u64
                } else {
                    ch
                };
                proof {
                    assert(h_i as int == split_len(rect.height as int, nn, gg, i as int));
                    assert(split_off(rect.height as int, nn, gg, i as int)
                        + split_len(rect.height as int, nn, gg, i as int) <= rect.height);
                }
                let cell = Rectangle {
                    x: rect.x,
                    y: y as i32,
                    width: rect.width,
                    height: h_i as u32,
                };
                proof {
                    assert(cell == mode_cell(LayoutMode::SplitV, rect, nn, gg, tb, i as int));
                    assert(rect_ok(cell));
                }
                let child = kids[i];
                let ghost step_pre = *tree;
                tree.set_geometry(child, cell);
                let ghost step_mid = *tree;
                layout_into(tree, child, cell, gap, tab_bar, fuel);
                proof {
                    assert(geom_step(step_pre, step_mid, child, cell));
                    let ghost j: int = i as int + 1;
                    assert(cells_rel(pre, step_pre, kseq, LayoutMode::SplitV, rect, nn, gg, tb,
                        j - 1, fuel as nat));
                    assert(child_done(
                        step_pre,
                        *tree,
                        kseq[j - 1],
                        mode_cell(LayoutMode::SplitV, rect, nn, gg, tb, j - 1),
                        gg,
                        tb,
                        fuel as nat,
                    ));
                    lemma_cells_rel_step(pre, step_pre, *tree, kseq, LayoutMode::SplitV, rect,
                        nn, gg, tb, j, fuel as nat);
                    assert(geometry_only(pre, step_mid));
                    assert(in_subtree(pre, kseq[i as int], kseq[i as int], fuel as nat));
                    lemma_under_any_member(pre, kseq, i as int, kseq[i as int], fuel as nat);
                    assert(in_subtree(pre, parent_id, kseq[i as int], fuel as nat + 1));
                    assert forall|m: NodeId| #[trigger] pre.has_node(m)
                        && !in_subtree(pre, parent_id, m, fuel as nat + 1)
                        implies tree.node(m).geometry == pre.node(m).geometry by {
                        assert(m != kseq[i as int]);
                        if in_subtree(pre, kseq[i as int], m, fuel as nat) {
                            lemma_under_any_member(pre, kseq, i as int, m, fuel as nat);
                            assert(in_subtree(pre, parent_id, m, fuel as nat + 1));
                        }
                        lemma_in_subtree_stable(pre, step_mid, kseq[i as int], m, fuel as nat);
                        assert(step_mid.node(m).geometry == pre.node(m).geometry);
                    }
                    assert forall|m: NodeId| #[trigger] pre.has_node(m)
                        && !under_any(pre, kseq, m, fuel as nat)
                        implies tree.node(m).geometry == pre.node(m).geometry by {
                        if in_subtree(pre, kseq[i as int], m, fuel as nat) {
                            lemma_under_any_member(pre, kseq, i as int, m, fuel as nat);
                        }
                        lemma_in_subtree_stable(pre, step_mid, kseq[i as int], m, fuel as nat);
                        assert(step_mid.node(m).geometry == pre.node(m).geometry);
                    }
                    if separated_children(pre, parent_id, fuel as nat) {
                        let ci = kseq[i as int];
                        assert(pre.has_node(ci));
                        assert(step_mid.node(ci).geometry == cell);
                        if fuel == 0 {
                            assert(*tree == step_mid);
                        } else {
                            assert(!under_any(pre, pre.node(ci).children@, ci, fuel as nat));
                            assert(!under_any(pre, pre.node(ci).children@, ci,
                                (fuel - 1) as nat)) by {
                                if under_any(pre, pre.node(ci).children@, ci,
                                    (fuel - 1) as nat) {
                                    lemma_under_any_fuel(pre, pre.node(ci).children@, ci,
                                        (fuel - 1) as nat, fuel as nat);
                                }
                            }
                            lemma_under_any_stable(pre, step_mid, pre.node(ci).children@, ci,
                                (fuel - 1) as nat);
                            assert(step_mid.node(ci).children@ == pre.node(ci).children@);
                            assert(tree.node(ci).geometry == step_mid.node(ci).geometry);
                        }
                        assert(tree.node(ci).geometry == mode_cell(LayoutMode::SplitV, rect, nn,
                            gg, tb, i as int));
                        assert forall|k: int| 0 <= k < i as int + 1
                            implies tree.node(#[trigger] kseq[k]).geometry == mode_cell(
                            LayoutMode::SplitV,
                            rect,
                            nn,
                            gg,
                            tb,
                            k,
                        ) by {
                            if k < i as int {
                                assert(kseq[k] != kseq[i as int]);
                                assert(!in_subtree(pre, kseq[i as int], kseq[k],
                                    fuel as nat));
                                lemma_in_subtree_stable(pre, step_mid, kseq[i as int],
                                    kseq[k], fuel as nat);
                                assert(step_mid.node(kseq[k]).geometry == mode_cell(
                                    LayoutMode::SplitV, rect, nn, gg, tb, k));
                            }
                        }
                    }
                    assert(geometry_only(pre, *tree));
                    if flat_exact_pre(pre, parent_id, LayoutMode::SplitV, rect, gg) {
                        assert(pre.has_node(kseq[i as int]));
                        assert(pre.node(kseq[i as int]).children@.len() == 0);
                        assert(tree.node(kseq[i as int]).geometry == cell);
                        assert forall|k: int| 0 <= k < i implies kseq[k] != kseq[i as int] by {
                            assert(kseq.no_duplicates());
                        }
                        assert(kseq.contains(kseq[i as int]));
                    }
                }
                y = y + h_i as i64 + gap as i64;
                i = i + 1;
            }
        }
        LayoutMode::Stacking => {
            let mut i: usize = 0;
            while i < n
                invariant
                    n == kseq.len(),
                    i <= n,
                    rect_ok(rect),
                    nn == n as int,
                    gg == gap as int,
                    tb == tab_bar as int,
                    kids@ == kseq,
                    geometry_only(pre, *tree),
                    pre.has_node(parent_id),
                    pre.node(parent_id).children@ == kseq,
                    flat_exact_pre(pre, parent_id, LayoutMode::Stacking, rect, gg)
                        ==> forall|k: int| 0 <= k < i ==> tree.node(kseq[k]).geometry
                            == mode_cell(LayoutMode::Stacking, rect, nn, gg, tb, k),
                    flat_exact_pre(pre, parent_id, LayoutMode::Stacking, rect, gg)
                        ==> forall|m: NodeId| #[trigger] pre.has_node(m) && !kseq.contains(m)
                            ==> tree.node(m).geometry == pre.node(m).geometry,
                    cells_rel(pre, *tree, kseq, LayoutMode::Stacking, rect, nn, gg, tb, i as int,
                        fuel as nat),
                    forall|m: NodeId| #[trigger] pre.has_node(m)
                        && !in_subtree(pre, parent_id, m, fuel as nat + 1)
                        ==> tree.node(m).geometry == pre.node(m).geometry,
                    forall|m: NodeId| #[trigger] pre.has_node(m)
                        && !under_any(pre, kseq, m, fuel as nat)
                        ==> tree.node(m).geometry == pre.node(m).geometry,
                    separated_children(pre, parent_id, fuel as nat) ==> forall|k: int|
                        0 <= k < i ==> tree.node(#[trigger] kseq[k]).geometry == mode_cell(
                            LayoutMode::Stacking,
                            rect,
                            nn,
                            gg,
                            tb,
                            k,
                        ),
                decreases n - i,
            {
                let child = kids[i];
                let ghost step_pre = *tree;
                tree.set_geometry(child, rect);
                let ghost step_mid = *tree;
                layout_into(tree, child, rect, gap, tab_bar, fuel);
                proof {
                    assert(rect == mode_cell(LayoutMode::Stacking, rect, nn, gg, tb, i as int));
                    assert(geom_step(step_pre, step_mid, child, rect));
                    let ghost j: int = i as int + 1;
                    assert(cells_rel(pre, step_pre, kseq, LayoutMode::Stacking, rect, nn, gg, tb,
                        j - 1, fuel as nat));
                    assert(child_done(
                        step_pre,
                        *tree,
                        kseq[j - 1],
                        mode_cell(LayoutMode::Stacking, rect, nn, gg, tb, j - 1),
                        gg,
                        tb,
                        fuel as nat,
                    ));
                    lemma_cells_rel_step(pre, step_pre, *tree, kseq, LayoutMode::Stacking, rect,
                        nn, gg, tb, j, fuel as nat);
                    assert(geometry_only(pre, step_mid));
                    assert(in_subtree(pre, kseq[i as int], kseq[i as int], fuel as nat));
                    lemma_under_any_member(pre, kseq, i as int, kseq[i as int], fuel as nat);
                    assert(in_subtree(pre, parent_id, kseq[i as int], fuel as nat + 1));
                    assert forall|m: NodeId| #[trigger] pre.has_node(m)
                        && !in_subtree(pre, parent_id, m, fuel as nat + 1)
                        implies tree.node(m).geometry == pre.node(m).geometry by {
                        assert(m != kseq[i as int]);
                        if in_subtree(pre, kseq[i as int], m, fuel as nat) {
                            lemma_under_any_member(pre, kseq, i as int, m, fuel as nat);
                            assert(in_subtree(pre, parent_id, m, fuel as nat + 1));
                        }
                        lemma_in_subtree_stable(pre, step_mid, kseq[i as int], m, fuel as nat);
                        assert(step_mid.node(m).geometry == pre.node(m).geometry);
                    }
                    assert forall|m: NodeId| #[trigger] pre.has_node(m)
                        && !under_any(pre, kseq, m, fuel as nat)
                        implies tree.node(m).geometry == pre.node(m).geometry by {
                        if in_subtree(pre, kseq[i as int], m, fuel as nat) {
                            lemma_under_any_member(pre, kseq, i as int, m, fuel as nat);
                        }
                        lemma_in_subtree_stable(pre, step_mid, kseq[i as int], m, fuel as nat);
                        assert(step_mid.node(m).geometry == pre.node(m).geometry);
                    }
                    if separated_children(pre, parent_id, fuel as nat) {
                        let ci = kseq[i as int];
                        assert(pre.has_node(ci));
                        assert(step_mid.node(ci).geometry == rect);
                        if fuel == 0 {
                            assert(*tree == step_mid);
                        } else {
                            assert(!under_any(pre, pre.node(ci).children@, ci, fuel as nat));
                            assert(!under_any(pre, pre.node(ci).children@, ci,
                                (fuel - 1) as nat)) by {
                                if under_any(pre, pre.node(ci).children@, ci,
                                    (fuel - 1) as nat) {
                                    lemma_under_any_fuel(pre, pre.node(ci).children@, ci,
                                        (fuel - 1) as nat, fuel as nat);
                                }
                            }
                            lemma_under_any_stable(pre, step_mid, pre.node(ci).children@, ci,
                                (fuel - 1) as nat);
                            assert(step_mid.node(ci).children@ == pre.node(ci).children@);
                            assert(tree.node(ci).geometry == step_mid.node(ci).geometry);
                        }
                        assert(tree.node(ci).geometry == mode_cell(LayoutMode::Stacking, rect, nn,
                            gg, tb, i as int));
                        assert forall|k: int| 0 <= k < i as int + 1
                            implies tree.node(#[trigger] kseq[k]).geometry == mode_cell(
                            LayoutMode::Stacking,
                            rect,
                            nn,
                            gg,
                            tb,
                            k,
                        ) by {
                            if k < i as int {
                                assert(kseq[k] != kseq[i as int]);
                                assert(!in_subtree(pre, kseq[i as int], kseq[k],
                                    fuel as nat));
                                lemma_in_subtree_stable(pre, step_mid, kseq[i as int],
                                    kseq[k], fuel as nat);
                                assert(step_mid.node(kseq[k]).geometry == mode_cell(
                                    LayoutMode::Stacking, rect, nn, gg, tb, k));
                            }
                        }
                    }
                    if flat_exact_pre(pre, parent_id, LayoutMode::Stacking, rect, gg) {
                        assert(pre.has_node(kseq[i as int]));
                        assert(pre.node(kseq[i as int]).children@.len() == 0);
                        assert(tree.node(kseq[i as int]).geometry == rect);
                        assert forall|k: int| 0 <= k < i implies kseq[k] != kseq[i as int] by {
                            assert(kseq.no_duplicates());
                        }
                        assert(kseq.contains(kseq[i as int]));
                    }
                }
                i = i + 1;
            }
        }
        LayoutMode::Tabbed => {
            let strip: u32 = if rect.height < tab_bar {
                rect.height
            } else {
                tab_bar
            };
            let y_wide: i64 = rect.y as i64 + strip as i64;
            let content = Rectangle {
                x: rect.x,
                y: y_wide as i32,
                width: rect.width,
                height: rect.height - strip,
            };
            proof {
                assert(content == tabbed_content(rect, tb));
                assert(rect_ok(content));
            }
            let mut i: usize = 0;
            while i < n
                invariant
                    n == kseq.len(),
                    i <= n,
                    rect_ok(rect),
                    rect_ok(content),
                    nn == n as int,
                    gg == gap as int,
                    tb == tab_bar as int,
                    content == tabbed_content(rect, tb),
                    kids@ == kseq,
                    geometry_only(pre, *tree),
                    pre.has_node(parent_id),
                    pre.node(parent_id).children@ == kseq,
                    flat_exact_pre(pre, parent_id, LayoutMode::Tabbed, rect, gg)
                        ==> forall|k: int| 0 <= k < i ==> tree.node(kseq[k]).geometry
                            == mode_cell(LayoutMode::Tabbed, rect, nn, gg, tb, k),
                    flat_exact_pre(pre, parent_id, LayoutMode::Tabbed, rect, gg)
                        ==> forall|m: NodeId| #[trigger] pre.has_node(m) && !kseq.contains(m)
                            ==> tree.node(m).geometry == pre.node(m).geometry,
                    cells_rel(pre, *tree, kseq, LayoutMode::Tabbed, rect, nn, gg, tb, i as int,
                        fuel as nat),
                    forall|m: NodeId| #[trigger] pre.has_node(m)
                        && !in_subtree(pre, parent_id, m, fuel as nat + 1)
                        ==> tree.node(m).geometry == pre.node(m).geometry,
                    forall|m: NodeId| #[trigger] pre.has_node(m)
                        && !under_any(pre, kseq, m, fuel as nat)
                        ==> tree.node(m).geometry == pre.node(m).geometry,
                    separated_children(pre, parent_id, fuel as nat) ==> forall|k: int|
                        0 <= k < i ==> tree.node(#[trigger] kseq[k]).geometry == mode_cell(
                            LayoutMode::Tabbed,
                            rect,
                            nn,
                            gg,
                            tb,
                            k,
                        ),
                decreases n - i,
            {
                let child = kids[i];
                let ghost step_pre = *tree;
                tree.set_geometry(child, content);
                let ghost step_mid = *tree;
                layout_into(tree, child, content, gap, tab_bar, fuel);
                proof {
                    assert(content == mode_cell(LayoutMode::Tabbed, rect, nn, gg, tb, i as int));
                    assert(geom_step(step_pre, step_mid, child, content));
                    let ghost j: int = i as int + 1;
                    assert(cells_rel(pre, step_pre, kseq, LayoutMode::Tabbed, rect, nn, gg, tb,
                        j - 1, fuel as nat));
                    assert(child_done(
                        step_pre,
                        *tree,
                        kseq[j - 1],
                        mode_cell(LayoutMode::Tabbed, rect, nn, gg, tb, j - 1),
                        gg,
                        tb,
                        fuel as nat,
                    ));
                    lemma_cells_rel_step(pre, step_pre, *tree, kseq, LayoutMode::Tabbed, rect,
                        nn, gg, tb, j, fuel as nat);
                    assert(geometry_only(pre, step_mid));
                    assert(in_subtree(pre, kseq[i as int], kseq[i as int], fuel as nat));
                    lemma_under_any_member(pre, kseq, i as int, kseq[i as int], fuel as nat);
                    assert(in_subtree(pre, parent_id, kseq[i as int], fuel as nat + 1));
                    assert forall|m: NodeId| #[trigger] pre.has_node(m)
                        && !in_subtree(pre, parent_id, m, fuel as nat + 1)
                        implies tree.node(m).geometry == pre.node(m).geometry by {
                        assert(m != kseq[i as int]);
                        if in_subtree(pre, kseq[i as int], m, fuel as nat) {
                            lemma_under_any_member(pre, kseq, i as int, m, fuel as nat);
                            assert(in_subtree(pre, parent_id, m, fuel as nat + 1));
                        }
                        lemma_in_subtree_stable(pre, step_mid, kseq[i as int], m, fuel as nat);
                        assert(step_mid.node(m).geometry == pre.node(m).geometry);
                    }
                    assert forall|m: NodeId| #[trigger] pre.has_node(m)
                        && !under_any(pre, kseq, m, fuel as nat)
                        implies tree.node(m).geometry == pre.node(m).geometry by {
                        if in_subtree(pre, kseq[i as int], m, fuel as nat) {
                            lemma_under_any_member(pre, kseq, i as int, m, fuel as nat);
                        }
                        lemma_in_subtree_stable(pre, step_mid, kseq[i as int], m, fuel as nat);
                        assert(step_mid.node(m).geometry == pre.node(m).geometry);
                    }
                    if separated_children(pre, parent_id, fuel as nat) {
                        let ci = kseq[i as int];
                        assert(pre.has_node(ci));
                        assert(step_mid.node(ci).geometry == content);
                        if fuel == 0 {
                            assert(*tree == step_mid);
                        } else {
                            assert(!under_any(pre, pre.node(ci).children@, ci, fuel as nat));
                            assert(!under_any(pre, pre.node(ci).children@, ci,
                                (fuel - 1) as nat)) by {
                                if under_any(pre, pre.node(ci).children@, ci,
                                    (fuel - 1) as nat) {
                                    lemma_under_any_fuel(pre, pre.node(ci).children@, ci,
                                        (fuel - 1) as nat, fuel as nat);
                                }
                            }
                            lemma_under_any_stable(pre, step_mid, pre.node(ci).children@, ci,
                                (fuel - 1) as nat);
                            assert(step_mid.node(ci).children@ == pre.node(ci).children@);
                            assert(tree.node(ci).geometry == step_mid.node(ci).geometry);
                        }
                        assert(tree.node(ci).geometry == mode_cell(LayoutMode::Tabbed, rect, nn,
                            gg, tb, i as int));
                        assert forall|k: int| 0 <= k < i as int + 1
                            implies tree.node(#[trigger] kseq[k]).geometry == mode_cell(
                            LayoutMode::Tabbed,
                            rect,
                            nn,
                            gg,
                            tb,
                            k,
                        ) by {
                            if k < i as int {
                                assert(kseq[k] != kseq[i as int]);
                                assert(!in_subtree(pre, kseq[i as int], kseq[k],
                                    fuel as nat));
                                lemma_in_subtree_stable(pre, step_mid, kseq[i as int],
                                    kseq[k], fuel as nat);
                                assert(step_mid.node(kseq[k]).geometry == mode_cell(
                                    LayoutMode::Tabbed, rect, nn, gg, tb, k));
                            }
                        }
                    }
                    if flat_exact_pre(pre, parent_id, LayoutMode::Tabbed, rect, gg) {
                        assert(pre.has_node(kseq[i as int]));
                        assert(pre.node(kseq[i as int]).children@.len() == 0);
                        assert(tree.node(kseq[i as int]).geometry == content);
                        assert forall|k: int| 0 <= k < i implies kseq[k] != kseq[i as int] by {
                            assert(kseq.no_duplicates());
                        }
                        assert(kseq.contains(kseq[i as int]));
                    }
                }
                i = i + 1;
            }
        }
    }
}

/// Recurse into one child: read the child's own layout mode and lay its
/// children out inside the rectangle it was just given. Spends one unit of
/// fuel; a child out of fuel or gone is left as it is.
fn layout_into(tree: &mut WindowTree, child: NodeId, cell: Rectangle, gap: u32, tab_bar: u32,
    fuel: usize)
    requires
        rect_ok(cell),
    ensures
        geometry_only(*old(tree), *final(tree)),
        !old(tree).has_node(child) ==> *final(tree) == *old(tree),
        old(tree).has_node(child) && old(tree).node(child).children@.len() == 0
            ==> *final(tree) == *old(tree),
        descend_rel(*old(tree), *final(tree), child, cell, gap as int, tab_bar as int,
            fuel as nat),
        forall|m: NodeId| #[trigger] old(tree).has_node(m)
            && !in_subtree(*old(tree), child, m, fuel as nat)
            ==> final(tree).node(m).geometry == old(tree).node(m).geometry,
        old(tree).has_node(child) && fuel >= 1 ==> forall|m: NodeId|
            #[trigger] old(tree).has_node(m) && !under_any(
                *old(tree),
                old(tree).node(child).children@,
                m,
                (fuel - 1) as nat,
            ) ==> final(tree).node(m).geometry == old(tree).node(m).geometry,
    decreases fuel, 0nat,
{
    if fuel == 0 {
        return;
    }
    let child_mode = match tree.get(child) {
        Some(c) => c.layout,
        None => {
            return;
        }
    };
    layout_children(tree, child, cell, child_mode, gap, tab_bar, fuel - 1);
}

impl WindowTree {
    /// Lay out a workspace: give the workspace the screen rectangle, then
    /// recursively assign rectangles through its subtree, each container
    /// partitioning its cell among its children by its own layout mode, with
    /// the tree's standard gap and tab strip. Only geometries change; for a
    /// workspace of distinct window children the resulting rectangles are
    /// pinned cell by cell.
    pub fn calculate_layout(&mut self, workspace_id: NodeId, screen_geometry: Rectangle)
        requires
            rect_ok(screen_geometry),
        ensures
            geometry_only(*old(self), *final(self)),
            !old(self).has_node(workspace_id) ==> *final(self) == *old(self),
            ({
                let t = *old(self);
                t.has_node(workspace_id) && flat_exact_pre(
                    t,
                    workspace_id,
                    t.node(workspace_id).layout,
                    screen_geometry,
                    TREE_GAP_WIDTH as int,
                )
            }) ==> ({
                let t = *old(self);
                let kids = t.node(workspace_id).children@;
                &&& final(self).node(workspace_id).geometry == screen_geometry
                &&& forall|k: int| 0 <= k < kids.len()
                        ==> final(self).node(kids[k]).geometry == mode_cell(
                            t.node(workspace_id).layout,
                            screen_geometry,
                            kids.len() as int,
                            TREE_GAP_WIDTH as int,
                            TAB_BAR_HEIGHT as int,
                            k,
                        )
            }),
            old(self).has_node(workspace_id) ==> exists|mid: WindowTree|
                #[trigger] chain_state(mid) == mid
                && geom_step(*old(self), mid, workspace_id, screen_geometry)
                && engine_rel(
                    mid,
                    *final(self),
                    workspace_id,
                    screen_geometry,
                    old(self).node(workspace_id).layout,
                    TREE_GAP_WIDTH as int,
                    TAB_BAR_HEIGHT as int,
                    old(self).node_budget(),
                ),
            forall|m: NodeId| #[trigger] old(self).has_node(m)
                && !in_subtree(*old(self), workspace_id, m, old(self).node_budget() + 1)
                ==> final(self).node(m).geometry == old(self).node(m).geometry,
            separated_children(*old(self), workspace_id, old(self).node_budget())
                && old(self).node(workspace_id).children@.len() >= 1
                && (old(self).node(workspace_id).layout is SplitH
                ==> (old(self).node(workspace_id).children@.len() - 1) * TREE_GAP_WIDTH
                    < screen_geometry.width)
                && (old(self).node(workspace_id).layout is SplitV
                ==> (old(self).node(workspace_id).children@.len() - 1) * TREE_GAP_WIDTH
                    < screen_geometry.height) ==> ({
                let kids = old(self).node(workspace_id).children@;
                &&& final(self).node(workspace_id).geometry == screen_geometry
                &&& forall|k: int| 0 <= k < kids.len()
                        ==> final(self).node(#[trigger] kids[k]).geometry == mode_cell(
                            old(self).node(workspace_id).layout,
                            screen_geometry,
                            kids.len() as int,
                            TREE_GAP_WIDTH as int,
                            TAB_BAR_HEIGHT as int,
                            k,
                        )
            }),
    {
        let mode = match self.get(workspace_id) {
            Some(c) => c.layout,
            None => {
                return;
            }
        };
        self.set_geometry(workspace_id, screen_geometry);
        let ghost mid = *self;
        let fuel = self.search_budget();
        layout_children(
            self,
            workspace_id,
            screen_geometry,
            mode,
            TREE_GAP_WIDTH,
            TAB_BAR_HEIGHT,
            fuel,
        );
        proof {
            assert(chain_state(mid) == mid);
            if separated_children(*old(self), workspace_id, old(self).node_budget()) {
                assert(geometry_only(*old(self), mid));
                lemma_separated_stable(*old(self), mid, workspace_id, old(self).node_budget());
                assert(mid.node(workspace_id).children@
                    == old(self).node(workspace_id).children@);
                // the workspace is not below its own children, so the engine
                // leaves the screen rectangle it was just given in place
                lemma_under_any_stable(*old(self), mid,
                    old(self).node(workspace_id).children@, workspace_id,
                    old(self).node_budget());
                assert(mid.node(workspace_id).geometry == screen_geometry);
            }
            assert forall|m: NodeId| #[trigger] old(self).has_node(m)
                && !in_subtree(*old(self), workspace_id, m, old(self).node_budget() + 1)
                implies self.node(m).geometry == old(self).node(m).geometry by {
                // the workspace itself lies in its own subtree, so the
                // initial geometry write spares m, and stability carries the
                // subtree condition to the engine's starting state
                assert(m != workspace_id);
                assert(geometry_only(*old(self), mid));
                lemma_in_subtree_stable(*old(self), mid, workspace_id, m,
                    old(self).node_budget() + 1);
                assert(mid.node(m).geometry == old(self).node(m).geometry);
            }
            let t = *old(self);
            if t.has_node(workspace_id) && flat_exact_pre(
                t,
                workspace_id,
                t.node(workspace_id).layout,
                screen_geometry,
                TREE_GAP_WIDTH as int,
            ) {
                let kids = t.node(workspace_id).children@;
                // the workspace has children, its children have none, so the
                // workspace is not among them and keeps the screen rectangle
                assert(mid.node(workspace_id).children@ == kids);
                assert forall|k: int| 0 <= k < kids.len() implies kids[k] != workspace_id by {
                    assert(t.has_node(kids[k]));
                    assert(t.node(kids[k]).children@.len() == 0);
                }
                assert(flat_exact_pre(mid, workspace_id, mode, screen_geometry,
                    TREE_GAP_WIDTH as int));
                assert(!kids.contains(workspace_id));
                assert(self.node(workspace_id).geometry == screen_geometry);
            }
        }
    }
}

/// Split layout entry points, carrying the gap placed between children and
/// the width drawn around them.
pub struct SplitLayout {
    /// Gap between windows, in pixels.
    pub gap_width: i32,
    /// Border width for windows, in pixels.
    pub border_width: u32,
}

impl SplitLayout {
    /// The standard split configuration.
    pub fn new() -> (s: Self)
        ensures
            s.gap_width == 4,
            s.border_width == 2,
    {
        SplitLayout { gap_width: 4, border_width: 2 }
    }

    /// Divide the rectangle's width among the container's children, gaps
    /// between them and the rounding remainder on the last child, then lay
    /// each child out by its own mode. When the gaps leave no room the pass
    /// changes nothing.
    pub fn layout_horizontal(&self, tree: &mut WindowTree, parent_id: NodeId, geometry: Rectangle)
        requires
            rect_ok(geometry),
            self.gap_width >= 0,
        ensures
            geometry_only(*old(tree), *final(tree)),
            !old(tree).has_node(parent_id) ==> *final(tree) == *old(tree),
            old(tree).has_node(parent_id) && old(tree).node(parent_id).children@.len() == 0
                ==> *final(tree) == *old(tree),
            old(tree).has_node(parent_id) && old(tree).node(parent_id).children@.len() >= 1
                && (old(tree).node(parent_id).children@.len() - 1) * self.gap_width
                    >= geometry.width ==> *final(tree) == *old(tree),
            flat_exact_pre(*old(tree), parent_id, LayoutMode::SplitH, geometry,
                self.gap_width as int) ==> ({
                let kids = old(tree).node(parent_id).children@;
                forall|k: int| 0 <= k < kids.len()
                    ==> final(tree).node(kids[k]).geometry == mode_cell(
                        LayoutMode::SplitH,
                        geometry,
                        kids.len() as int,
                        self.gap_width as int,
                        TAB_BAR_HEIGHT as int,
                        k,
                    )
            }),
            engine_rel(*old(tree), *final(tree), parent_id, geometry, LayoutMode::SplitH,
                self.gap_width as int, TAB_BAR_HEIGHT as int, old(tree).node_budget()),
            forall|m: NodeId| #[trigger] old(tree).has_node(m)
                && !in_subtree(*old(tree), parent_id, m, old(tree).node_budget() + 1)
                ==> final(tree).node(m).geometry == old(tree).node(m).geometry,
            separated_children(*old(tree), parent_id, old(tree).node_budget())
                && old(tree).node(parent_id).children@.len() >= 1
                && (old(tree).node(parent_id).children@.len() - 1) * self.gap_width < geometry.width ==> forall|k: int|
                0 <= k < old(tree).node(parent_id).children@.len()
                ==> final(tree).node(
                    #[trigger] old(tree).node(parent_id).children@[k],
                ).geometry == mode_cell(
                    LayoutMode::SplitH,
                    geometry,
                    old(tree).node(parent_id).children@.len() as int,
                    self.gap_width as int,
                    TAB_BAR_HEIGHT as int,
                    k,
                ),
    {
        let fuel = tree.search_budget();
        layout_children(
            tree,
            parent_id,
            geometry,
            LayoutMode::SplitH,
            self.gap_width as u32,
            TAB_BAR_HEIGHT,
            fuel,
        );
    }

    /// Divide the rectangle's height among the container's children, the
    /// vertical counterpart of `layout_horizontal`.
    pub fn layout_vertical(&self, tree: &mut WindowTree, parent_id: NodeId, geometry: Rectangle)
        requires
            rect_ok(geometry),
            self.gap_width >= 0,
        ensures
            geometry_only(*old(tree), *final(tree)),
            !old(tree).has_node(parent_id) ==> *final(tree) == *old(tree),
            old(tree).has_node(parent_id) && old(tree).node(parent_id).children@.len() == 0
                ==> *final(tree) == *old(tree),
            old(tree).has_node(parent_id) && old(tree).node(parent_id).children@.len() >= 1
                && (old(tree).node(parent_id).children@.len() - 1) * self.gap_width
                    >= geometry.height ==> *final(tree) == *old(tree),
            flat_exact_pre(*old(tree), parent_id, LayoutMode::SplitV, geometry,
                self.gap_width as int) ==> ({
                let kids = old(tree).node(parent_id).children@;
                forall|k: int| 0 <= k < kids.len()
                    ==> final(tree).node(kids[k]).geometry == mode_cell(
                        LayoutMode::SplitV,
                        geometry,
                        kids.len() as int,
                        self.gap_width as int,
                        TAB_BAR_HEIGHT as int,
                        k,
                    )
            }),
            engine_rel(*old(tree), *final(tree), parent_id, geometry, LayoutMode::SplitV,
                self.gap_width as int, TAB_BAR_HEIGHT as int, old(tree).node_budget()),
            forall|m: NodeId| #[trigger] old(tree).has_node(m)
                && !in_subtree(*old(tree), parent_id, m, old(tree).node_budget() + 1)
                ==> final(tree).node(m).geometry == old(tree).node(m).geometry,
            separated_children(*old(tree), parent_id, old(tree).node_budget())
                && old(tree).node(parent_id).children@.len() >= 1
                && (old(tree).node(parent_id).children@.len() - 1) * self.gap_width < geometry.height ==> forall|k: int|
                0 <= k < old(tree).node(parent_id).children@.len()
                ==> final(tree).node(
                    #[trigger] old(tree).node(parent_id).children@[k],
                ).geometry == mode_cell(
                    LayoutMode::SplitV,
                    geometry,
                    old(tree).node(parent_id).children@.len() as int,
                    self.gap_width as int,
                    TAB_BAR_HEIGHT as int,
                    k,
                ),
    {
        let fuel = tree.search_budget();
        layout_children(
            tree,
            parent_id,
            geometry,
            LayoutMode::SplitV,
            self.gap_width as u32,
            TAB_BAR_HEIGHT,
            fuel,
        );
    }
}

impl Default for SplitLayout {
    /// The standard split configuration.
    fn default() -> (s: Self)
        ensures
            s.gap_width == 4,
            s.border_width == 2,
    {
        SplitLayout::new()
    }
}

/// Stacking layout entry point: every child receives the whole rectangle,
/// overlap resolved by rendering order rather than geometry.
pub struct StackingLayout {
    /// Height of each window's title bar, in pixels.
    pub title_bar_height: u32,
    /// Gap between windows, used by split containers further down.
    pub gap_width: i32,
}

impl StackingLayout {
    /// The standard stacking configuration.
    pub fn new() -> (s: Self)
        ensures
            s.title_bar_height == 30,
            s.gap_width == 4,
    {
        StackingLayout { title_bar_height: 30, gap_width: 4 }
    }

    /// Give every child of the container the whole rectangle, then lay each
    /// child out by its own mode.
    pub fn layout_stacking(&self, tree: &mut WindowTree, parent_id: NodeId, geometry: Rectangle)
        requires
            rect_ok(geometry),
            self.gap_width >= 0,
        ensures
            geometry_only(*old(tree), *final(tree)),
            !old(tree).has_node(parent_id) ==> *final(tree) == *old(tree),
            old(tree).has_node(parent_id) && old(tree).node(parent_id).children@.len() == 0
                ==> *final(tree) == *old(tree),
            flat_exact_pre(*old(tree), parent_id, LayoutMode::Stacking, geometry,
                self.gap_width as int) ==> ({
                let kids = old(tree).node(parent_id).children@;
                forall|k: int| 0 <= k < kids.len()
                    ==> final(tree).node(kids[k]).geometry == geometry
            }),
            engine_rel(*old(tree), *final(tree), parent_id, geometry, LayoutMode::Stacking,
                self.gap_width as int, TAB_BAR_HEIGHT as int, old(tree).node_budget()),
            forall|m: NodeId| #[trigger] old(tree).has_node(m)
                && !in_subtree(*old(tree), parent_id, m, old(tree).node_budget() + 1)
                ==> final(tree).node(m).geometry == old(tree).node(m).geometry,
            separated_children(*old(tree), parent_id, old(tree).node_budget())
                && old(tree).node(parent_id).children@.len() >= 1 ==> forall|k: int|
                0 <= k < old(tree).node(parent_id).children@.len()
                ==> final(tree).node(
                    #[trigger] old(tree).node(parent_id).children@[k],
                ).geometry == mode_cell(
                    LayoutMode::Stacking,
                    geometry,
                    old(tree).node(parent_id).children@.len() as int,
                    self.gap_width as int,
                    TAB_BAR_HEIGHT as int,
                    k,
                ),
    {
        let fuel = tree.search_budget();
        layout_children(
            tree,
            parent_id,
            geometry,
            LayoutMode::Stacking,
            self.gap_width as u32,
            TAB_BAR_HEIGHT,
            fuel,
        );
        proof {
            if flat_exact_pre(*old(tree), parent_id, LayoutMode::Stacking, geometry,
                self.gap_width as int) {
                let kids = old(tree).node(parent_id).children@;
                assert forall|k: int| 0 <= k < kids.len()
                    implies tree.node(kids[k]).geometry == geometry by {
                    assert(tree.node(kids[k]).geometry == mode_cell(
                        LayoutMode::Stacking,
                        geometry,
                        kids.len() as int,
                        self.gap_width as int,
                        TAB_BAR_HEIGHT as int,
                        k,
                    ));
                }
            }
        }
    }
}

impl Default for StackingLayout {
    /// The standard stacking configuration.
    fn default() -> (s: Self)
        ensures
            s.title_bar_height == 30,
            s.gap_width == 4,
    {
        StackingLayout::new()
    }
}

/// Tabbed layout entry point: a strip at the top is reserved for the tab
/// bar and every child receives the rectangle below it.
pub struct TabbedLayout {
    /// Height of the tab bar, in pixels.
    pub tab_bar_height: u32,
    /// Width of each tab, in pixels.
    pub tab_width: u32,
    /// Gap between tabs, in pixels.
    pub tab_gap: i32,
}

impl TabbedLayout {
    /// The standard tabbed configuration.
    pub fn new() -> (t: Self)
        ensures
            t.tab_bar_height == 30,
            t.tab_width == 150,
            t.tab_gap == 2,
    {
        TabbedLayout { tab_bar_height: 30, tab_width: 150, tab_gap: 2 }
    }

    /// Reserve the tab strip at the rectangle's top and give every child of
    /// the container the rectangle below it, then lay each child out by its
    /// own mode.
    pub fn layout_tabbed(&self, tree: &mut WindowTree, parent_id: NodeId, geometry: Rectangle)
        requires
            rect_ok(geometry),
        ensures
            geometry_only(*old(tree), *final(tree)),
            !old(tree).has_node(parent_id) ==> *final(tree) == *old(tree),
            old(tree).has_node(parent_id) && old(tree).node(parent_id).children@.len() == 0
                ==> *final(tree) == *old(tree),
            flat_exact_pre(*old(tree), parent_id, LayoutMode::Tabbed, geometry,
                TREE_GAP_WIDTH as int) ==> ({
                let kids = old(tree).node(parent_id).children@;
                forall|k: int| 0 <= k < kids.len()
                    ==> final(tree).node(kids[k]).geometry == tabbed_content(
                        geometry,
                        self.tab_bar_height as int,
                    )
            }),
            engine_rel(*old(tree), *final(tree), parent_id, geometry, LayoutMode::Tabbed,
                TREE_GAP_WIDTH as int, self.tab_bar_height as int, old(tree).node_budget()),
            forall|m: NodeId| #[trigger] old(tree).has_node(m)
                && !in_subtree(*old(tree), parent_id, m, old(tree).node_budget() + 1)
                ==> final(tree).node(m).geometry == old(tree).node(m).geometry,
            separated_children(*old(tree), parent_id, old(tree).node_budget())
                && old(tree).node(parent_id).children@.len() >= 1 ==> forall|k: int|
                0 <= k < old(tree).node(parent_id).children@.len()
                ==> final(tree).node(
                    #[trigger] old(tree).node(parent_id).children@[k],
                ).geometry == mode_cell(
                    LayoutMode::Tabbed,
                    geometry,
                    old(tree).node(parent_id).children@.len() as int,
                    TREE_GAP_WIDTH as int,
                    self.tab_bar_height as int,
                    k,
                ),
    {
        let fuel = tree.search_budget();
        layout_children(
            tree,
            parent_id,
            geometry,
            LayoutMode::Tabbed,
            TREE_GAP_WIDTH,
            self.tab_bar_height,
            fuel,
        );
        proof {
            if flat_exact_pre(*old(tree), parent_id, LayoutMode::Tabbed, geometry,
                TREE_GAP_WIDTH as int) {
                let kids = old(tree).node(parent_id).children@;
                assert forall|k: int| 0 <= k < kids.len()
                    implies tree.node(kids[k]).geometry == tabbed_content(
                        geometry,
                        self.tab_bar_height as int,
                    ) by {
                    assert(tree.node(kids[k]).geometry == mode_cell(
                        LayoutMode::Tabbed,
                        geometry,
                        kids.len() as int,
                        TREE_GAP_WIDTH as int,
                        self.tab_bar_height as int,
                        k,
                    ));
                }
            }
        }
    }
}

impl Default for TabbedLayout {
    /// The standard tabbed configuration.
    fn default() -> (t: Self)
        ensures
            t.tab_bar_height == 30,
            t.tab_width == 150,
            t.tab_gap == 2,
    {
        TabbedLayout::new()
    }
}

} // verus!
