//! Directional focus movement and tree restructuring: window insertion and
//! removal, navigation across siblings and ancestors, split creation, and
//! layout-mode changes.

use vstd::prelude::*;
use crate::container::{Container, ContainerType, LayoutMode, NodeId, Orientation, Rectangle,
    WindowHandle};
use crate::tree::WindowTree;

verus! {

/// Direction of a focus movement.
#[derive(Debug, Clone, Copy, PartialEq, Eq, Structural)]
pub enum Direction {
    Left,
    Right,
    Up,
    Down,
}

impl Direction {
    /// The axis this direction moves along.
    pub open spec fn spec_orientation(&self) -> Orientation {
        match self {
            Direction::Left | Direction::Right => Orientation::Horizontal,
            Direction::Up | Direction::Down => Orientation::Vertical,
        }
    }

    /// The axis this direction moves along.
    #[verifier::when_used_as_spec(spec_orientation)]
    pub fn orientation(&self) -> (o: Orientation)
        ensures
            o == self.spec_orientation(),
    {
        match self {
            Direction::Left | Direction::Right => Orientation::Horizontal,
            Direction::Up | Direction::Down => Orientation::Vertical,
        }
    }

    /// Whether the direction walks toward lower indices (left or up).
    pub open spec fn spec_is_negative(&self) -> bool {
        self is Left || self is Up
    }

    /// Whether the direction walks toward lower indices (left or up).
    #[verifier::when_used_as_spec(spec_is_negative)]
    pub fn is_negative(&self) -> (neg: bool)
        ensures
            neg == self.spec_is_negative(),
    {
        matches!(self, Direction::Left | Direction::Up)
    }
}

/// Index of the first occurrence of an identifier in a sequence.
pub open spec fn first_position(s: Seq<NodeId>, x: NodeId) -> Option<int>
    decreases s.len(),
{
    if s.len() == 0 {
        None
    } else if s.first() == x {
        Some(0int)
    } else {
        match first_position(s.drop_first(), x) {
            Some(i) => Some(i + 1),
            None => None,
        }
    }
}

/// `first_position` finds exactly the first index whose element matches.
proof fn lemma_first_position(s: Seq<NodeId>, x: NodeId, i: int)
    requires
        0 <= i <= s.len(),
        forall|j: int| 0 <= j < i ==> s[j] != x,
        i < s.len() ==> s[i] == x,
    ensures
        first_position(s, x) == if i < s.len() { Some(i) } else { None::<int> },
    decreases i + 1, s.len(),
{
    if s.len() == 0 {
    } else if i == 0 {
        if s.first() != x {
            assert(s[0] != x);
            lemma_first_position(s.drop_first(), x, 0);
        }
    } else {
        assert(s.first() != x);
        assert forall|j: int| 0 <= j < i - 1 implies s.drop_first()[j] != x by {
            assert(s.drop_first()[j] == s[j + 1]);
        }
        assert(i - 1 < s.drop_first().len() ==> s.drop_first()[i - 1] == x);
        lemma_first_position(s.drop_first(), x, i - 1);
    }
}

/// Index of the first occurrence, or nothing if the identifier is absent.
fn position_of(list: &Vec<NodeId>, x: NodeId) -> (found: Option<usize>)
    ensures
        match found {
            Some(i) => first_position(list@, x) == Some(i as int) && i < list@.len(),
            None => first_position(list@, x) is None,
        },
{
    let mut i: usize = 0;
    while i < list.len()
        invariant
            i <= list@.len(),
            forall|j: int| 0 <= j < i ==> list@[j] != x,
        decreases list@.len() - i,
    {
        if list[i] == x {
            proof {
                lemma_first_position(list@, x, i as int);
            }
            return Some(i);
        }
        i = i + 1;
    }
    proof {
        lemma_first_position(list@, x, list@.len() as int);
    }
    None
}

/// The sibling adjacent to `current` in list order: the one before it for a
/// negative direction, the one after it otherwise; nothing at the ends or
/// when `current` is not listed.
pub open spec fn sibling_in(children: Seq<NodeId>, current: NodeId, dir: Direction) -> Option<
    NodeId,
> {
    match first_position(children, current) {
        Some(i) => if dir.spec_is_negative() {
            if i >= 1 {
                Some(children[i - 1])
            } else {
                None
            }
        } else {
            if i + 1 < children.len() {
                Some(children[i + 1])
            } else {
                None
            }
        },
        None => None,
    }
}

impl WindowTree {
    /// Upward search for a move target: starting at `n`, find the first
    /// ancestor level whose parent splits along the direction's axis and has
    /// a sibling adjacent to the climbing node, and answer that sibling.
    /// `fuel` bounds the climb; any path of distinct nodes is shorter than
    /// the tree's node budget.
    pub open spec fn nav_up(&self, n: NodeId, dir: Direction, fuel: nat) -> Option<NodeId>
        decreases fuel,
    {
        if !self.has_node(n) {
            None
        } else {
            match self.node(n).parent {
                None => None,
                Some(pid) => if !self.has_node(pid) {
                    None
                } else {
                    let p = self.node(pid);
                    let candidate = if p.layout.spec_orientation() == Some(dir.spec_orientation()) {
                        sibling_in(p.children@, n, dir)
                    } else {
                        None
                    };
                    match candidate {
                        Some(s) => Some(s),
                        None => if fuel == 0 {
                            None
                        } else {
                            self.nav_up(pid, dir, (fuel - 1) as nat)
                        },
                    }
                },
            }
        }
    }

    /// Where `navigate_focus` moves, before descending into containers: the
    /// adjacent sibling when the focused node's own parent splits along the
    /// direction's axis (none at the ends — focus stays), else the answer of
    /// the upward search from the parent.
    pub open spec fn navigate_candidate(&self, dir: Direction) -> Option<NodeId> {
        match self.spec_focused() {
            None => None,
            Some(current) => if !self.has_node(current) {
                None
            } else {
                match self.node(current).parent {
                    None => None,
                    Some(pid) => if !self.has_node(pid) {
                        None
                    } else {
                        let p = self.node(pid);
                        if p.layout.spec_orientation() == Some(dir.spec_orientation()) {
                            sibling_in(p.children@, current, dir)
                        } else {
                            self.nav_up(pid, dir, self.node_budget())
                        }
                    },
                }
            },
        }
    }

    /// First focusable leaf under a node: the node itself when it is a
    /// window, else the first leaf under its first child. `fuel` bounds the
    /// descent.
    pub open spec fn first_leaf(&self, n: NodeId, fuel: nat) -> Option<NodeId>
        decreases fuel,
    {
        if !self.has_node(n) {
            None
        } else if self.node(n).container_type == ContainerType::Window {
            Some(n)
        } else if self.node(n).children@.len() == 0 {
            None
        } else if fuel == 0 {
            None
        } else {
            self.first_leaf(self.node(n).children@[0], (fuel - 1) as nat)
        }
    }

    /// The node `navigate_focus` focuses: the candidate sibling, descended
    /// to its first window leaf when it is a container.
    pub open spec fn navigate_destination(&self, dir: Direction) -> Option<NodeId> {
        match self.navigate_candidate(dir) {
            None => None,
            Some(t) => match self.first_leaf(t, self.node_budget()) {
                Some(leaf) => Some(leaf),
                None => Some(t),
            },
        }
    }

    /// The workspace a node lives under: the nearest ancestor (the node
    /// itself included) of workspace kind.
    pub open spec fn workspace_of(&self, n: NodeId, fuel: nat) -> Option<NodeId>
        decreases fuel,
    {
        if !self.has_node(n) {
            None
        } else if self.node(n).container_type == ContainerType::Workspace {
            Some(n)
        } else {
            match self.node(n).parent {
                None => None,
                Some(pid) => if fuel == 0 {
                    None
                } else {
                    self.workspace_of(pid, (fuel - 1) as nat)
                },
            }
        }
    }

    /// Exec form of the upward search; equal to `nav_up` at the tree's node
    /// budget.
    fn climb(&self, start: NodeId, dir: Direction) -> (found: Option<NodeId>)
        ensures
            found == self.nav_up(start, dir, self.node_budget()),
    {
        let mut n = start;
        let mut fuel = self.search_budget();
        loop
            invariant
                self.nav_up(start, dir, self.node_budget()) == self.nav_up(
                    n,
                    dir,
                    fuel as nat,
                ),
            decreases fuel,
        {
            let node = match self.get(n) {
                Some(c) => c,
                None => {
                    return None;
                }
            };
            let pid = match node.parent {
                Some(pid) => pid,
                None => {
                    return None;
                }
            };
            let p = match self.get(pid) {
                Some(p) => p,
                None => {
                    return None;
                }
            };
            let mut candidate: Option<NodeId> = None;
            match p.layout.orientation() {
                Some(axis) => {
                    if axis == dir.orientation() {
                        candidate = sibling_of(&p.children, n, dir);
                    }
                }
                None => {}
            }
            match candidate {
                Some(s) => {
                    return Some(s);
                }
                None => {
                    if fuel == 0 {
                        return None;
                    }
                    fuel = fuel - 1;
                    n = pid;
                }
            }
        }
    }

    /// First focusable leaf under a node, in depth-first, first-child order;
    /// nothing for a childless container or a stale identifier.
    pub fn first_focusable_descendant(&self, node_id: NodeId) -> (leaf: Option<NodeId>)
        ensures
            leaf == self.first_leaf(node_id, self.node_budget()),
    {
        let mut n = node_id;
        let mut fuel = self.search_budget();
        loop
            invariant
                self.first_leaf(node_id, self.node_budget()) == self.first_leaf(n, fuel as nat),
            decreases fuel,
        {
            let node = match self.get(n) {
                Some(c) => c,
                None => {
                    return None;
                }
            };
            if matches!(node.container_type, ContainerType::Window) {
                return Some(n);
            }
            if node.children.len() == 0 {
                return None;
            }
            if fuel == 0 {
                return None;
            }
            fuel = fuel - 1;
            n = node.children[0];
        }
    }

    /// The workspace containing a node: the nearest ancestor of workspace
    /// kind, the node itself included.
    pub fn find_workspace(&self, node_id: NodeId) -> (ws: Option<NodeId>)
        ensures
            ws == self.workspace_of(node_id, self.node_budget()),
    {
        let mut n = node_id;
        let mut fuel = self.search_budget();
        loop
            invariant
                self.workspace_of(node_id, self.node_budget()) == self.workspace_of(
                    n,
                    fuel as nat,
                ),
            decreases fuel,
        {
            let node = match self.get(n) {
                Some(c) => c,
                None => {
                    return None;
                }
            };
            if matches!(node.container_type, ContainerType::Workspace) {
                return Some(n);
            }
            let pid = match node.parent {
                Some(pid) => pid,
                None => {
                    return None;
                }
            };
            if fuel == 0 {
                return None;
            }
            fuel = fuel - 1;
            n = pid;
        }
    }

    /// Move focus one step in a direction. When the focused node's parent
    /// splits along that axis, focus moves to the adjacent sibling and fails
    /// (focus unchanged) at the first or last position; otherwise the search
    /// climbs until an ancestor offers such a sibling. A container
    /// destination resolves to its first window leaf. Returns the newly
    /// focused node, or nothing when focus did not move.
    pub fn navigate_focus(&mut self, direction: Direction) -> (moved: Option<NodeId>)
        ensures
            moved == old(self).navigate_destination(direction),
            moved is None ==> *final(self) == *old(self),
            moved matches Some(f) ==> {
                &&& final(self).spec_focused() == Some(f)
                &&& final(self).spec_root() == old(self).spec_root()
                &&& forall|n: NodeId| final(self).has_node(n) == old(self).has_node(n)
                &&& forall|n: NodeId| #[trigger] old(self).has_node(n)
                        ==> final(self).node(n) == (Container {
                        focused: Self::focus_flag_after(*old(self), Some(f), n),
                        ..old(self).node(n)
                    })
            },
    {
        let current = match self.focused() {
            Some(c) => c,
            None => {
                return None;
            }
        };
        let node = match self.get(current) {
            Some(c) => c,
            None => {
                return None;
            }
        };
        let pid = match node.parent {
            Some(pid) => pid,
            None => {
                return None;
            }
        };
        let parent = match self.get(pid) {
            Some(p) => p,
            None => {
                return None;
            }
        };
        let mut candidate: Option<NodeId> = None;
        let mut matched = false;
        match parent.layout.orientation() {
            Some(axis) => {
                if axis == direction.orientation() {
                    matched = true;
                    candidate = sibling_of(&parent.children, current, direction);
                }
            }
            None => {}
        }
        if !matched {
            candidate = self.climb(pid, direction);
        }
        let target = match candidate {
            Some(t) => t,
            None => {
                return None;
            }
        };
        let focus_target = match self.first_focusable_descendant(target) {
            Some(leaf) => leaf,
            None => target,
        };
        self.set_focused(Some(focus_target));
        Some(focus_target)
    }
}

impl WindowTree {
    /// Change how the focused node's parent lays out its children. The
    /// focused node itself keeps its own mode; the command reshapes the
    /// container around it. Fails, changing nothing, when there is no live
    /// focused node, it has no parent, the parent is gone, or the parent
    /// cannot own children.
    pub fn change_layout(&mut self, layout: LayoutMode) -> (r: Result<(), String>)
        ensures
            r is Ok <==> (old(self).spec_focused() matches Some(f) && (old(self).has_node(f)
                && (old(self).node(f).parent matches Some(p) && (old(self).has_node(p)
                && old(self).node(p).can_have_children())))),
            r is Err ==> *final(self) == *old(self),
            r is Ok ==> ({
                let f = old(self).spec_focused()->0;
                let p = old(self).node(f).parent->0;
                &&& final(self).node(p) == (Container { layout, ..old(self).node(p) })
                &&& Self::one_node_frame(*old(self), *final(self), p)
            }),
    {
        let focused_id = match self.focused() {
            Some(f) => f,
            None => {
                return Err("No focused container".to_owned());
            }
        };
        let parent_id = match self.parent(focused_id) {
            Some(p) => p,
            None => {
                return Err("Focused container has no parent".to_owned());
            }
        };
        match self.get(parent_id) {
            Some(p) => {
                if !p.can_have_children() {
                    return Err("Parent cannot have children".to_owned());
                }
            }
            None => {
                return Err("Parent not found".to_owned());
            }
        }
        self.set_layout(parent_id, layout);
        Ok(())
    }
}

/// The sequence with its first occurrence of `x` replaced by `y`, or `y`
/// appended when `x` is absent.
pub open spec fn replace_first(s: Seq<NodeId>, x: NodeId, y: NodeId) -> Seq<NodeId> {
    match first_position(s, x) {
        Some(i) => s.update(i, y),
        None => s.push(y),
    }
}

/// Exec form of `replace_first`.
fn replace_first_exec(list: &Vec<NodeId>, x: NodeId, y: NodeId) -> (out: Vec<NodeId>)
    ensures
        out@ == replace_first(list@, x, y),
{
    let mut out = copy_id_list(list);
    match position_of(list, x) {
        Some(i) => {
            out.set(i, y);
        }
        None => {
            out.push(y);
        }
    }
    out
}

/// Copy of an identifier list.
fn copy_id_list(ids: &Vec<NodeId>) -> (out: Vec<NodeId>)
    ensures
        out@ == ids@,
{
    let mut out: Vec<NodeId> = Vec::new();
    let mut i: usize = 0;
    while i < ids.len()
        invariant
            i <= ids@.len(),
            out@ == ids@.subrange(0, i as int),
        decreases ids@.len() - i,
    {
        out.push(ids[i]);
        i = i + 1;
    }
    assert(out@ =~= ids@);
    out
}

impl WindowTree {
    /// Wrap the focused node in a fresh split container of the given
    /// orientation: the split takes the focused node's place in its parent's
    /// child list and adopts the focused node as its sole child. Focus stays
    /// on the same node. Fails, changing nothing, when there is no live
    /// focused node, it has no parent, or the parent is gone or cannot own
    /// children.
    pub fn split_focused(&mut self, orientation: Orientation) -> (r: Result<NodeId, String>)
        ensures
            r is Ok <==> (old(self).spec_focused() matches Some(f) && (old(self).has_node(f)
                && (old(self).node(f).parent matches Some(p) && (old(self).has_node(p)
                && old(self).node(p).can_have_children())))),
            r is Err ==> *final(self) == *old(self),
            r matches Ok(split_id) ==> ({
                let f = old(self).spec_focused()->0;
                let p = old(self).node(f).parent->0;
                &&& !old(self).has_node(split_id)
                &&& final(self).has_node(split_id)
                &&& final(self).spec_root() == old(self).spec_root()
                &&& final(self).spec_focused() == old(self).spec_focused()
                &&& forall|n: NodeId| #[trigger] old(self).has_node(n) ==> final(self).has_node(n)
                &&& forall|n: NodeId| !old(self).has_node(n) && n != split_id
                        ==> !(#[trigger] final(self).has_node(n))
                &&& forall|n: NodeId| #[trigger] old(self).has_node(n) && n != p && n != f
                        ==> final(self).node(n) == old(self).node(n)
                &&& final(self).node(split_id).container_type == ContainerType::Split
                &&& final(self).node(split_id).layout == (if orientation is Horizontal {
                        LayoutMode::SplitH
                    } else {
                        LayoutMode::SplitV
                    })
                &&& final(self).node(split_id).parent == Some(p)
                &&& final(self).node(split_id).children@ == seq![f]
                &&& final(self).node(split_id).focused == false
                &&& final(self).node(split_id).window is None
                &&& final(self).node(p).children@
                        == replace_first(old(self).node(p).children@, f, split_id)
                &&& final(self).node(f).parent == Some(split_id)
                &&& p != f ==> final(self).node(p) == (Container {
                        children: final(self).node(p).children,
                        ..old(self).node(p)
                    })
                &&& p != f ==> final(self).node(f) == (Container {
                        parent: Some(split_id),
                        ..old(self).node(f)
                    })
                &&& p == f ==> final(self).node(f) == (Container {
                        children: final(self).node(f).children,
                        parent: Some(split_id),
                        ..old(self).node(f)
                    })
            }),
    {
        let focused_id = match self.focused() {
            Some(f) => f,
            None => {
                return Err("No focused container".to_owned());
            }
        };
        let parent_id = match self.parent(focused_id) {
            Some(p) => p,
            None => {
                return Err("Cannot split root".to_owned());
            }
        };
        match self.get(parent_id) {
            Some(p) => {
                if !p.can_have_children() {
                    return Err("Container cannot have children".to_owned());
                }
            }
            None => {
                return Err("Parent container not found".to_owned());
            }
        }

        let mut split = Container::new(NodeId::default(), ContainerType::Split);
        split.layout = match orientation {
            Orientation::Horizontal => LayoutMode::SplitH,
            Orientation::Vertical => LayoutMode::SplitV,
        };
        let split_id = self.insert(split);

        // The split takes the focused node's place among its siblings.
        let kids = self.children(parent_id);
        let new_kids = replace_first_exec(&kids, focused_id, split_id);
        self.set_children(parent_id, new_kids);
        self.set_parent(split_id, Some(parent_id));

        // The focused node becomes the split's sole child.
        self.set_parent(focused_id, Some(split_id));
        let mut split_children: Vec<NodeId> = Vec::new();
        split_children.push(focused_id);
        self.set_children(split_id, split_children);

        Ok(split_id)
    }
}

impl WindowTree {
    /// Where `insert_window` attaches a new window: beside the focused
    /// window (its parent), inside the focused container, or directly under
    /// the given workspace when nothing usable is focused.
    pub open spec fn insert_target_of(tree: Self, workspace_id: NodeId) -> NodeId {
        match tree.spec_focused() {
            Some(fid) => if tree.has_node(fid) {
                if tree.node(fid).container_type == ContainerType::Window {
                    match tree.node(fid).parent {
                        Some(p) => p,
                        None => workspace_id,
                    }
                } else {
                    fid
                }
            } else {
                workspace_id
            },
            None => workspace_id,
        }
    }

    /// Create a window node for a new surface and attach it beside the
    /// focused window (or into the focused container, or under the given
    /// workspace), then focus it. Fails, changing nothing — the attachment
    /// point is checked before the node is created — when that point is
    /// gone or cannot own children.
    pub fn insert_window(&mut self, window: WindowHandle, workspace_id: NodeId) -> (r: Result<
        NodeId,
        String,
    >)
        ensures
            r is Ok <==> ({
                let target = Self::insert_target_of(*old(self), workspace_id);
                old(self).has_node(target) && old(self).node(target).can_have_children()
            }),
            r matches Ok(id) ==> ({
                let target = Self::insert_target_of(*old(self), workspace_id);
                &&& !old(self).has_node(id)
                &&& final(self).has_node(id)
                &&& final(self).spec_focused() == Some(id)
                &&& final(self).spec_root() == old(self).spec_root()
                &&& forall|n: NodeId| #[trigger] old(self).has_node(n) ==> final(self).has_node(n)
                &&& forall|n: NodeId| !old(self).has_node(n) && n != id
                        ==> !(#[trigger] final(self).has_node(n))
                &&& final(self).node(target).children@
                        == old(self).node(target).children@.push(id)
                &&& final(self).node(target) == (Container {
                        children: final(self).node(target).children,
                        focused: Self::focus_flag_after(*old(self), Some(id), target),
                        ..old(self).node(target)
                    })
                &&& forall|n: NodeId| #[trigger] old(self).has_node(n) && n != target && n != id
                        ==> final(self).node(n) == (Container {
                        focused: Self::focus_flag_after(*old(self), Some(id), n),
                        ..old(self).node(n)
                    })
                &&& final(self).node(id).container_type == ContainerType::Window
                &&& final(self).node(id).window == Some(window)
                &&& final(self).node(id).parent == Some(target)
                &&& final(self).node(id).children@.len() == 0
                &&& final(self).node(id).focused == true
                &&& final(self).node(id).is_floating == false
                &&& final(self).node(id).floating_original_geometry is None
                &&& final(self).node(id).geometry == (Rectangle { x: 0, y: 0, width: 0, height: 0 })
                &&& final(self).node(id).layout == LayoutMode::SplitH
            }),
            r is Err ==> *final(self) == *old(self),
    {
        let insert_target = match self.focused() {
            Some(focused_id) => {
                match self.get(focused_id) {
                    Some(focused) => {
                        if matches!(focused.container_type, ContainerType::Window) {
                            match focused.parent {
                                Some(p) => p,
                                None => workspace_id,
                            }
                        } else {
                            focused_id
                        }
                    }
                    None => workspace_id,
                }
            }
            None => workspace_id,
        };

        // refuse before creating the node, so a failure leaves no orphan
        match self.get(insert_target) {
            Some(target) => {
                if !target.can_have_children() {
                    return Err("Container cannot have children".to_owned());
                }
            }
            None => {
                return Err("Parent container not found".to_owned());
            }
        }

        let mut container = Container::new(NodeId::default(), ContainerType::Window);
        container.window = Some(window);
        let window_id = self.insert(container);

        match self.add_child(insert_target, window_id) {
            Ok(()) => {}
            Err(e) => {
                return Err(e);
            }
        }

        self.set_focused(Some(window_id));
        Ok(window_id)
    }

    /// Detach a window from its parent and delete it. When it was focused,
    /// focus falls to the parent's first remaining child, or to the parent
    /// itself when none is left. Fails, changing nothing, when the window is
    /// gone or parentless.
    pub fn remove_window(&mut self, window_id: NodeId) -> (r: Result<(), String>)
        ensures
            r is Ok <==> (old(self).has_node(window_id)
                && old(self).node(window_id).parent is Some),
            r is Err ==> *final(self) == *old(self),
            r is Ok ==> ({
                let p = old(self).node(window_id).parent->0;
                let filtered = crate::tree::without_id(
                    if old(self).has_node(p) {
                        old(self).node(p).children@
                    } else {
                        Seq::<NodeId>::empty()
                    },
                    window_id,
                );
                let transferred = old(self).spec_focused() == Some(window_id);
                let new_focus = if transferred {
                    if filtered.len() > 0 {
                        Some(filtered[0])
                    } else {
                        Some(p)
                    }
                } else {
                    old(self).spec_focused()
                };
                &&& !final(self).has_node(window_id)
                &&& final(self).spec_root() == old(self).spec_root()
                &&& final(self).spec_focused() == new_focus
                &&& forall|n: NodeId| #[trigger] old(self).has_node(n) && n != window_id
                        ==> final(self).has_node(n)
                &&& forall|n: NodeId| !old(self).has_node(n)
                        ==> !(#[trigger] final(self).has_node(n))
                &&& old(self).has_node(p) && p != window_id
                        ==> final(self).node(p).children@ == filtered
                &&& old(self).has_node(p) && p != window_id
                        ==> final(self).node(p) == (Container {
                        children: final(self).node(p).children,
                        focused: if transferred && new_focus == Some(p) {
                            true
                        } else {
                            old(self).node(p).focused
                        },
                        ..old(self).node(p)
                    })
                &&& forall|n: NodeId| #[trigger] old(self).has_node(n) && n != window_id && n != p
                        ==> final(self).node(n) == (Container {
                        focused: if transferred && new_focus == Some(n) {
                            true
                        } else {
                            old(self).node(n).focused
                        },
                        ..old(self).node(n)
                    })
            }),
    {
        let parent_id = match self.parent(window_id) {
            Some(p) => p,
            None => {
                return Err("Window has no parent".to_owned());
            }
        };

        self.remove_child(parent_id, window_id);
        proof {
            // when the parent never listed the window, unlinking changed
            // nothing, which is exactly the filtered list
            if old(self).has_node(parent_id)
                && !old(self).node(parent_id).children@.contains(window_id) {
                crate::tree::lemma_without_id_absent(
                    old(self).node(parent_id).children@,
                    window_id,
                );
            }
        }

        let was_focused = match self.focused() {
            Some(f) => f == window_id,
            None => false,
        };
        if was_focused {
            let siblings = self.children(parent_id);
            if siblings.len() > 0 {
                self.set_focused(Some(siblings[0]));
            } else {
                self.set_focused(Some(parent_id));
            }
        }

        self.remove(window_id);
        Ok(())
    }
}

/// Navigating left from the leftmost child of a horizontal split changes
/// nothing: when the focused node stands first among the children of its
/// parent and that parent splits horizontally, the move has no destination,
/// and `navigate_focus` therefore returns nothing and leaves the tree — the
/// focus included — exactly as it was.
pub proof fn lemma_navigate_left_at_edge(tree: WindowTree)
    requires
        tree.spec_focused() matches Some(f) && (tree.has_node(f)
            && (tree.node(f).parent matches Some(p) && (tree.has_node(p)
            && tree.node(p).layout == LayoutMode::SplitH
            && tree.node(p).children@.len() > 0
            && tree.node(p).children@[0] == f))),
    ensures
        tree.navigate_destination(Direction::Left) is None,
{
    let f = tree.spec_focused()->0;
    let p = tree.node(f).parent->0;
    assert(first_position(tree.node(p).children@, f) == Some(0int));
    assert(sibling_in(tree.node(p).children@, f, Direction::Left) is None);
}

/// The sibling adjacent to `current`, per `sibling_in`.
fn sibling_of(children: &Vec<NodeId>, current: NodeId, dir: Direction) -> (found: Option<NodeId>)
    ensures
        found == sibling_in(children@, current, dir),
{
    match position_of(children, current) {
        Some(i) => {
            assert(i < children.len());
            if dir.is_negative() {
                if i >= 1 {
                    Some(children[i - 1])
                } else {
                    None
                }
            } else {
                if i + 1 < children.len() {
                    Some(children[i + 1])
                } else {
                    None
                }
            }
        }
        None => None,
    }
}

} // verus!
