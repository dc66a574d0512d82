//! The window tree: a generational arena of containers, plus the root and
//! focused node, and the operations that grow, prune and refocus it.

use vstd::prelude::*;
use vstd::pervasive::VecAdditionalExecFns;
use crate::container::{Container, ContainerType, LayoutMode, NodeId, Orientation, Rectangle,
    WindowHandle};

verus! {

/// One arena slot: a generation counter and, when occupied, a node. The
/// counter starts at 1 and rises by one each time the slot is vacated, so an
/// identifier minted for an earlier occupant never matches again.
struct Slot {
    generation: u64,
    value: Option<Container>,
}

/// Window tree storage: all containers in a generational arena, the root
/// node, and the currently focused node. Lookups by a stale identifier
/// return nothing rather than faulting.
pub struct WindowTree {
    slots: Vec<Slot>,
    free_slots: Vec<usize>,
    root: Option<NodeId>,
    focused: Option<NodeId>,
}

impl WindowTree {
    /// A live identifier: its slot exists, is occupied, and the generations
    /// agree.
    pub closed spec fn has_node(&self, id: NodeId) -> bool {
        &&& id.slot < self.slots@.len()
        &&& self.slots@[id.slot as int].value is Some
        &&& self.slots@[id.slot as int].generation == id.generation
    }

    /// The node a live identifier refers to.
    pub closed spec fn node(&self, id: NodeId) -> Container
        recommends
            self.has_node(id),
    {
        self.slots@[id.slot as int].value->0
    }

    /// The root identifier, if one has been set.
    pub closed spec fn spec_root(&self) -> Option<NodeId> {
        self.root
    }

    /// The focused identifier, if any.
    pub closed spec fn spec_focused(&self) -> Option<NodeId> {
        self.focused
    }

    /// Upper bound used by the tree searches: the slot count bounds the
    /// length of any path of distinct nodes, so a search that walks further
    /// is circling a malformed tree and gives up.
    pub closed spec fn node_budget(&self) -> nat {
        self.slots@.len() as nat
    }

    /// Everything that `insert` leaves alone: nodes other than the new one,
    /// the root and the focus.
    pub open spec fn inserted_frame(pre: Self, post: Self, id: NodeId) -> bool {
        &&& forall|other: NodeId| #[trigger] pre.has_node(other)
                ==> post.has_node(other) && post.node(other) == pre.node(other)
        &&& forall|other: NodeId| other != id && !pre.has_node(other)
                ==> !(#[trigger] post.has_node(other))
        &&& post.spec_root() == pre.spec_root()
        &&& post.spec_focused() == pre.spec_focused()
        &&& !pre.has_node(id)
    }

    /// A new empty window tree.
    pub fn new() -> (tree: Self)
        ensures
            forall|id: NodeId| !(#[trigger] tree.has_node(id)),
            tree.spec_root() is None,
            tree.spec_focused() is None,
    {
        WindowTree {
            slots: Vec::new(),
            free_slots: Vec::new(),
            root: None,
            focused: None,
        }
    }

    /// Store a new container and return its fresh identifier. Every
    /// identifier that was live before stays live with the same node; the
    /// new identifier was not live before.
    pub fn insert(&mut self, container: Container) -> (id: NodeId)
        ensures
            final(self).has_node(id),
            final(self).node(id) == container,
            Self::inserted_frame(*old(self), *final(self), id),
    {
        let mut reuse: Option<usize> = None;
        match self.free_slots.pop() {
            Some(idx) => {
                // The free list should only hold vacant slots; check rather
                // than rely on it.
                if idx < self.slots.len() {
                    if self.slots[idx].value.is_none() {
                        reuse = Some(idx);
                    }
                }
            }
            None => {}
        }
        match reuse {
            Some(idx) => {
                let generation = self.slots[idx].generation;
                self.slots.set(idx, Slot { generation, value: Some(container) });
                NodeId { slot: idx, generation }
            }
            None => {
                let idx = self.slots.len();
                self.slots.push(Slot { generation: 1, value: Some(container) });
                NodeId { slot: idx, generation: 1 }
            }
        }
    }

    /// Look up a container; a stale identifier misses.
    pub fn get(&self, id: NodeId) -> (found: Option<&Container>)
        ensures
            match found {
                Some(c) => self.has_node(id) && *c == self.node(id),
                None => !self.has_node(id),
            },
    {
        if id.slot < self.slots.len() {
            let slot = &self.slots[id.slot];
            if slot.generation == id.generation {
                match &slot.value {
                    Some(c) => Some(c),
                    None => None,
                }
            } else {
                None
            }
        } else {
            None
        }
    }

    /// Remove a container, returning it if the identifier was live. The
    /// slot's generation rises so the identifier never matches again; all
    /// other nodes, the root and the focus are untouched.
    pub fn remove(&mut self, id: NodeId) -> (removed: Option<Container>)
        ensures
            match removed {
                Some(c) => old(self).has_node(id) && c == old(self).node(id),
                None => !old(self).has_node(id),
            },
            !final(self).has_node(id),
            forall|other: NodeId| #[trigger] old(self).has_node(other) && other != id
                ==> final(self).has_node(other) && final(self).node(other) == old(self).node(other),
            forall|other: NodeId| !old(self).has_node(other)
                ==> !(#[trigger] final(self).has_node(other)),
            final(self).spec_root() == old(self).spec_root(),
            final(self).spec_focused() == old(self).spec_focused(),
    {
        if id.slot < self.slots.len() {
            let generation = self.slots[id.slot].generation;
            if generation == id.generation && self.slots[id.slot].value.is_some() {
                let mut taken = Slot { generation, value: None };
                self.slots.set_and_swap(id.slot, &mut taken);
                if generation < u64::MAX {
                    // Vacate under the next generation and allow reuse; a
                    // slot whose counter is exhausted is left retired.
                    self.slots.set(id.slot, Slot { generation: generation + 1, value: None });
                    self.free_slots.push(id.slot);
                }
                taken.value
            } else {
                None
            }
        } else {
            None
        }
    }

    /// Make this node the root.
    pub fn set_root(&mut self, id: NodeId)
        ensures
            final(self).spec_root() == Some(id),
            final(self).spec_focused() == old(self).spec_focused(),
            forall|other: NodeId| final(self).has_node(other) == old(self).has_node(other),
            forall|other: NodeId| #[trigger] old(self).has_node(other)
                ==> final(self).node(other) == old(self).node(other),
    {
        self.root = Some(id);
    }

    /// The root identifier, if one has been set.
    pub fn root(&self) -> (r: Option<NodeId>)
        ensures
            r == self.spec_root(),
    {
        self.root
    }

    /// The focused identifier, if any.
    pub fn focused(&self) -> (f: Option<NodeId>)
        ensures
            f == self.spec_focused(),
    {
        self.focused
    }

    /// The search budget as a number: how many upward or downward steps a
    /// traversal may take before it concludes the tree is malformed.
    pub fn search_budget(&self) -> (b: usize)
        ensures
            b as nat == self.node_budget(),
    {
        self.slots.len()
    }

    /// The `focused` flag a node carries after `set_focused(id)`: true on the
    /// newly focused node, false on the previously focused one, untouched
    /// elsewhere.
    pub open spec fn focus_flag_after(pre: Self, id: Option<NodeId>, n: NodeId) -> bool {
        if id == Some(n) {
            true
        } else if pre.spec_focused() == Some(n) {
            false
        } else {
            pre.node(n).focused
        }
    }

    /// Move focus: clear the flag on the node focused so far (if it is still
    /// live), record the new focus, and set the flag on the new node (if
    /// live). Nothing else changes.
    pub fn set_focused(&mut self, id: Option<NodeId>)
        ensures
            final(self).spec_focused() == id,
            final(self).spec_root() == old(self).spec_root(),
            forall|n: NodeId| final(self).has_node(n) == old(self).has_node(n),
            forall|n: NodeId| #[trigger] old(self).has_node(n)
                ==> final(self).node(n) == (Container {
                    focused: Self::focus_flag_after(*old(self), id, n),
                    ..old(self).node(n)
                }),
    {
        let previous = self.focused;
        match previous {
            Some(old_id) => {
                self.set_focus_flag(old_id, false);
            }
            None => {}
        }
        self.focused = id;
        let ghost mid = *self;
        match id {
            Some(new_id) => {
                self.set_focus_flag(new_id, true);
            }
            None => {}
        }
        proof {
            assert forall|n: NodeId| #[trigger] old(self).has_node(n)
                implies self.node(n) == (Container {
                    focused: Self::focus_flag_after(*old(self), id, n),
                    ..old(self).node(n)
                }) by {
                assert(mid.has_node(n) == old(self).has_node(n));
                if id == Some(n) {
                    assert(self.node(n).focused == true);
                } else if old(self).spec_focused() == Some(n) {
                    assert(mid.node(n) == (Container { focused: false, ..old(self).node(n) }));
                    assert(self.node(n) == mid.node(n));
                } else {
                    assert(mid.node(n) == old(self).node(n));
                    assert(self.node(n) == mid.node(n));
                }
            }
        }
    }

    /// Set one node's `focused` flag, missing silently on a stale identifier.
    fn set_focus_flag(&mut self, id: NodeId, value: bool)
        ensures
            final(self).spec_root() == old(self).spec_root(),
            final(self).spec_focused() == old(self).spec_focused(),
            forall|n: NodeId| final(self).has_node(n) == old(self).has_node(n),
            old(self).has_node(id) ==> final(self).node(id) == (Container {
                focused: value,
                ..old(self).node(id)
            }),
            forall|n: NodeId| #[trigger] old(self).has_node(n) && n != id
                ==> final(self).node(n) == old(self).node(n),
    {
        if id.slot < self.slots.len() {
            let slot = &mut self.slots[id.slot];
            if slot.generation == id.generation {
                match &mut slot.value {
                    Some(c) => {
                        c.focused = value;
                    }
                    None => {}
                }
            }
        }
    }

    /// Whether a container's window handle stands for the given surface.
    pub open spec fn handle_matches(c: Container, handle: WindowHandle) -> bool {
        c.window is Some && c.window->0.surface_id == handle.surface_id
    }

    /// Nothing changed but (possibly) one field of one node; the node set,
    /// the search budget, root and focus are as before.
    pub open spec fn one_node_frame(pre: Self, post: Self, id: NodeId) -> bool {
        &&& post.spec_root() == pre.spec_root()
        &&& post.spec_focused() == pre.spec_focused()
        &&& post.node_budget() == pre.node_budget()
        &&& forall|n: NodeId| post.has_node(n) == pre.has_node(n)
        &&& forall|n: NodeId| #[trigger] pre.has_node(n) && n != id ==> post.node(n) == pre.node(n)
    }

    /// Overwrite a node's geometry; a stale identifier changes nothing.
    pub fn set_geometry(&mut self, id: NodeId, geometry: Rectangle)
        ensures
            Self::one_node_frame(*old(self), *final(self), id),
            old(self).has_node(id) ==> final(self).node(id) == (Container {
                geometry,
                ..old(self).node(id)
            }),
    {
        if id.slot < self.slots.len() {
            let slot = &mut self.slots[id.slot];
            if slot.generation == id.generation {
                match &mut slot.value {
                    Some(c) => {
                        c.geometry = geometry;
                    }
                    None => {}
                }
            }
        }
    }

    /// Overwrite a node's floating flag; a stale identifier changes nothing.
    pub fn set_is_floating(&mut self, id: NodeId, is_floating: bool)
        ensures
            Self::one_node_frame(*old(self), *final(self), id),
            old(self).has_node(id) ==> final(self).node(id) == (Container {
                is_floating,
                ..old(self).node(id)
            }),
    {
        if id.slot < self.slots.len() {
            let slot = &mut self.slots[id.slot];
            if slot.generation == id.generation {
                match &mut slot.value {
                    Some(c) => {
                        c.is_floating = is_floating;
                    }
                    None => {}
                }
            }
        }
    }

    /// Overwrite a node's saved pre-floating geometry; a stale identifier
    /// changes nothing.
    pub fn set_floating_original_geometry(&mut self, id: NodeId, saved: Option<Rectangle>)
        ensures
            Self::one_node_frame(*old(self), *final(self), id),
            old(self).has_node(id) ==> final(self).node(id) == (Container {
                floating_original_geometry: saved,
                ..old(self).node(id)
            }),
    {
        if id.slot < self.slots.len() {
            let slot = &mut self.slots[id.slot];
            if slot.generation == id.generation {
                match &mut slot.value {
                    Some(c) => {
                        c.floating_original_geometry = saved;
                    }
                    None => {}
                }
            }
        }
    }

    /// Overwrite a node's title; a stale identifier changes nothing.
    pub fn set_title(&mut self, id: NodeId, title: Option<String>)
        ensures
            Self::one_node_frame(*old(self), *final(self), id),
            old(self).has_node(id) ==> final(self).node(id) == (Container {
                title,
                ..old(self).node(id)
            }),
    {
        if id.slot < self.slots.len() {
            let slot = &mut self.slots[id.slot];
            if slot.generation == id.generation {
                match &mut slot.value {
                    Some(c) => {
                        c.title = title;
                    }
                    None => {}
                }
            }
        }
    }

    /// Overwrite a node's application identifier; a stale identifier changes
    /// nothing.
    pub fn set_app_id(&mut self, id: NodeId, app_id: Option<String>)
        ensures
            Self::one_node_frame(*old(self), *final(self), id),
            old(self).has_node(id) ==> final(self).node(id) == (Container {
                app_id,
                ..old(self).node(id)
            }),
    {
        if id.slot < self.slots.len() {
            let slot = &mut self.slots[id.slot];
            if slot.generation == id.generation {
                match &mut slot.value {
                    Some(c) => {
                        c.app_id = app_id;
                    }
                    None => {}
                }
            }
        }
    }

    /// Record the size last reported to the surface owner; a stale
    /// identifier changes nothing.
    pub fn set_last_configured_size(&mut self, id: NodeId, size: Option<(u32, u32)>)
        ensures
            Self::one_node_frame(*old(self), *final(self), id),
            old(self).has_node(id) ==> final(self).node(id) == (Container {
                last_configured_size: size,
                ..old(self).node(id)
            }),
    {
        if id.slot < self.slots.len() {
            let slot = &mut self.slots[id.slot];
            if slot.generation == id.generation {
                match &mut slot.value {
                    Some(c) => {
                        c.last_configured_size = size;
                    }
                    None => {}
                }
            }
        }
    }

    /// Overwrite a node's layout mode; a stale identifier changes nothing.
    pub fn set_layout(&mut self, id: NodeId, layout: LayoutMode)
        ensures
            Self::one_node_frame(*old(self), *final(self), id),
            old(self).has_node(id) ==> final(self).node(id) == (Container {
                layout,
                ..old(self).node(id)
            }),
    {
        if id.slot < self.slots.len() {
            let slot = &mut self.slots[id.slot];
            if slot.generation == id.generation {
                match &mut slot.value {
                    Some(c) => {
                        c.layout = layout;
                    }
                    None => {}
                }
            }
        }
    }

    /// Set a node's parent back-reference; a stale identifier changes
    /// nothing.
    pub(crate) fn set_parent(&mut self, id: NodeId, parent: Option<NodeId>)
        ensures
            Self::one_node_frame(*old(self), *final(self), id),
            old(self).has_node(id) ==> final(self).node(id) == (Container {
                parent,
                ..old(self).node(id)
            }),
    {
        if id.slot < self.slots.len() {
            let slot = &mut self.slots[id.slot];
            if slot.generation == id.generation {
                match &mut slot.value {
                    Some(c) => {
                        c.parent = parent;
                    }
                    None => {}
                }
            }
        }
    }

    /// Link a child under a parent: the parent's child list grows by the
    /// child at its end, and the child's back-reference is set. Fails,
    /// changing nothing, when the parent is missing or of a kind that
    /// cannot own children, or when the child is missing — a dangling
    /// identifier never enters a child list.
    pub fn add_child(&mut self, parent_id: NodeId, child_id: NodeId) -> (r: Result<(), String>)
        ensures
            r is Ok <==> old(self).has_node(parent_id)
                && old(self).node(parent_id).can_have_children()
                && old(self).has_node(child_id),
            r is Err ==> *final(self) == *old(self),
            r is Ok ==> {
                &&& final(self).spec_root() == old(self).spec_root()
                &&& final(self).spec_focused() == old(self).spec_focused()
                &&& forall|n: NodeId| final(self).has_node(n) == old(self).has_node(n)
                &&& forall|n: NodeId| #[trigger] old(self).has_node(n)
                        && n != parent_id && n != child_id
                        ==> final(self).node(n) == old(self).node(n)
                &&& final(self).node(parent_id).children@
                        == old(self).node(parent_id).children@.push(child_id)
                &&& final(self).node(child_id).parent == Some(parent_id)
                &&& parent_id != child_id ==> final(self).node(parent_id) == (Container {
                        children: final(self).node(parent_id).children,
                        ..old(self).node(parent_id)
                    })
                &&& parent_id != child_id ==> final(self).node(child_id) == (Container {
                        parent: Some(parent_id),
                        ..old(self).node(child_id)
                    })
                &&& parent_id == child_id ==> final(self).node(parent_id) == (Container {
                        children: final(self).node(parent_id).children,
                        parent: Some(parent_id),
                        ..old(self).node(parent_id)
                    })
            },
    {
        match self.get(parent_id) {
            Some(parent) => {
                if !parent.can_have_children() {
                    return Err("Container cannot have children".to_owned());
                }
            }
            None => {
                return Err("Parent container not found".to_owned());
            }
        }
        // a stale child must not end up dangling in the parent's list
        if self.get(child_id).is_none() {
            return Err("Child container not found".to_owned());
        }

        self.set_parent(child_id, Some(parent_id));

        if parent_id.slot < self.slots.len() {
            let slot = &mut self.slots[parent_id.slot];
            if slot.generation == parent_id.generation {
                match &mut slot.value {
                    Some(c) => {
                        c.children.push(child_id);
                    }
                    None => {}
                }
            }
        }

        Ok(())
    }

    /// Unlink a child from a parent: when the child stands in the parent's
    /// list, every occurrence leaves it (order of the rest kept) and the
    /// child's back-reference is cleared. When it does not — the parent is
    /// gone, or the child was never its child — nothing changes at all:
    /// unlinking is an idempotent no-op.
    pub fn remove_child(&mut self, parent_id: NodeId, child_id: NodeId)
        ensures
            !(old(self).has_node(parent_id)
                && old(self).node(parent_id).children@.contains(child_id))
                ==> *final(self) == *old(self),
            old(self).has_node(parent_id)
                && old(self).node(parent_id).children@.contains(child_id) ==> {
                &&& final(self).spec_root() == old(self).spec_root()
                &&& final(self).spec_focused() == old(self).spec_focused()
                &&& forall|n: NodeId| final(self).has_node(n) == old(self).has_node(n)
                &&& forall|n: NodeId| #[trigger] old(self).has_node(n)
                        && n != parent_id && n != child_id
                        ==> final(self).node(n) == old(self).node(n)
                &&& final(self).node(parent_id).children@
                        == without_id(old(self).node(parent_id).children@, child_id)
                &&& old(self).has_node(child_id)
                        ==> final(self).node(child_id).parent is None
                &&& parent_id != child_id ==> final(self).node(parent_id) == (Container {
                        children: final(self).node(parent_id).children,
                        ..old(self).node(parent_id)
                    })
                &&& parent_id != child_id && old(self).has_node(child_id)
                        ==> final(self).node(child_id) == (Container {
                        parent: None,
                        ..old(self).node(child_id)
                    })
                &&& parent_id == child_id ==> final(self).node(parent_id) == (Container {
                        children: final(self).node(parent_id).children,
                        parent: None,
                        ..old(self).node(parent_id)
                    })
            },
    {
        let mut kept_children: Option<Vec<NodeId>> = None;
        match self.get(parent_id) {
            Some(c) => {
                if contains_id(&c.children, child_id) {
                    kept_children = Some(retain_other_ids(&c.children, child_id));
                }
            }
            None => {}
        }
        match kept_children {
            Some(kept) => {
                self.set_children(parent_id, kept);
                self.set_parent(child_id, None);
            }
            None => {}
        }
    }

    /// Replace a node's child list; a stale identifier changes nothing.
    pub(crate) fn set_children(&mut self, id: NodeId, children: Vec<NodeId>)
        ensures
            Self::one_node_frame(*old(self), *final(self), id),
            old(self).has_node(id) ==> final(self).node(id) == (Container {
                children,
                ..old(self).node(id)
            }),
    {
        if id.slot < self.slots.len() {
            let slot = &mut self.slots[id.slot];
            if slot.generation == id.generation {
                match &mut slot.value {
                    Some(c) => {
                        c.children = children;
                    }
                    None => {}
                }
            }
        }
    }

    /// A node's child list, copied; empty for a stale identifier.
    pub fn children(&self, id: NodeId) -> (list: Vec<NodeId>)
        ensures
            self.has_node(id) ==> list@ == self.node(id).children@,
            !self.has_node(id) ==> list@ == Seq::<NodeId>::empty(),
    {
        match self.get(id) {
            Some(c) => copy_ids(&c.children),
            None => Vec::new(),
        }
    }

    /// A node's parent link; nothing for a stale identifier.
    pub fn parent(&self, id: NodeId) -> (p: Option<NodeId>)
        ensures
            self.has_node(id) ==> p == self.node(id).parent,
            !self.has_node(id) ==> p is None,
    {
        match self.get(id) {
            Some(c) => c.parent,
            None => None,
        }
    }

    /// Identifiers of all `Window` nodes, each exactly once, in slot order.
    pub fn find_windows(&self) -> (windows: Vec<NodeId>)
        ensures
            forall|id: NodeId| #[trigger] windows@.contains(id)
                <==> self.has_node(id)
                    && self.node(id).container_type == ContainerType::Window,
            windows@.no_duplicates(),
    {
        let mut windows: Vec<NodeId> = Vec::new();
        let mut i: usize = 0;
        while i < self.slots.len()
            invariant
                i <= self.slots@.len(),
                forall|id: NodeId| #[trigger] windows@.contains(id)
                    <==> id.slot < i && self.has_node(id)
                        && self.node(id).container_type == ContainerType::Window,
                forall|k1: int, k2: int| 0 <= k1 < k2 < windows@.len()
                    ==> windows@[k1].slot < windows@[k2].slot,
                forall|k: int| 0 <= k < windows@.len() ==> windows@[k].slot < i,
            decreases self.slots@.len() - i,
        {
            let ghost before = windows@;
            let slot = &self.slots[i];
            match &slot.value {
                Some(c) => {
                    if matches!(c.container_type, ContainerType::Window) {
                        let id = NodeId { slot: i, generation: slot.generation };
                        assert(self.has_node(id));
                        windows.push(id);
                    }
                }
                None => {}
            }
            proof {
                assert forall|id: NodeId| #[trigger] windows@.contains(id)
                    implies id.slot < i + 1 && self.has_node(id)
                        && self.node(id).container_type == ContainerType::Window by {
                    if before.contains(id) {
                    } else {
                        // only the freshly pushed identifier is new
                        assert(windows@.len() == before.len() + 1);
                        assert(id == windows@.last());
                    }
                }
                assert forall|id: NodeId| id.slot < i + 1 && self.has_node(id)
                        && self.node(id).container_type == ContainerType::Window
                    implies #[trigger] windows@.contains(id) by {
                    if id.slot < i {
                        assert(before.contains(id));
                        let k = choose|k: int| 0 <= k < before.len() && before[k] == id;
                        assert(windows@[k] == id);
                    } else {
                        // the occupied slot at index i holds a window, so it
                        // was pushed this iteration
                        assert(id.slot == i);
                        assert(id.generation == self.slots@[i as int].generation);
                        assert(windows@.last() == id);
                    }
                }
            }
            i = i + 1;
        }
        windows
    }

    /// The live node (smallest slot first) whose window handle stands for
    /// the given surface, or nothing when no node does.
    pub fn find_window_by_handle(&self, window: &WindowHandle) -> (found: Option<NodeId>)
        ensures
            match found {
                Some(id) => self.has_node(id) && Self::handle_matches(self.node(id), *window)
                    && forall|other: NodeId| self.has_node(other)
                        && Self::handle_matches(self.node(other), *window)
                        ==> id.slot <= other.slot,
                None => forall|id: NodeId| self.has_node(id)
                    ==> !Self::handle_matches(self.node(id), *window),
            },
    {
        let mut i: usize = 0;
        while i < self.slots.len()
            invariant
                i <= self.slots@.len(),
                forall|id: NodeId| self.has_node(id) && id.slot < i
                    ==> !Self::handle_matches(self.node(id), *window),
            decreases self.slots@.len() - i,
        {
            let slot = &self.slots[i];
            match &slot.value {
                Some(c) => {
                    match &c.window {
                        Some(h) => {
                            if h.surface_id == window.surface_id {
                                let id = NodeId { slot: i, generation: slot.generation };
                                assert(self.has_node(id));
                                return Some(id);
                            }
                        }
                        None => {}
                    }
                }
                None => {}
            }
            i = i + 1;
        }
        None
    }
}

/// The sequence with every occurrence of one identifier dropped, order kept.
pub open spec fn without_id(s: Seq<NodeId>, drop: NodeId) -> Seq<NodeId> {
    s.filter(|c: NodeId| c != drop)
}


/// At most one node carries the focus flag: every flagged node is the one
/// the tree's focus pointer names.
pub open spec fn single_focus(tree: WindowTree) -> bool {
    forall|n: NodeId| #[trigger] tree.has_node(n) && tree.node(n).focused
        ==> tree.spec_focused() == Some(n)
}

/// Moving focus preserves the single-focus invariant: any state change of
/// the shape `set_focused` promises — the pointer moved to `id`, each
/// node's flag rewritten per `focus_flag_after` — keeps every flagged node
/// the pointed-at one.
pub proof fn lemma_set_focused_single_focus(
    pre: WindowTree,
    post: WindowTree,
    id: Option<NodeId>,
)
    requires
        single_focus(pre),
        post.spec_focused() == id,
        forall|n: NodeId| post.has_node(n) == pre.has_node(n),
        forall|n: NodeId| #[trigger] pre.has_node(n) ==> post.node(n) == (Container {
            focused: WindowTree::focus_flag_after(pre, id, n),
            ..pre.node(n)
        }),
    ensures
        single_focus(post),
{
    assert forall|n: NodeId| #[trigger] post.has_node(n) && post.node(n).focused
        implies post.spec_focused() == Some(n) by {
        assert(pre.has_node(n));
        if id != Some(n) && pre.spec_focused() != Some(n) {
            // the flag was carried over, so this node was focused before,
            // and then the old pointer already named it
            assert(pre.node(n).focused);
        }
    }
}

/// Copy of an identifier list.
fn copy_ids(ids: &Vec<NodeId>) -> (out: Vec<NodeId>)
    ensures
        out@ == ids@,
{
    let mut out: Vec<NodeId> = Vec::new();
    let mut i: usize = 0;
    while i < ids.len()
        invariant
            i <= ids@.len(),
            out@ == ids@.subrange(0, i as int),
        decreases ids@.len() - i,
    {
        out.push(ids[i]);
        i = i + 1;
    }
    assert(out@ =~= ids@);
    out
}

/// Whether the list holds the identifier.
pub(crate) fn contains_id(ids: &Vec<NodeId>, x: NodeId) -> (found: bool)
    ensures
        found == ids@.contains(x),
{
    let mut i: usize = 0;
    while i < ids.len()
        invariant
            i <= ids@.len(),
            forall|j: int| 0 <= j < i ==> ids@[j] != x,
        decreases ids@.len() - i,
    {
        if ids[i] == x {
            assert(ids@[i as int] == x);
            return true;
        }
        i = i + 1;
    }
    false
}

/// Dropping an identifier a sequence does not hold changes nothing.
pub proof fn lemma_without_id_absent(s: Seq<NodeId>, x: NodeId)
    requires
        !s.contains(x),
    ensures
        without_id(s, x) == s,
    decreases s.len(),
{
    reveal(Seq::filter);
    if s.len() > 0 {
        assert(!s.drop_last().contains(x)) by {
            if s.drop_last().contains(x) {
                let k = choose|k: int| 0 <= k < s.drop_last().len() && s.drop_last()[k] == x;
                assert(s[k] == x);
            }
        }
        lemma_without_id_absent(s.drop_last(), x);
        assert(s[s.len() - 1] != x);
        assert(without_id(s, x) =~= s);
    } else {
        assert(without_id(s, x) =~= s);
    }
}

/// The list with every occurrence of one identifier dropped, order kept.
pub(crate) fn retain_other_ids(ids: &Vec<NodeId>, drop: NodeId) -> (out: Vec<NodeId>)
    ensures
        out@ == without_id(ids@, drop),
{
    let mut out: Vec<NodeId> = Vec::new();
    let mut i: usize = 0;
    while i < ids.len()
        invariant
            i <= ids@.len(),
            out@ == without_id(ids@.subrange(0, i as int), drop),
        decreases ids@.len() - i,
    {
        proof {
            reveal(Seq::filter);
            assert(ids@.subrange(0, i + 1).drop_last() =~= ids@.subrange(0, i as int));
            assert(ids@.subrange(0, i + 1).last() == ids@[i as int]);
        }
        if ids[i] != drop {
            out.push(ids[i]);
        }
        i = i + 1;
    }
    proof {
        assert(ids@.subrange(0, ids@.len() as int) =~= ids@);
    }
    out
}

} // verus!
