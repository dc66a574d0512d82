//! Workspace multiplexing: a fixed set of virtual desktops rooted under one
//! output, one of them active, with window movement between them and layout
//! of the active one.

use vstd::prelude::*;
use crate::container::{Container, ContainerType, LayoutMode, NodeId, Rectangle};
use crate::layout::{chain_state, engine_rel, flat_exact_pre, geom_step, geometry_only,
    in_subtree, mode_cell, rect_ok, separated_children, TAB_BAR_HEIGHT, TREE_GAP_WIDTH};
use crate::tree::{without_id, WindowTree};

verus! {

/// Number of workspaces each output owns.
pub const MAX_WORKSPACES: usize = 10;

/// All windows in a subtree, in depth-first, left-to-right order: a window
/// node contributes itself, a container contributes its children's windows
/// in child order. `fuel` bounds the depth.
pub open spec fn subtree_windows(tree: WindowTree, n: NodeId, fuel: nat) -> Seq<NodeId>
    decreases fuel, 0nat,
{
    if !tree.has_node(n) {
        Seq::empty()
    } else if tree.node(n).container_type == ContainerType::Window {
        seq![n]
    } else if fuel == 0 {
        Seq::empty()
    } else {
        list_windows(tree, tree.node(n).children@, (fuel - 1) as nat)
    }
}

/// The windows under each of a list of nodes, concatenated in list order.
pub open spec fn list_windows(tree: WindowTree, ids: Seq<NodeId>, fuel: nat) -> Seq<NodeId>
    decreases fuel, 1nat, ids.len(),
{
    if ids.len() == 0 {
        Seq::empty()
    } else {
        list_windows(tree, ids.drop_last(), fuel) + subtree_windows(tree, ids.last(), fuel)
    }
}

/// Exec form of `subtree_windows`.
fn collect_windows(tree: &WindowTree, n: NodeId, fuel: usize) -> (windows: Vec<NodeId>)
    ensures
        windows@ == subtree_windows(*tree, n, fuel as nat),
    decreases fuel,
{
    let mut windows: Vec<NodeId> = Vec::new();
    let node = match tree.get(n) {
        Some(c) => c,
        None => {
            return windows;
        }
    };
    if matches!(node.container_type, ContainerType::Window) {
        windows.push(n);
        proof {
            assert(windows@ =~= seq![n]);
        }
        return windows;
    }
    if fuel == 0 {
        return windows;
    }
    let children = tree.children(n);
    let mut i: usize = 0;
    while i < children.len()
        invariant
            i <= children@.len(),
            children@ == tree.node(n).children@,
            tree.has_node(n),
            fuel >= 1,
            windows@ == list_windows(*tree, children@.subrange(0, i as int), (fuel - 1) as nat),
        decreases children@.len() - i,
    {
        proof {
            assert(children@.subrange(0, i + 1).drop_last() =~= children@.subrange(0, i as int));
            assert(children@.subrange(0, i + 1).last() == children@[i as int]);
        }
        let mut sub = collect_windows(tree, children[i], fuel - 1);
        windows.append(&mut sub);
        i = i + 1;
    }
    proof {
        assert(children@.subrange(0, children@.len() as int) =~= children@);
    }
    windows
}

/// One output's set of virtual desktops: their root nodes in the tree, and
/// which of them is active.
pub struct WorkspaceManager {
    workspaces: Vec<Option<NodeId>>,
    active_workspace: usize,
    output_id: NodeId,
}

impl WorkspaceManager {
    /// The workspace roots, in workspace order.
    pub closed spec fn spec_workspaces(&self) -> Seq<Option<NodeId>> {
        self.workspaces@
    }

    /// Index of the active workspace.
    pub closed spec fn spec_active(&self) -> int {
        self.active_workspace as int
    }

    /// The output this manager belongs to.
    pub closed spec fn spec_output(&self) -> NodeId {
        self.output_id
    }

    /// A well-formed manager: exactly the fixed number of workspaces, each
    /// present, and the active index among them.
    pub open spec fn wf(&self) -> bool {
        &&& self.spec_workspaces().len() == MAX_WORKSPACES
        &&& 0 <= self.spec_active() < MAX_WORKSPACES
        &&& forall|i: int| 0 <= i < MAX_WORKSPACES ==> self.spec_workspaces()[i] is Some
    }

    /// Create the manager and its workspaces: the fixed number of fresh
    /// workspace nodes (horizontal split, no children), each attached under
    /// the output when the output is live and can own children; the first
    /// workspace is active.
    pub fn new(tree: &mut WindowTree, output_id: NodeId) -> (m: Self)
        ensures
            m.wf(),
            m.spec_active() == 0,
            m.spec_output() == output_id,
            final(tree).spec_root() == old(tree).spec_root(),
            final(tree).spec_focused() == old(tree).spec_focused(),
            forall|n: NodeId| #[trigger] old(tree).has_node(n) ==> final(tree).has_node(n),
            forall|i: int| 0 <= i < MAX_WORKSPACES ==> {
                let ws = (#[trigger] m.spec_workspaces()[i])->0;
                &&& !old(tree).has_node(ws)
                &&& final(tree).has_node(ws)
                &&& ws != output_id ==> final(tree).node(ws).container_type
                        == ContainerType::Workspace && final(tree).node(ws).layout
                        == LayoutMode::SplitH && final(tree).node(ws).children@.len() == 0
            },
            forall|i: int, j: int| 0 <= i < j < MAX_WORKSPACES
                ==> (#[trigger] m.spec_workspaces()[i])->0 != (#[trigger] m.spec_workspaces()[j])->0,
            old(tree).has_node(output_id) && old(tree).node(output_id).can_have_children()
                ==> forall|i: int| 0 <= i < MAX_WORKSPACES
                    ==> final(tree).node((#[trigger] m.spec_workspaces()[i])->0).parent
                        == Some(output_id),
            old(tree).has_node(output_id) && old(tree).node(output_id).can_have_children() ==> {
                &&& final(tree).node(output_id).children@
                        == old(tree).node(output_id).children@ + Seq::new(
                        MAX_WORKSPACES as nat,
                        |i: int| m.spec_workspaces()[i]->0,
                    )
                &&& final(tree).node(output_id) == (Container {
                        children: final(tree).node(output_id).children,
                        ..old(tree).node(output_id)
                    })
            },
            forall|n: NodeId| #[trigger] old(tree).has_node(n) && n != output_id
                ==> final(tree).node(n) == old(tree).node(n),
    {
        let mut workspaces: Vec<Option<NodeId>> = Vec::new();
        let mut i: usize = 0;
        while i < MAX_WORKSPACES
            invariant
                i <= MAX_WORKSPACES,
                workspaces@.len() == i,
                tree.spec_root() == old(tree).spec_root(),
                tree.spec_focused() == old(tree).spec_focused(),
                forall|n: NodeId| #[trigger] old(tree).has_node(n) ==> tree.has_node(n),
                forall|n: NodeId| #[trigger] old(tree).has_node(n) && n != output_id
                    ==> tree.node(n) == old(tree).node(n),
                forall|k: int| 0 <= k < i ==> {
                    let ws = (#[trigger] workspaces@[k])->0;
                    &&& workspaces@[k] is Some
                    &&& !old(tree).has_node(ws)
                    &&& tree.has_node(ws)
                    &&& ws != output_id ==> tree.node(ws).container_type
                            == ContainerType::Workspace && tree.node(ws).layout
                            == LayoutMode::SplitH && tree.node(ws).children@.len() == 0
                },
                forall|k1: int, k2: int| 0 <= k1 < k2 < i
                    ==> (#[trigger] workspaces@[k1])->0 != (#[trigger] workspaces@[k2])->0,
                old(tree).has_node(output_id) ==> tree.has_node(output_id)
                    && tree.node(output_id).container_type
                        == old(tree).node(output_id).container_type,
                old(tree).has_node(output_id) && old(tree).node(output_id).can_have_children()
                    ==> forall|k: int| 0 <= k < i
                        ==> tree.node((#[trigger] workspaces@[k])->0).parent == Some(output_id),
                old(tree).has_node(output_id) && old(tree).node(output_id).can_have_children()
                    ==> tree.node(output_id).children@
                        == old(tree).node(output_id).children@ + Seq::new(
                        i as nat,
                        |k: int| workspaces@[k]->0,
                    ) && tree.node(output_id) == (Container {
                        children: tree.node(output_id).children,
                        ..old(tree).node(output_id)
                    }),
            decreases MAX_WORKSPACES - i,
        {
            let mut workspace = Container::new(NodeId::default(), ContainerType::Workspace);
            workspace.layout = LayoutMode::SplitH;
            let workspace_id = tree.insert(workspace);
            // attach under the output; a missing or incapable output leaves
            // the workspace parentless, but it is still tracked
            match tree.add_child(output_id, workspace_id) {
                Ok(()) => {}
                Err(_) => {}
            }
            workspaces.push(Some(workspace_id));
            proof {
                if old(tree).has_node(output_id)
                    && old(tree).node(output_id).can_have_children() {
                    assert(tree.node(output_id).children@ =~= old(tree).node(
                        output_id,
                    ).children@ + Seq::new(i as nat + 1, |k: int| workspaces@[k]->0));
                }
            }
            i = i + 1;
        }
        proof {
            if old(tree).has_node(output_id) && old(tree).node(output_id).can_have_children() {
                assert(Seq::new(MAX_WORKSPACES as nat, |k: int| workspaces@[k]->0)
                    =~= Seq::new(i as nat, |k: int| workspaces@[k]->0));
            }
        }
        WorkspaceManager { workspaces, active_workspace: 0, output_id }
    }

    /// The active workspace's root node.
    pub fn active_workspace(&self) -> (ws: Option<NodeId>)
        requires
            self.wf(),
        ensures
            ws == self.spec_workspaces()[self.spec_active()],
            ws is Some,
    {
        self.workspaces[self.active_workspace]
    }

    /// The active workspace's number, 1-based.
    pub fn active_workspace_num(&self) -> (num: usize)
        requires
            self.wf(),
        ensures
            num == self.spec_active() + 1,
    {
        self.active_workspace + 1
    }

    /// Switch to a workspace by its 1-based number. A number outside the
    /// valid range fails and changes nothing, the active workspace included.
    pub fn switch_to_workspace(&mut self, workspace_num: usize) -> (ws: Option<NodeId>)
        requires
            old(self).wf(),
        ensures
            final(self).wf(),
            final(self).spec_workspaces() == old(self).spec_workspaces(),
            final(self).spec_output() == old(self).spec_output(),
            workspace_num < 1 || workspace_num > MAX_WORKSPACES ==> ws is None
                && *final(self) == *old(self),
            1 <= workspace_num <= MAX_WORKSPACES ==> final(self).spec_active() == workspace_num - 1
                && ws == old(self).spec_workspaces()[workspace_num - 1],
    {
        if workspace_num < 1 || workspace_num > MAX_WORKSPACES {
            return None;
        }
        let index = workspace_num - 1;
        self.active_workspace = index;
        self.workspaces[index]
    }

    /// A workspace's root node by its 1-based number; nothing for a number
    /// outside the valid range.
    pub fn get_workspace(&self, workspace_num: usize) -> (ws: Option<NodeId>)
        requires
            self.wf(),
        ensures
            workspace_num < 1 || workspace_num > MAX_WORKSPACES ==> ws is None,
            1 <= workspace_num <= MAX_WORKSPACES
                ==> ws == self.spec_workspaces()[workspace_num - 1],
    {
        if workspace_num < 1 || workspace_num > MAX_WORKSPACES {
            return None;
        }
        self.workspaces[workspace_num - 1]
    }

    /// Move a window out of its current position and attach it directly
    /// under the target workspace's root, flattening it out of any split it
    /// was in. Fails, changing nothing, for an invalid workspace number, a
    /// parentless or gone window, or a target root that is gone.
    pub fn move_window_to_workspace(
        &mut self,
        tree: &mut WindowTree,
        window_id: NodeId,
        target_workspace_num: usize,
    ) -> (r: Result<(), String>)
        requires
            old(self).wf(),
        ensures
            *final(self) == *old(self),
            r is Err ==> *final(tree) == *old(tree),
            r is Ok <==> 1 <= target_workspace_num <= MAX_WORKSPACES
                && (old(tree).has_node(window_id)
                && (old(tree).node(window_id).parent is Some
                && ({
                    let ws = old(self).spec_workspaces()[target_workspace_num - 1]->0;
                    old(tree).has_node(ws) && old(tree).node(ws).can_have_children()
                }))),
            r is Ok ==> ({
                let ws = old(self).spec_workspaces()[target_workspace_num - 1]->0;
                let p = old(tree).node(window_id).parent->0;
                &&& final(tree).spec_root() == old(tree).spec_root()
                &&& final(tree).spec_focused() == old(tree).spec_focused()
                &&& forall|n: NodeId| final(tree).has_node(n) == old(tree).has_node(n)
                &&& final(tree).node(window_id).parent == Some(ws)
                &&& old(tree).has_node(p) && p != window_id && p != ws
                        ==> final(tree).node(p).children@ == without_id(
                        old(tree).node(p).children@,
                        window_id,
                    )
                &&& ws != window_id ==> final(tree).node(ws).children@
                        == (if old(tree).has_node(p) && p == ws {
                        without_id(old(tree).node(ws).children@, window_id)
                    } else {
                        old(tree).node(ws).children@
                    }).push(window_id)
                &&& forall|n: NodeId| #[trigger] old(tree).has_node(n) && n != window_id
                        && n != ws && n != p ==> final(tree).node(n) == old(tree).node(n)
            }),
    {
        if target_workspace_num < 1 || target_workspace_num > MAX_WORKSPACES {
            return Err("Invalid workspace number".to_owned());
        }

        let target_workspace_id = match self.workspaces[target_workspace_num - 1] {
            Some(id) => id,
            None => {
                return Err("Target workspace not found".to_owned());
            }
        };

        let current_parent = match tree.parent(window_id) {
            Some(p) => p,
            None => {
                return Err("Window has no parent".to_owned());
            }
        };

        // refuse before mutating, so a failure leaves the tree whole
        match tree.get(target_workspace_id) {
            Some(ws) => {
                if !ws.can_have_children() {
                    return Err("Container cannot have children".to_owned());
                }
            }
            None => {
                return Err("Parent container not found".to_owned());
            }
        }

        tree.remove_child(current_parent, window_id);
        proof {
            if old(tree).has_node(current_parent)
                && !old(tree).node(current_parent).children@.contains(window_id) {
                crate::tree::lemma_without_id_absent(
                    old(tree).node(current_parent).children@,
                    window_id,
                );
            }
        }
        match tree.add_child(target_workspace_id, window_id) {
            Ok(()) => Ok(()),
            Err(e) => Err(e),
        }
    }

    /// Every workspace root, in workspace order.
    pub fn all_workspaces(&self) -> (all: Vec<Option<NodeId>>)
        ensures
            all@ == self.spec_workspaces(),
    {
        let mut all: Vec<Option<NodeId>> = Vec::new();
        let mut i: usize = 0;
        while i < self.workspaces.len()
            invariant
                i <= self.workspaces@.len(),
                all@ == self.workspaces@.subrange(0, i as int),
            decreases self.workspaces@.len() - i,
        {
            all.push(self.workspaces[i]);
            i = i + 1;
        }
        proof {
            assert(all@ =~= self.workspaces@);
        }
        all
    }

    /// Whether a workspace currently has any children at all.
    pub fn workspace_has_windows(&self, tree: &WindowTree, workspace_num: usize) -> (has: bool)
        requires
            self.wf(),
        ensures
            has == (1 <= workspace_num <= MAX_WORKSPACES && ({
                let ws = self.spec_workspaces()[workspace_num - 1]->0;
                tree.has_node(ws) && tree.node(ws).children@.len() > 0
            })),
    {
        match self.get_workspace(workspace_num) {
            Some(workspace_id) => {
                let children = tree.children(workspace_id);
                children.len() > 0
            }
            None => false,
        }
    }

    /// The output this manager belongs to.
    pub fn output_id(&self) -> (id: NodeId)
        ensures
            id == self.spec_output(),
    {
        self.output_id
    }

    /// Lay out the active workspace's subtree over the screen rectangle.
    /// Only geometries change; for a workspace of distinct window children
    /// the rectangles are pinned cell by cell.
    pub fn layout_active_workspace(&mut self, tree: &mut WindowTree, screen_geometry: Rectangle)
        requires
            old(self).wf(),
            rect_ok(screen_geometry),
        ensures
            *final(self) == *old(self),
            geometry_only(*old(tree), *final(tree)),
            ({
                let ws = old(self).spec_workspaces()[old(self).spec_active()]->0;
                old(tree).has_node(ws) && flat_exact_pre(
                    *old(tree),
                    ws,
                    old(tree).node(ws).layout,
                    screen_geometry,
                    TREE_GAP_WIDTH as int,
                )
            }) ==> ({
                let ws = old(self).spec_workspaces()[old(self).spec_active()]->0;
                let kids = old(tree).node(ws).children@;
                &&& final(tree).node(ws).geometry == screen_geometry
                &&& forall|k: int| 0 <= k < kids.len()
                        ==> final(tree).node(kids[k]).geometry == mode_cell(
                            old(tree).node(ws).layout,
                            screen_geometry,
                            kids.len() as int,
                            TREE_GAP_WIDTH as int,
                            TAB_BAR_HEIGHT as int,
                            k,
                        )
            }),
            forall|m: NodeId| #[trigger] old(tree).has_node(m) && !in_subtree(
                *old(tree),
                old(self).spec_workspaces()[old(self).spec_active()]->0,
                m,
                old(tree).node_budget() + 1,
            ) ==> final(tree).node(m).geometry == old(tree).node(m).geometry,
            ({
                let ws = old(self).spec_workspaces()[old(self).spec_active()]->0;
                separated_children(*old(tree), ws, old(tree).node_budget())
                    && old(tree).node(ws).children@.len() >= 1
                    && (old(tree).node(ws).layout is SplitH
                    ==> (old(tree).node(ws).children@.len() - 1) * TREE_GAP_WIDTH
                        < screen_geometry.width)
                    && (old(tree).node(ws).layout is SplitV
                    ==> (old(tree).node(ws).children@.len() - 1) * TREE_GAP_WIDTH
                        < screen_geometry.height)
            }) ==> ({
                let ws = old(self).spec_workspaces()[old(self).spec_active()]->0;
                let kids = old(tree).node(ws).children@;
                &&& final(tree).node(ws).geometry == screen_geometry
                &&& forall|k: int| 0 <= k < kids.len()
                        ==> final(tree).node(#[trigger] kids[k]).geometry == mode_cell(
                            old(tree).node(ws).layout,
                            screen_geometry,
                            kids.len() as int,
                            TREE_GAP_WIDTH as int,
                            TAB_BAR_HEIGHT as int,
                            k,
                        )
            }),
            old(tree).has_node(old(self).spec_workspaces()[old(self).spec_active()]->0)
                ==> exists|mid: WindowTree| #[trigger] chain_state(mid) == mid && ({
                let ws = old(self).spec_workspaces()[old(self).spec_active()]->0;
                geom_step(*old(tree), mid, ws, screen_geometry) && engine_rel(
                    mid,
                    *final(tree),
                    ws,
                    screen_geometry,
                    old(tree).node(ws).layout,
                    TREE_GAP_WIDTH as int,
                    TAB_BAR_HEIGHT as int,
                    old(tree).node_budget(),
                )
            }),
    {
        match self.active_workspace() {
            Some(workspace_id) => {
                tree.calculate_layout(workspace_id, screen_geometry);
            }
            None => {}
        }
    }

    /// All windows on the active workspace, in depth-first, left-to-right
    /// order, floating ones included; callers separate them by each node's
    /// floating flag.
    pub fn visible_windows(&self, tree: &WindowTree) -> (windows: Vec<NodeId>)
        requires
            self.wf(),
        ensures
            windows@ == subtree_windows(
                *tree,
                self.spec_workspaces()[self.spec_active()]->0,
                tree.node_budget(),
            ),
    {
        let workspace_id = match self.active_workspace() {
            Some(id) => id,
            None => {
                return Vec::new();
            }
        };
        let fuel = tree.search_budget();
        collect_windows(tree, workspace_id, fuel)
    }
}

} // verus!
