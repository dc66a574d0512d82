use codeverse::container::{Container, ContainerType, LayoutMode, NodeId, WindowHandle};
use codeverse::navigation::Direction;
use codeverse::tree::WindowTree;

#[test]
fn test_create_tree() {
    let mut tree = WindowTree::new();

    let root = Container::new(
        tree.insert(Container::new(NodeId::default(), ContainerType::Root)),
        ContainerType::Root,
    );
    let root_id = tree.insert(root);
    tree.set_root(root_id);

    assert_eq!(tree.root(), Some(root_id));
}

#[test]
fn test_focus() {
    let mut tree = WindowTree::new();

    let container1 = Container::new(NodeId::default(), ContainerType::Window);
    let id1 = tree.insert(container1);

    tree.set_focused(Some(id1));
    assert_eq!(tree.focused(), Some(id1));
    assert!(tree.get(id1).unwrap().focused);
}

#[test]
fn stale_identifier_misses() {
    let mut tree = WindowTree::new();
    let id = tree.insert(Container::new(NodeId::default(), ContainerType::Window));
    assert!(tree.get(id).is_some());
    let removed = tree.remove(id);
    assert!(removed.is_some());
    assert!(tree.get(id).is_none());
    // the slot may be reused, but the old identifier stays dead
    let id2 = tree.insert(Container::new(NodeId::default(), ContainerType::Window));
    assert!(tree.get(id).is_none());
    assert!(tree.get(id2).is_some());
    assert_ne!(id, id2);
}

#[test]
fn add_child_links_both_ways() {
    let mut tree = WindowTree::new();
    let parent = tree.insert(Container::new(NodeId::default(), ContainerType::Split));
    let child = tree.insert(Container::new(NodeId::default(), ContainerType::Window));
    tree.add_child(parent, child).unwrap();
    assert_eq!(tree.children(parent), vec![child]);
    assert_eq!(tree.parent(child), Some(parent));

    tree.remove_child(parent, child);
    assert!(tree.children(parent).is_empty());
    assert_eq!(tree.parent(child), None);
}

#[test]
fn add_child_refuses_leaf_parent() {
    let mut tree = WindowTree::new();
    let parent = tree.insert(Container::new(NodeId::default(), ContainerType::Window));
    let child = tree.insert(Container::new(NodeId::default(), ContainerType::Window));
    assert!(tree.add_child(parent, child).is_err());
    assert!(tree.children(parent).is_empty());
}

#[test]
fn insert_window_focuses_new_window() {
    let mut tree = WindowTree::new();
    let ws = tree.insert(Container::new(NodeId::default(), ContainerType::Workspace));
    let first = tree.insert_window(WindowHandle::new(1), ws).unwrap();
    assert_eq!(tree.focused(), Some(first));
    assert_eq!(tree.parent(first), Some(ws));

    // the second window lands beside the focused one
    let second = tree.insert_window(WindowHandle::new(2), ws).unwrap();
    assert_eq!(tree.focused(), Some(second));
    assert_eq!(tree.parent(second), Some(ws));
    assert_eq!(tree.children(ws), vec![first, second]);
}

#[test]
fn remove_window_refocuses_sibling() {
    let mut tree = WindowTree::new();
    let ws = tree.insert(Container::new(NodeId::default(), ContainerType::Workspace));
    let first = tree.insert_window(WindowHandle::new(1), ws).unwrap();
    let second = tree.insert_window(WindowHandle::new(2), ws).unwrap();
    assert_eq!(tree.focused(), Some(second));
    tree.remove_window(second).unwrap();
    assert_eq!(tree.focused(), Some(first));
    assert!(tree.get(second).is_none());
    assert_eq!(tree.children(ws), vec![first]);
}

#[test]
fn remove_window_without_parent_fails() {
    let mut tree = WindowTree::new();
    let lone = tree.insert(Container::new(NodeId::default(), ContainerType::Window));
    assert!(tree.remove_window(lone).is_err());
    assert!(tree.get(lone).is_some());
}

#[test]
fn navigate_moves_to_adjacent_sibling() {
    let mut tree = WindowTree::new();
    let mut ws = Container::new(NodeId::default(), ContainerType::Workspace);
    ws.layout = LayoutMode::SplitH;
    let ws_id = tree.insert(ws);
    let left = tree.insert_window(WindowHandle::new(1), ws_id).unwrap();
    let right = tree.insert_window(WindowHandle::new(2), ws_id).unwrap();
    assert_eq!(tree.focused(), Some(right));

    assert_eq!(tree.navigate_focus(Direction::Left), Some(left));
    assert_eq!(tree.focused(), Some(left));
    assert_eq!(tree.navigate_focus(Direction::Right), Some(right));
    assert_eq!(tree.focused(), Some(right));
}

#[test]
fn navigate_left_at_edge_keeps_focus() {
    let mut tree = WindowTree::new();
    let mut ws = Container::new(NodeId::default(), ContainerType::Workspace);
    ws.layout = LayoutMode::SplitH;
    let ws_id = tree.insert(ws);
    let left = tree.insert_window(WindowHandle::new(1), ws_id).unwrap();
    let _right = tree.insert_window(WindowHandle::new(2), ws_id).unwrap();
    tree.set_focused(Some(left));

    // leftmost child of a horizontal split: no move, focus unchanged
    assert_eq!(tree.navigate_focus(Direction::Left), None);
    assert_eq!(tree.focused(), Some(left));
}

#[test]
fn split_wraps_focused_node() {
    let mut tree = WindowTree::new();
    let ws = tree.insert(Container::new(NodeId::default(), ContainerType::Workspace));
    let a = tree.insert_window(WindowHandle::new(1), ws).unwrap();
    let b = tree.insert_window(WindowHandle::new(2), ws).unwrap();
    assert_eq!(tree.focused(), Some(b));

    let split = tree
        .split_focused(codeverse::container::Orientation::Vertical)
        .unwrap();
    // the split takes the focused node's place and adopts it
    assert_eq!(tree.children(ws), vec![a, split]);
    assert_eq!(tree.children(split), vec![b]);
    assert_eq!(tree.parent(b), Some(split));
    assert_eq!(tree.get(split).unwrap().layout, LayoutMode::SplitV);
    assert_eq!(tree.focused(), Some(b));
}

#[test]
fn split_without_focus_fails() {
    let mut tree = WindowTree::new();
    assert!(tree.split_focused(codeverse::container::Orientation::Horizontal).is_err());
}

#[test]
fn change_layout_reshapes_parent() {
    let mut tree = WindowTree::new();
    let ws = tree.insert(Container::new(NodeId::default(), ContainerType::Workspace));
    let _w = tree.insert_window(WindowHandle::new(1), ws).unwrap();
    tree.change_layout(LayoutMode::Tabbed).unwrap();
    assert_eq!(tree.get(ws).unwrap().layout, LayoutMode::Tabbed);
}

#[test]
fn change_layout_without_focus_fails() {
    let mut tree = WindowTree::new();
    assert!(tree.change_layout(LayoutMode::Stacking).is_err());
}

#[test]
fn find_windows_lists_window_nodes() {
    let mut tree = WindowTree::new();
    let ws = tree.insert(Container::new(NodeId::default(), ContainerType::Workspace));
    let a = tree.insert_window(WindowHandle::new(1), ws).unwrap();
    let b = tree.insert_window(WindowHandle::new(2), ws).unwrap();
    let windows = tree.find_windows();
    assert_eq!(windows.len(), 2);
    assert!(windows.contains(&a));
    assert!(windows.contains(&b));
    assert!(!windows.contains(&ws));
}

#[test]
fn find_window_by_handle_compares_surfaces() {
    let mut tree = WindowTree::new();
    let ws = tree.insert(Container::new(NodeId::default(), ContainerType::Workspace));
    let a = tree.insert_window(WindowHandle::new(7), ws).unwrap();
    let _b = tree.insert_window(WindowHandle::new(8), ws).unwrap();
    assert_eq!(tree.find_window_by_handle(&WindowHandle::new(7)), Some(a));
    assert_eq!(tree.find_window_by_handle(&WindowHandle::new(9)), None);
}

#[test]
fn find_workspace_climbs_to_workspace() {
    let mut tree = WindowTree::new();
    let ws = tree.insert(Container::new(NodeId::default(), ContainerType::Workspace));
    let w = tree.insert_window(WindowHandle::new(1), ws).unwrap();
    assert_eq!(tree.find_workspace(w), Some(ws));
    assert_eq!(tree.find_workspace(ws), Some(ws));
    let lone = tree.insert(Container::new(NodeId::default(), ContainerType::Window));
    assert_eq!(tree.find_workspace(lone), None);
}

#[test]
fn first_focusable_descendant_finds_first_leaf() {
    let mut tree = WindowTree::new();
    let ws = tree.insert(Container::new(NodeId::default(), ContainerType::Workspace));
    let a = tree.insert_window(WindowHandle::new(1), ws).unwrap();
    let _b = tree.insert_window(WindowHandle::new(2), ws).unwrap();
    assert_eq!(tree.first_focusable_descendant(ws), Some(a));

    let bare = tree.insert(Container::new(NodeId::default(), ContainerType::Split));
    assert_eq!(tree.first_focusable_descendant(bare), None);
}

#[test]
fn add_child_refuses_stale_child() {
    let mut tree = WindowTree::new();
    let parent = tree.insert(Container::new(NodeId::default(), ContainerType::Split));
    let child = tree.insert(Container::new(NodeId::default(), ContainerType::Window));
    tree.remove(child);
    // a dangling identifier never enters a child list
    assert!(tree.add_child(parent, child).is_err());
    assert!(tree.children(parent).is_empty());
}

#[test]
fn remove_child_is_a_no_op_when_not_listed() {
    let mut tree = WindowTree::new();
    let p = tree.insert(Container::new(NodeId::default(), ContainerType::Split));
    let q = tree.insert(Container::new(NodeId::default(), ContainerType::Split));
    let child = tree.insert(Container::new(NodeId::default(), ContainerType::Window));
    tree.add_child(q, child).unwrap();

    // the child lives under q, so unlinking it from p changes nothing
    tree.remove_child(p, child);
    assert_eq!(tree.parent(child), Some(q));
    assert_eq!(tree.children(q), vec![child]);

    // unlinking twice from the real parent is idempotent
    tree.remove_child(q, child);
    tree.remove_child(q, child);
    assert_eq!(tree.parent(child), None);
    assert!(tree.children(q).is_empty());
}

#[test]
fn insert_window_failure_changes_nothing() {
    let mut tree = WindowTree::new();
    let ws = tree.insert(Container::new(NodeId::default(), ContainerType::Workspace));
    tree.remove(ws);
    // the workspace is gone and nothing is focused: insertion fails and
    // leaves no orphan node behind
    assert!(tree.insert_window(WindowHandle::new(1), ws).is_err());
    assert!(tree.find_windows().is_empty());
    assert_eq!(tree.focused(), None);
}
