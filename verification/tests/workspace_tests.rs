use codeverse::container::{Container, ContainerType, NodeId, Rectangle, WindowHandle};
use codeverse::tree::WindowTree;
use codeverse::workspace::WorkspaceManager;

#[test]
fn test_workspace_manager() {
    let mut tree = WindowTree::new();

    // Create output
    let output = Container::new(NodeId::default(), ContainerType::Output);
    let output_id = tree.insert(output);

    // Create workspace manager
    let mut manager = WorkspaceManager::new(&mut tree, output_id);

    // Test initial state
    assert_eq!(manager.active_workspace_num(), 1);
    assert!(manager.active_workspace().is_some());

    // Test switching workspaces
    manager.switch_to_workspace(5);
    assert_eq!(manager.active_workspace_num(), 5);

    // Test invalid workspace
    assert!(manager.switch_to_workspace(11).is_none());
}

#[test]
fn invalid_switch_keeps_active_workspace() {
    let mut tree = WindowTree::new();
    let output_id = tree.insert(Container::new(NodeId::default(), ContainerType::Output));
    let mut manager = WorkspaceManager::new(&mut tree, output_id);
    manager.switch_to_workspace(3);
    assert_eq!(manager.active_workspace_num(), 3);

    // 11 is past the last workspace and 0 is below the first: both fail
    // without touching the active workspace
    assert!(manager.switch_to_workspace(11).is_none());
    assert_eq!(manager.active_workspace_num(), 3);
    assert!(manager.switch_to_workspace(0).is_none());
    assert_eq!(manager.active_workspace_num(), 3);
}

#[test]
fn workspaces_hang_under_output() {
    let mut tree = WindowTree::new();
    let output_id = tree.insert(Container::new(NodeId::default(), ContainerType::Output));
    let manager = WorkspaceManager::new(&mut tree, output_id);

    let all = manager.all_workspaces();
    assert_eq!(all.len(), 10);
    assert_eq!(tree.children(output_id).len(), 10);
    for ws in all {
        let ws_id = ws.unwrap();
        let node = tree.get(ws_id).unwrap();
        assert_eq!(node.container_type, ContainerType::Workspace);
        assert_eq!(node.parent, Some(output_id));
    }
    assert_eq!(manager.output_id(), output_id);
}

#[test]
fn move_window_between_workspaces() {
    let mut tree = WindowTree::new();
    let output_id = tree.insert(Container::new(NodeId::default(), ContainerType::Output));
    let mut manager = WorkspaceManager::new(&mut tree, output_id);

    let ws1 = manager.get_workspace(1).unwrap();
    let w = tree.insert_window(WindowHandle::new(1), ws1).unwrap();
    assert!(manager.workspace_has_windows(&tree, 1));
    assert!(!manager.workspace_has_windows(&tree, 2));

    manager.move_window_to_workspace(&mut tree, w, 2).unwrap();
    let ws2 = manager.get_workspace(2).unwrap();
    assert_eq!(tree.parent(w), Some(ws2));
    assert!(!manager.workspace_has_windows(&tree, 1));
    assert!(manager.workspace_has_windows(&tree, 2));

    // out-of-range target numbers are rejected before any change
    assert!(manager.move_window_to_workspace(&mut tree, w, 0).is_err());
    assert!(manager.move_window_to_workspace(&mut tree, w, 11).is_err());
    assert_eq!(tree.parent(w), Some(ws2));
}

#[test]
fn get_workspace_bounds() {
    let mut tree = WindowTree::new();
    let output_id = tree.insert(Container::new(NodeId::default(), ContainerType::Output));
    let manager = WorkspaceManager::new(&mut tree, output_id);
    assert!(manager.get_workspace(1).is_some());
    assert!(manager.get_workspace(10).is_some());
    assert!(manager.get_workspace(0).is_none());
    assert!(manager.get_workspace(11).is_none());
}

#[test]
fn layout_active_workspace_places_windows() {
    let mut tree = WindowTree::new();
    let output_id = tree.insert(Container::new(NodeId::default(), ContainerType::Output));
    let mut manager = WorkspaceManager::new(&mut tree, output_id);
    let ws1 = manager.get_workspace(1).unwrap();
    let a = tree.insert_window(WindowHandle::new(1), ws1).unwrap();
    let b = tree.insert_window(WindowHandle::new(2), ws1).unwrap();

    manager.layout_active_workspace(&mut tree, Rectangle::new(0, 0, 1000, 500));
    assert_eq!(tree.get(a).unwrap().geometry, Rectangle::new(0, 0, 498, 500));
    assert_eq!(tree.get(b).unwrap().geometry, Rectangle::new(502, 0, 498, 500));
}

#[test]
fn visible_windows_walks_active_workspace() {
    let mut tree = WindowTree::new();
    let output_id = tree.insert(Container::new(NodeId::default(), ContainerType::Output));
    let mut manager = WorkspaceManager::new(&mut tree, output_id);
    let ws1 = manager.get_workspace(1).unwrap();
    let a = tree.insert_window(WindowHandle::new(1), ws1).unwrap();
    let b = tree.insert_window(WindowHandle::new(2), ws1).unwrap();

    assert_eq!(manager.visible_windows(&tree), vec![a, b]);

    // windows on another workspace are not visible
    manager.switch_to_workspace(2);
    assert!(manager.visible_windows(&tree).is_empty());
}
