use codeverse::container::{Container, ContainerType, NodeId, Rectangle};
use codeverse::floating::{FloatingManager, MouseOperation, ResizeEdge};
use codeverse::tree::WindowTree;

fn floating_window(tree: &mut WindowTree, geometry: Rectangle) -> NodeId {
    let mut container = Container::new(NodeId::default(), ContainerType::Window);
    container.geometry = geometry;
    container.is_floating = true;
    tree.insert(container)
}

#[test]
fn test_toggle_floating() {
    let mut tree = WindowTree::new();
    let mut floating_mgr = FloatingManager::new();

    // Create a window
    let mut container = Container::new(NodeId::default(), ContainerType::Window);
    container.geometry = Rectangle::new(0, 0, 400, 300);
    let window_id = tree.insert(container);

    let screen = Rectangle::new(0, 0, 1920, 1080);

    // Make it floating
    floating_mgr.toggle_floating(&mut tree, window_id, screen).unwrap();
    assert!(tree.get(window_id).unwrap().is_floating);
    assert_eq!(floating_mgr.get_stack().len(), 1);

    // Make it tiled again
    floating_mgr.toggle_floating(&mut tree, window_id, screen).unwrap();
    assert!(!tree.get(window_id).unwrap().is_floating);
    assert_eq!(floating_mgr.get_stack().len(), 0);
}

#[test]
fn test_move_window() {
    let mut tree = WindowTree::new();
    let mut floating_mgr = FloatingManager::new();

    // Create a floating window
    let window_id = floating_window(&mut tree, Rectangle::new(100, 100, 400, 300));
    floating_mgr.raise_window(window_id);

    // Start move
    floating_mgr.start_move(&tree, window_id, 150, 150).unwrap();

    // Update position
    floating_mgr.update_operation(&mut tree, 200, 200).unwrap();

    // Check new position (moved by 50, 50)
    let geom = tree.get(window_id).unwrap().geometry;
    assert_eq!(geom.x, 150);
    assert_eq!(geom.y, 150);

    floating_mgr.finish_operation();
}

#[test]
fn test_resize_window() {
    let mut tree = WindowTree::new();
    let mut floating_mgr = FloatingManager::new();

    // Create a floating window
    let window_id = floating_window(&mut tree, Rectangle::new(100, 100, 400, 300));
    floating_mgr.raise_window(window_id);

    // Start resize from bottom-right
    floating_mgr
        .start_resize(&tree, window_id, 500, 400, ResizeEdge::BottomRight)
        .unwrap();

    // Resize by dragging +50, +50
    floating_mgr.update_operation(&mut tree, 550, 450).unwrap();

    // Check new size
    let geom = tree.get(window_id).unwrap().geometry;
    assert_eq!(geom.width, 450);
    assert_eq!(geom.height, 350);

    floating_mgr.finish_operation();
}

#[test]
fn test_stacking_order() {
    let mut tree = WindowTree::new();
    let mut floating_mgr = FloatingManager::new();

    // Create three distinct windows
    let id1 = floating_window(&mut tree, Rectangle::new(0, 0, 0, 0));
    let id2 = floating_window(&mut tree, Rectangle::new(0, 0, 0, 0));
    let id3 = floating_window(&mut tree, Rectangle::new(0, 0, 0, 0));

    floating_mgr.raise_window(id1);
    floating_mgr.raise_window(id2);
    floating_mgr.raise_window(id3);

    // Raise id1 to top
    floating_mgr.raise_window(id1);

    assert_eq!(floating_mgr.get_stack().to_vec(), vec![id2, id3, id1]);
}

#[test]
fn float_round_trip_restores_geometry() {
    let mut tree = WindowTree::new();
    let mut floating_mgr = FloatingManager::new();
    let mut container = Container::new(NodeId::default(), ContainerType::Window);
    container.geometry = Rectangle::new(37, 91, 417, 293);
    let window_id = tree.insert(container);
    let screen = Rectangle::new(0, 0, 1920, 1080);

    floating_mgr.toggle_floating(&mut tree, window_id, screen).unwrap();
    assert_ne!(tree.get(window_id).unwrap().geometry, Rectangle::new(37, 91, 417, 293));
    floating_mgr.toggle_floating(&mut tree, window_id, screen).unwrap();
    // the pre-float geometry comes back exactly
    assert_eq!(tree.get(window_id).unwrap().geometry, Rectangle::new(37, 91, 417, 293));
    assert_eq!(tree.get(window_id).unwrap().floating_original_geometry, None);
}

#[test]
fn float_centers_at_default_size() {
    let mut tree = WindowTree::new();
    let mut floating_mgr = FloatingManager::new();
    let mut container = Container::new(NodeId::default(), ContainerType::Window);
    container.geometry = Rectangle::new(0, 0, 640, 480);
    let window_id = tree.insert(container);
    let screen = Rectangle::new(0, 0, 1920, 1080);

    floating_mgr.toggle_floating(&mut tree, window_id, screen).unwrap();
    // 1920x1080 screen, 800x600 default size: centered at (560, 240)
    assert_eq!(tree.get(window_id).unwrap().geometry, Rectangle::new(560, 240, 800, 600));
}

#[test]
fn raise_then_hit_test_finds_raised_window() {
    let mut tree = WindowTree::new();
    let mut floating_mgr = FloatingManager::new();
    // two overlapping floating windows
    let lower = floating_window(&mut tree, Rectangle::new(0, 0, 400, 300));
    let upper = floating_window(&mut tree, Rectangle::new(100, 100, 400, 300));
    floating_mgr.raise_window(lower);
    floating_mgr.raise_window(upper);

    // (150, 150) is covered by both; the raised one wins
    assert_eq!(floating_mgr.find_window_at(&tree, 150, 150), Some(upper));
    floating_mgr.raise_window(lower);
    assert_eq!(floating_mgr.find_window_at(&tree, 150, 150), Some(lower));
    // outside both
    assert_eq!(floating_mgr.find_window_at(&tree, 5000, 5000), None);
}

#[test]
fn resize_bottom_right_clamps_to_minimum() {
    let mut tree = WindowTree::new();
    let mut floating_mgr = FloatingManager::new();
    let window_id = floating_window(&mut tree, Rectangle::new(100, 100, 400, 300));
    floating_mgr.raise_window(window_id);

    floating_mgr
        .start_resize(&tree, window_id, 500, 400, ResizeEdge::BottomRight)
        .unwrap();
    // drag far up and left: width floors at 200, height at 100; x,y stay
    floating_mgr.update_operation(&mut tree, 0, 0).unwrap();
    let geom = tree.get(window_id).unwrap().geometry;
    assert_eq!(geom, Rectangle::new(100, 100, 200, 100));
}

#[test]
fn resize_top_left_keeps_bottom_right_corner() {
    let mut tree = WindowTree::new();
    let mut floating_mgr = FloatingManager::new();
    let window_id = floating_window(&mut tree, Rectangle::new(100, 100, 400, 300));
    floating_mgr.raise_window(window_id);

    floating_mgr
        .start_resize(&tree, window_id, 100, 100, ResizeEdge::TopLeft)
        .unwrap();
    // drag by (+50, +30): width and height shrink, origin moves
    floating_mgr.update_operation(&mut tree, 150, 130).unwrap();
    let geom = tree.get(window_id).unwrap().geometry;
    assert_eq!(geom, Rectangle::new(150, 130, 350, 270));
    // the bottom-right corner has not moved
    assert_eq!(geom.x + geom.width as i32, 500);
    assert_eq!(geom.y + geom.height as i32, 400);
}

#[test]
fn remove_window_cancels_its_grab() {
    let mut tree = WindowTree::new();
    let mut floating_mgr = FloatingManager::new();
    let window_id = floating_window(&mut tree, Rectangle::new(0, 0, 400, 300));
    floating_mgr.raise_window(window_id);
    floating_mgr.start_move(&tree, window_id, 10, 10).unwrap();
    assert!(matches!(floating_mgr.current_operation(), MouseOperation::Moving { .. }));

    floating_mgr.remove_window(window_id);
    assert!(matches!(floating_mgr.current_operation(), MouseOperation::Idle));
    assert!(floating_mgr.get_stack().is_empty());
}

#[test]
fn start_move_requires_floating() {
    let mut tree = WindowTree::new();
    let mut floating_mgr = FloatingManager::new();
    let tiled = tree.insert(Container::new(NodeId::default(), ContainerType::Window));
    assert!(floating_mgr.start_move(&tree, tiled, 0, 0).is_err());
    assert!(floating_mgr
        .start_resize(&tree, tiled, 0, 0, ResizeEdge::Left)
        .is_err());
}

#[test]
fn title_bar_hit_test() {
    let mut tree = WindowTree::new();
    let floating_mgr = FloatingManager::new();
    let mut container = Container::new(NodeId::default(), ContainerType::Window);
    container.geometry = Rectangle::new(100, 100, 400, 300);
    container.is_floating = true;
    let window_id = tree.insert(container);

    // within the 30-pixel strip below the top edge
    assert!(floating_mgr.is_in_title_bar(&tree, window_id, 150, 120));
    // below the strip
    assert!(!floating_mgr.is_in_title_bar(&tree, window_id, 150, 131));
    // left of the window
    assert!(!floating_mgr.is_in_title_bar(&tree, window_id, 99, 120));
}

#[test]
fn detect_resize_edge_classifies_borders() {
    let mut tree = WindowTree::new();
    let floating_mgr = FloatingManager::new();
    let window_id = floating_window(&mut tree, Rectangle::new(100, 100, 400, 300));

    // corners take precedence over single edges
    assert_eq!(
        floating_mgr.detect_resize_edge(&tree, window_id, 102, 103),
        Some(ResizeEdge::TopLeft)
    );
    assert_eq!(
        floating_mgr.detect_resize_edge(&tree, window_id, 498, 399),
        Some(ResizeEdge::BottomRight)
    );
    // single edges
    assert_eq!(
        floating_mgr.detect_resize_edge(&tree, window_id, 300, 105),
        Some(ResizeEdge::Top)
    );
    assert_eq!(
        floating_mgr.detect_resize_edge(&tree, window_id, 495, 250),
        Some(ResizeEdge::Right)
    );
    assert_eq!(
        floating_mgr.detect_resize_edge(&tree, window_id, 300, 395),
        Some(ResizeEdge::Bottom)
    );
    assert_eq!(
        floating_mgr.detect_resize_edge(&tree, window_id, 105, 250),
        Some(ResizeEdge::Left)
    );
    // the middle selects nothing
    assert_eq!(floating_mgr.detect_resize_edge(&tree, window_id, 300, 250), None);
}
