use codeverse::container::{Container, ContainerType, LayoutMode, NodeId, Rectangle, WindowHandle};
use codeverse::layout::{SplitLayout, StackingLayout, TabbedLayout};
use codeverse::tree::WindowTree;

#[test]
fn test_horizontal_split() {
    let mut tree = WindowTree::new();
    let layout = SplitLayout::new();

    // Create parent container
    let mut parent = Container::new(NodeId::default(), ContainerType::Split);
    parent.layout = LayoutMode::SplitH;
    let parent_id = tree.insert(parent);

    // Create two child windows
    let child1 = Container::new(NodeId::default(), ContainerType::Window);
    let child1_id = tree.insert(child1);
    tree.add_child(parent_id, child1_id).unwrap();

    let child2 = Container::new(NodeId::default(), ContainerType::Window);
    let child2_id = tree.insert(child2);
    tree.add_child(parent_id, child2_id).unwrap();

    // Layout with 1000x1000 geometry
    let geometry = Rectangle::new(0, 0, 1000, 1000);
    layout.layout_horizontal(&mut tree, parent_id, geometry);

    // Check that children are laid out side by side
    let child1_geom = tree.get(child1_id).unwrap().geometry;
    let child2_geom = tree.get(child2_id).unwrap().geometry;

    assert_eq!(child1_geom.y, 0);
    assert_eq!(child2_geom.y, 0);
    assert!(child1_geom.x < child2_geom.x);
}

#[test]
fn test_vertical_split() {
    let mut tree = WindowTree::new();
    let layout = SplitLayout::new();

    // Create parent container
    let mut parent = Container::new(NodeId::default(), ContainerType::Split);
    parent.layout = LayoutMode::SplitV;
    let parent_id = tree.insert(parent);

    // Create two child windows
    let child1 = Container::new(NodeId::default(), ContainerType::Window);
    let child1_id = tree.insert(child1);
    tree.add_child(parent_id, child1_id).unwrap();

    let child2 = Container::new(NodeId::default(), ContainerType::Window);
    let child2_id = tree.insert(child2);
    tree.add_child(parent_id, child2_id).unwrap();

    // Layout with 1000x1000 geometry
    let geometry = Rectangle::new(0, 0, 1000, 1000);
    layout.layout_vertical(&mut tree, parent_id, geometry);

    // Check that children are laid out top and bottom
    let child1_geom = tree.get(child1_id).unwrap().geometry;
    let child2_geom = tree.get(child2_id).unwrap().geometry;

    assert_eq!(child1_geom.x, 0);
    assert_eq!(child2_geom.x, 0);
    assert!(child1_geom.y < child2_geom.y);
}

#[test]
fn test_stacking_layout() {
    let mut tree = WindowTree::new();
    let layout = StackingLayout::new();

    // Create parent container
    let mut parent = Container::new(NodeId::default(), ContainerType::Split);
    parent.layout = LayoutMode::Stacking;
    let parent_id = tree.insert(parent);

    // Create three child windows
    for _ in 0..3 {
        let child = Container::new(NodeId::default(), ContainerType::Window);
        let child_id = tree.insert(child);
        tree.add_child(parent_id, child_id).unwrap();
    }

    // Layout with 1000x1000 geometry
    let geometry = Rectangle::new(0, 0, 1000, 1000);
    layout.layout_stacking(&mut tree, parent_id, geometry);

    // All children should have the same geometry (fullscreen)
    let children = tree.children(parent_id);
    for child_id in children {
        let child_geom = tree.get(child_id).unwrap().geometry;
        assert_eq!(child_geom.width, 1000);
        assert_eq!(child_geom.height, 1000);
    }
}

#[test]
fn test_tabbed_layout() {
    let mut tree = WindowTree::new();
    let layout = TabbedLayout::new();

    // Create parent container
    let mut parent = Container::new(NodeId::default(), ContainerType::Split);
    parent.layout = LayoutMode::Tabbed;
    let parent_id = tree.insert(parent);

    // Create three child windows
    for _ in 0..3 {
        let child = Container::new(NodeId::default(), ContainerType::Window);
        let child_id = tree.insert(child);
        tree.add_child(parent_id, child_id).unwrap();
    }

    // Layout with 1000x1000 geometry
    let geometry = Rectangle::new(0, 0, 1000, 1000);
    layout.layout_tabbed(&mut tree, parent_id, geometry);

    // All children should have the same geometry (minus tab bar)
    let children = tree.children(parent_id);
    for child_id in children {
        let child_geom = tree.get(child_id).unwrap().geometry;
        assert_eq!(child_geom.width, 1000);
        assert_eq!(child_geom.height, 970); // 1000 - 30 (tab bar height)
    }
}

#[test]
fn three_windows_fill_screen_with_gaps() {
    // an empty 1920x1080 workspace with gap 10 and three windows: the first
    // two get the even share 633, the last takes the remainder 634, and the
    // cells start at 0, 643 and 1286
    let mut tree = WindowTree::new();
    let ws = tree.insert(Container::new(NodeId::default(), ContainerType::Workspace));
    let a = tree.insert_window(WindowHandle::new(1), ws).unwrap();
    let b = tree.insert_window(WindowHandle::new(2), ws).unwrap();
    let c = tree.insert_window(WindowHandle::new(3), ws).unwrap();

    let mut layout = SplitLayout::new();
    layout.gap_width = 10;
    layout.layout_horizontal(&mut tree, ws, Rectangle::new(0, 0, 1920, 1080));

    assert_eq!(tree.get(a).unwrap().geometry, Rectangle::new(0, 0, 633, 1080));
    assert_eq!(tree.get(b).unwrap().geometry, Rectangle::new(643, 0, 633, 1080));
    assert_eq!(tree.get(c).unwrap().geometry, Rectangle::new(1286, 0, 634, 1080));

    // widths plus the two gaps cover the full 1920
    assert_eq!(633 + 10 + 633 + 10 + 634, 1920);
}

#[test]
fn split_skips_when_gaps_leave_no_room() {
    let mut tree = WindowTree::new();
    let ws = tree.insert(Container::new(NodeId::default(), ContainerType::Workspace));
    let a = tree.insert_window(WindowHandle::new(1), ws).unwrap();
    let b = tree.insert_window(WindowHandle::new(2), ws).unwrap();
    tree.set_geometry(a, Rectangle::new(7, 7, 7, 7));
    tree.set_geometry(b, Rectangle::new(8, 8, 8, 8));

    let mut layout = SplitLayout::new();
    layout.gap_width = 50;
    // two children need one 50-pixel gap, but only 40 pixels exist
    layout.layout_horizontal(&mut tree, ws, Rectangle::new(0, 0, 40, 40));

    assert_eq!(tree.get(a).unwrap().geometry, Rectangle::new(7, 7, 7, 7));
    assert_eq!(tree.get(b).unwrap().geometry, Rectangle::new(8, 8, 8, 8));
}

#[test]
fn nested_split_uses_child_mode() {
    // an outer horizontal split holding a window and a vertical split of two
    // windows: the inner split partitions its own cell by its own mode
    let mut tree = WindowTree::new();
    let mut outer = Container::new(NodeId::default(), ContainerType::Split);
    outer.layout = LayoutMode::SplitH;
    let outer_id = tree.insert(outer);

    let left = tree.insert(Container::new(NodeId::default(), ContainerType::Window));
    tree.add_child(outer_id, left).unwrap();

    let mut inner = Container::new(NodeId::default(), ContainerType::Split);
    inner.layout = LayoutMode::SplitV;
    let inner_id = tree.insert(inner);
    tree.add_child(outer_id, inner_id).unwrap();

    let top = tree.insert(Container::new(NodeId::default(), ContainerType::Window));
    tree.add_child(inner_id, top).unwrap();
    let bottom = tree.insert(Container::new(NodeId::default(), ContainerType::Window));
    tree.add_child(inner_id, bottom).unwrap();

    let mut layout = SplitLayout::new();
    layout.gap_width = 0;
    layout.layout_horizontal(&mut tree, outer_id, Rectangle::new(0, 0, 1000, 1000));

    assert_eq!(tree.get(left).unwrap().geometry, Rectangle::new(0, 0, 500, 1000));
    assert_eq!(tree.get(inner_id).unwrap().geometry, Rectangle::new(500, 0, 500, 1000));
    assert_eq!(tree.get(top).unwrap().geometry, Rectangle::new(500, 0, 500, 500));
    assert_eq!(tree.get(bottom).unwrap().geometry, Rectangle::new(500, 500, 500, 500));
}

#[test]
fn layout_of_empty_container_changes_nothing() {
    let mut tree = WindowTree::new();
    let ws = tree.insert(Container::new(NodeId::default(), ContainerType::Workspace));
    let layout = SplitLayout::new();
    layout.layout_horizontal(&mut tree, ws, Rectangle::new(0, 0, 100, 100));
    assert_eq!(tree.get(ws).unwrap().geometry, Rectangle::new(0, 0, 0, 0));
}

#[test]
fn calculate_layout_sets_workspace_geometry() {
    let mut tree = WindowTree::new();
    let ws = tree.insert(Container::new(NodeId::default(), ContainerType::Workspace));
    let a = tree.insert_window(WindowHandle::new(1), ws).unwrap();
    let b = tree.insert_window(WindowHandle::new(2), ws).unwrap();

    let screen = Rectangle::new(0, 0, 1000, 500);
    tree.calculate_layout(ws, screen);

    assert_eq!(tree.get(ws).unwrap().geometry, screen);
    // the tree's own pass uses its standard gap of 4: (1000 - 4) / 2 = 498
    assert_eq!(tree.get(a).unwrap().geometry, Rectangle::new(0, 0, 498, 500));
    assert_eq!(tree.get(b).unwrap().geometry, Rectangle::new(502, 0, 498, 500));
}

#[test]
fn rectangle_contains_point_edges() {
    let r = Rectangle::new(10, 20, 30, 40);
    assert!(r.contains_point(10, 20));
    assert!(r.contains_point(39, 59));
    assert!(!r.contains_point(40, 20));
    assert!(!r.contains_point(10, 60));
    assert!(!r.contains_point(9, 20));
}

#[test]
fn layout_mode_from_words() {
    assert_eq!(LayoutMode::from_str("splith"), LayoutMode::SplitH);
    assert_eq!(LayoutMode::from_str("splitv"), LayoutMode::SplitV);
    assert_eq!(LayoutMode::from_str("stacking"), LayoutMode::Stacking);
    assert_eq!(LayoutMode::from_str("tabbed"), LayoutMode::Tabbed);
    assert_eq!(LayoutMode::from_str("anything"), LayoutMode::SplitH);
}
