//! Floating windows: an independent bottom-to-top stacking order, and the
//! move/resize grab state machine that drives a floating window's geometry
//! from pointer input.

use vstd::prelude::*;
use crate::container::{Container, NodeId, Rectangle};
use crate::tree::{without_id, WindowTree};

verus! {

/// An in-progress mouse operation on a floating window.
#[derive(Debug, Clone, Copy, PartialEq, Eq, Structural)]
pub enum MouseOperation {
    /// Moving a floating window: the pointer position and window geometry at
    /// grab time.
    Moving { window: NodeId, start_x: i32, start_y: i32, original_geometry: Rectangle },
    /// Resizing a floating window from one of its edges or corners.
    Resizing {
        window: NodeId,
        start_x: i32,
        start_y: i32,
        original_geometry: Rectangle,
        edge: ResizeEdge,
    },
    /// No operation in progress.
    Idle,
}

/// Edge or corner a resize drags.
#[derive(Debug, Clone, Copy, PartialEq, Eq, Structural)]
pub enum ResizeEdge {
    Top,
    Bottom,
    Left,
    Right,
    TopLeft,
    TopRight,
    BottomLeft,
    BottomRight,
}

/// The larger of two values.
pub open spec fn max_i(a: int, b: int) -> int {
    if a >= b {
        a
    } else {
        b
    }
}

/// Where a window centered in `screen` at the given default size sits
/// horizontally; when the window is larger than the screen, the odd pixel
/// stays on the near side (division rounds toward zero).
pub open spec fn float_center_x(screen: Rectangle, dw: int) -> int {
    if screen.width >= dw {
        screen.x + (screen.width - dw) / 2
    } else {
        screen.x - (dw - screen.width) / 2
    }
}

/// Where a window centered in `screen` at the given default size sits
/// vertically.
pub open spec fn float_center_y(screen: Rectangle, dh: int) -> int {
    if screen.height >= dh {
        screen.y + (screen.height - dh) / 2
    } else {
        screen.y - (dh - screen.height) / 2
    }
}

/// How a container changes when it starts floating: it is marked floating,
/// its tiled geometry is saved for the return trip, and it is centered on
/// the screen at the default size. Nothing else about it changes.
pub open spec fn enters_float(
    pre: Container,
    post: Container,
    screen: Rectangle,
    dw: int,
    dh: int,
) -> bool {
    &&& post.is_floating
    &&& post.floating_original_geometry == Some(pre.geometry)
    &&& post.geometry.x == float_center_x(screen, dw)
    &&& post.geometry.y == float_center_y(screen, dh)
    &&& post.geometry.width == dw
    &&& post.geometry.height == dh
    &&& post == (Container {
        is_floating: post.is_floating,
        floating_original_geometry: post.floating_original_geometry,
        geometry: post.geometry,
        ..pre
    })
}

/// How a container changes when it stops floating: the saved geometry is
/// restored (kept as-is when nothing was saved) and the saved field is
/// cleared. Nothing else about it changes.
pub open spec fn leaves_float(pre: Container, post: Container) -> bool {
    &&& !post.is_floating
    &&& post.geometry == (match pre.floating_original_geometry {
        Some(g) => g,
        None => pre.geometry,
    })
    &&& post.floating_original_geometry is None
    &&& post == (Container {
        is_floating: post.is_floating,
        floating_original_geometry: post.floating_original_geometry,
        geometry: post.geometry,
        ..pre
    })
}

/// Toggling a window to floating and back restores its geometry exactly:
/// whatever the screen and default size, a container that enters floating
/// from state `a` reaching state `b`, and then leaves floating reaching
/// state `c`, ends with the geometry it started with.
pub proof fn lemma_float_roundtrip(
    a: Container,
    b: Container,
    c: Container,
    screen: Rectangle,
    dw: int,
    dh: int,
)
    requires
        enters_float(a, b, screen, dw, dh),
        leaves_float(b, c),
    ensures
        c.geometry == a.geometry,
{
}

/// The bounds the resize arithmetic needs so that no intermediate value
/// leaves the coordinate type: sizes and minimums representable, the dragged
/// size within range, and the anchored corner within range.
pub open spec fn resize_bounds_ok(
    orig: Rectangle,
    dx: int,
    dy: int,
    min_width: int,
    min_height: int,
) -> bool {
    &&& orig.width <= i32::MAX
    &&& orig.height <= i32::MAX
    &&& 0 <= min_width <= i32::MAX
    &&& 0 <= min_height <= i32::MAX
    &&& i32::MIN <= orig.width + dx <= i32::MAX
    &&& i32::MIN <= orig.width - dx <= i32::MAX
    &&& i32::MIN <= orig.height + dy <= i32::MAX
    &&& i32::MIN <= orig.height - dy <= i32::MAX
    &&& i32::MIN <= orig.x + dx <= i32::MAX
    &&& i32::MIN <= orig.x + orig.width - min_width <= i32::MAX
    &&& i32::MIN <= orig.y + dy <= i32::MAX
    &&& i32::MIN <= orig.y + orig.height - min_height <= i32::MAX
}

/// The new width when the drag moves the right edge by `dx`, floored at the
/// minimum.
pub open spec fn grow_w(orig: Rectangle, dx: int, min_width: int) -> int {
    max_i(orig.width + dx, min_width)
}

/// The new width when the drag moves the left edge by `dx`, floored at the
/// minimum.
pub open spec fn shrink_w(orig: Rectangle, dx: int, min_width: int) -> int {
    max_i(orig.width - dx, min_width)
}

/// The new height for a bottom-edge drag.
pub open spec fn grow_h(orig: Rectangle, dy: int, min_height: int) -> int {
    max_i(orig.height + dy, min_height)
}

/// The new height for a top-edge drag.
pub open spec fn shrink_h(orig: Rectangle, dy: int, min_height: int) -> int {
    max_i(orig.height - dy, min_height)
}

/// The rectangle a resize produces: per edge, the dragged sides move by the
/// pointer delta (width and height floored at the minimum size), and for
/// left/top edges the origin shifts so the opposite side stays fixed.
pub open spec fn spec_resized(
    orig: Rectangle,
    edge: ResizeEdge,
    dx: int,
    dy: int,
    min_width: int,
    min_height: int,
) -> Rectangle {
    let gw = grow_w(orig, dx, min_width);
    let sw = shrink_w(orig, dx, min_width);
    let gh = grow_h(orig, dy, min_height);
    let sh = shrink_h(orig, dy, min_height);
    match edge {
        ResizeEdge::Right => Rectangle { width: gw as u32, ..orig },
        ResizeEdge::Bottom => Rectangle { height: gh as u32, ..orig },
        ResizeEdge::Left => Rectangle {
            x: (orig.x + orig.width - sw) as i32,
            width: sw as u32,
            ..orig
        },
        ResizeEdge::Top => Rectangle {
            y: (orig.y + orig.height - sh) as i32,
            height: sh as u32,
            ..orig
        },
        ResizeEdge::TopLeft => Rectangle {
            x: (orig.x + orig.width - sw) as i32,
            y: (orig.y + orig.height - sh) as i32,
            width: sw as u32,
            height: sh as u32,
        },
        ResizeEdge::TopRight => Rectangle {
            x: orig.x,
            y: (orig.y + orig.height - sh) as i32,
            width: gw as u32,
            height: sh as u32,
        },
        ResizeEdge::BottomLeft => Rectangle {
            x: (orig.x + orig.width - sw) as i32,
            y: orig.y,
            width: sw as u32,
            height: gh as u32,
        },
        ResizeEdge::BottomRight => Rectangle { width: gw as u32, height: gh as u32, ..orig },
    }
}

/// Apply a resize drag to a rectangle. A drag from the bottom-right corner
/// grows width and height by the deltas (floored at the minimum size) and
/// never moves the origin; a drag from the top-left corner shrinks them by
/// the deltas (floored likewise) while the bottom-right corner stays fixed;
/// the other edges behave per their axes.
pub fn resize_rect(
    orig: Rectangle,
    edge: ResizeEdge,
    dx: i32,
    dy: i32,
    min_width: u32,
    min_height: u32,
) -> (r: Rectangle)
    requires
        resize_bounds_ok(orig, dx as int, dy as int, min_width as int, min_height as int),
    ensures
        r == spec_resized(orig, edge, dx as int, dy as int, min_width as int, min_height as int),
        edge is BottomRight ==> r.x == orig.x && r.y == orig.y
            && r.width == grow_w(orig, dx as int, min_width as int)
            && r.height == grow_h(orig, dy as int, min_height as int),
        edge is TopLeft ==> r.x + r.width == orig.x + orig.width
            && r.y + r.height == orig.y + orig.height
            && r.width == shrink_w(orig, dx as int, min_width as int)
            && r.height == shrink_h(orig, dy as int, min_height as int),
{
    let min_w: i32 = min_width as i32;
    let min_h: i32 = min_height as i32;
    let ow: i32 = orig.width as i32;
    let oh: i32 = orig.height as i32;
    match edge {
        ResizeEdge::Right => {
            let w = if ow + dx >= min_w { ow + dx } else { min_w };
            Rectangle { x: orig.x, y: orig.y, width: w as u32, height: orig.height }
        }
        ResizeEdge::Bottom => {
            let h = if oh + dy >= min_h { oh + dy } else { min_h };
            Rectangle { x: orig.x, y: orig.y, width: orig.width, height: h as u32 }
        }
        ResizeEdge::Left => {
            let w = if ow - dx >= min_w { ow - dx } else { min_w };
            Rectangle { x: orig.x + (ow - w), y: orig.y, width: w as u32, height: orig.height }
        }
        ResizeEdge::Top => {
            let h = if oh - dy >= min_h { oh - dy } else { min_h };
            Rectangle { x: orig.x, y: orig.y + (oh - h), width: orig.width, height: h as u32 }
        }
        ResizeEdge::TopLeft => {
            let w = if ow - dx >= min_w { ow - dx } else { min_w };
            let h = if oh - dy >= min_h { oh - dy } else { min_h };
            Rectangle {
                x: orig.x + (ow - w),
                y: orig.y + (oh - h),
                width: w as u32,
                height: h as u32,
            }
        }
        ResizeEdge::TopRight => {
            let w = if ow + dx >= min_w { ow + dx } else { min_w };
            let h = if oh - dy >= min_h { oh - dy } else { min_h };
            Rectangle { x: orig.x, y: orig.y + (oh - h), width: w as u32, height: h as u32 }
        }
        ResizeEdge::BottomLeft => {
            let w = if ow - dx >= min_w { ow - dx } else { min_w };
            let h = if oh + dy >= min_h { oh + dy } else { min_h };
            Rectangle { x: orig.x + (ow - w), y: orig.y, width: w as u32, height: h as u32 }
        }
        ResizeEdge::BottomRight => {
            let w = if ow + dx >= min_w { ow + dx } else { min_w };
            let h = if oh + dy >= min_h { oh + dy } else { min_h };
            Rectangle { x: orig.x, y: orig.y, width: w as u32, height: h as u32 }
        }
    }
}

/// The topmost entry of the floating stack (its end is its top) that is a
/// live floating window containing the point.
pub open spec fn topmost_hit(stack: Seq<NodeId>, tree: WindowTree, x: int, y: int) -> Option<
    NodeId,
>
    decreases stack.len(),
{
    if stack.len() == 0 {
        None
    } else {
        let w = stack.last();
        if tree.has_node(w) && tree.node(w).is_floating
            && tree.node(w).geometry.spec_contains_point(x, y) {
            Some(w)
        } else {
            topmost_hit(stack.drop_last(), tree, x, y)
        }
    }
}

/// Raising a window and then hit-testing a point it covers finds that
/// window: after `w` moves to the top of the stack, the topmost hit at any
/// point inside `w` (live and floating) is `w`, whatever lower windows also
/// cover the point.
pub proof fn lemma_raise_then_hit(stack: Seq<NodeId>, tree: WindowTree, w: NodeId, x: int, y: int)
    requires
        tree.has_node(w),
        tree.node(w).is_floating,
        tree.node(w).geometry.spec_contains_point(x, y),
    ensures
        topmost_hit(without_id(stack, w).push(w), tree, x, y) == Some(w),
{
    let raised = without_id(stack, w).push(w);
    assert(raised.last() == w);
}


/// The absolute value.
pub open spec fn abs_i(a: int) -> int {
    if a >= 0 {
        a
    } else {
        -a
    }
}

/// The edge or corner a point near a rectangle's border selects: a side
/// counts when the point lies within the threshold of it, corners take
/// precedence over single sides, and a point near no side selects nothing.
pub open spec fn edge_at(geom: Rectangle, x: int, y: int, threshold: int) -> Option<ResizeEdge> {
    let near_left = abs_i(x - geom.x) < threshold;
    let near_right = abs_i(x - (geom.x + geom.width)) < threshold;
    let near_top = abs_i(y - geom.y) < threshold;
    let near_bottom = abs_i(y - (geom.y + geom.height)) < threshold;
    if near_top && near_left {
        Some(ResizeEdge::TopLeft)
    } else if near_top && near_right {
        Some(ResizeEdge::TopRight)
    } else if near_bottom && near_left {
        Some(ResizeEdge::BottomLeft)
    } else if near_bottom && near_right {
        Some(ResizeEdge::BottomRight)
    } else if near_top {
        Some(ResizeEdge::Top)
    } else if near_bottom {
        Some(ResizeEdge::Bottom)
    } else if near_left {
        Some(ResizeEdge::Left)
    } else if near_right {
        Some(ResizeEdge::Right)
    } else {
        None
    }
}

/// Manages floating windows: their bottom-to-top stacking order, the one
/// mouse grab that may be in progress, and the fixed size limits and
/// defaults.
pub struct FloatingManager {
    stack: Vec<NodeId>,
    operation: MouseOperation,
    min_width: u32,
    min_height: u32,
    default_width: u32,
    default_height: u32,
    title_bar_height: u32,
}

impl FloatingManager {
    /// The stacking order, bottom first, top last.
    pub closed spec fn spec_stack(&self) -> Seq<NodeId> {
        self.stack@
    }

    /// The grab in progress, if any.
    pub closed spec fn spec_operation(&self) -> MouseOperation {
        self.operation
    }

    /// Smallest width a resize may reach.
    pub closed spec fn spec_min_width(&self) -> int {
        self.min_width as int
    }

    /// Smallest height a resize may reach.
    pub closed spec fn spec_min_height(&self) -> int {
        self.min_height as int
    }

    /// Width a window gets when it starts floating.
    pub closed spec fn spec_default_width(&self) -> int {
        self.default_width as int
    }

    /// Height a window gets when it starts floating.
    pub closed spec fn spec_default_height(&self) -> int {
        self.default_height as int
    }

    /// Height of the title bar drawn on floating windows.
    pub closed spec fn spec_title_bar_height(&self) -> int {
        self.title_bar_height as int
    }

    /// The manager's configuration: fixed at construction, never changed by
    /// any operation.
    pub open spec fn same_config(pre: Self, post: Self) -> bool {
        &&& post.spec_min_width() == pre.spec_min_width()
        &&& post.spec_min_height() == pre.spec_min_height()
        &&& post.spec_default_width() == pre.spec_default_width()
        &&& post.spec_default_height() == pre.spec_default_height()
        &&& post.spec_title_bar_height() == pre.spec_title_bar_height()
    }

    /// A fresh manager: empty stack, no grab, the standard minimum and
    /// default sizes and title bar height.
    pub fn new() -> (m: Self)
        ensures
            m.spec_stack() == Seq::<NodeId>::empty(),
            m.spec_operation() is Idle,
            m.spec_min_width() == 200,
            m.spec_min_height() == 100,
            m.spec_default_width() == 800,
            m.spec_default_height() == 600,
            m.spec_title_bar_height() == 30,
    {
        FloatingManager {
            stack: Vec::new(),
            operation: MouseOperation::Idle,
            min_width: 200,
            min_height: 100,
            default_width: 800,
            default_height: 600,
            title_bar_height: 30,
        }
    }

    /// Flip a window between tiled and floating. Entering floating saves the
    /// tiled geometry, centers the window at the default size on the screen
    /// and raises it onto the floating stack; leaving restores the saved
    /// geometry and removes it from the stack. Fails, changing nothing, when
    /// the window is gone.
    pub fn toggle_floating(
        &mut self,
        tree: &mut WindowTree,
        window_id: NodeId,
        screen_geometry: Rectangle,
    ) -> (r: Result<(), String>)
        requires
            screen_geometry.x + screen_geometry.width <= i32::MAX,
            screen_geometry.y + screen_geometry.height <= i32::MAX,
            i32::MIN <= screen_geometry.x - old(self).spec_default_width(),
            i32::MIN <= screen_geometry.y - old(self).spec_default_height(),
        ensures
            r is Ok <==> old(tree).has_node(window_id),
            r is Err ==> *final(self) == *old(self) && *final(tree) == *old(tree),
            r is Ok ==> Self::same_config(*old(self), *final(self))
                && final(self).spec_operation() == old(self).spec_operation()
                && WindowTree::one_node_frame(*old(tree), *final(tree), window_id),
            r is Ok && !old(tree).node(window_id).is_floating ==> enters_float(
                old(tree).node(window_id),
                final(tree).node(window_id),
                screen_geometry,
                old(self).spec_default_width(),
                old(self).spec_default_height(),
            ) && final(self).spec_stack() == (if old(self).spec_stack().contains(window_id) {
                old(self).spec_stack()
            } else {
                old(self).spec_stack().push(window_id)
            }),
            r is Ok && old(tree).node(window_id).is_floating ==> leaves_float(
                old(tree).node(window_id),
                final(tree).node(window_id),
            ) && final(self).spec_stack() == without_id(old(self).spec_stack(), window_id),
    {
        let is_floating = match tree.get(window_id) {
            Some(c) => c.is_floating,
            None => {
                return Err("Window not found".to_owned());
            }
        };
        if is_floating {
            self.make_tiled(tree, window_id);
        } else {
            self.make_floating(tree, window_id, screen_geometry);
        }
        Ok(())
    }

    /// Enter floating: save the tiled geometry, center at the default size,
    /// and put the window on top of the stack unless already stacked.
    fn make_floating(&mut self, tree: &mut WindowTree, window_id: NodeId, screen: Rectangle)
        requires
            old(tree).has_node(window_id),
            screen.x + screen.width <= i32::MAX,
            screen.y + screen.height <= i32::MAX,
            i32::MIN <= screen.x - old(self).spec_default_width(),
            i32::MIN <= screen.y - old(self).spec_default_height(),
        ensures
            Self::same_config(*old(self), *final(self)),
            final(self).spec_operation() == old(self).spec_operation(),
            WindowTree::one_node_frame(*old(tree), *final(tree), window_id),
            enters_float(
                old(tree).node(window_id),
                final(tree).node(window_id),
                screen,
                old(self).spec_default_width(),
                old(self).spec_default_height(),
            ),
            final(self).spec_stack() == (if old(self).spec_stack().contains(window_id) {
                old(self).spec_stack()
            } else {
                old(self).spec_stack().push(window_id)
            }),
    {
        let saved = match tree.get(window_id) {
            Some(c) => c.geometry,
            None => Rectangle::new(0, 0, 0, 0),
        };
        tree.set_floating_original_geometry(window_id, Some(saved));
        tree.set_is_floating(window_id, true);

        let x: i32 = if screen.width >= self.default_width {
            screen.x + ((screen.width - self.default_width) / 2) as i32
        } else {
            screen.x - ((self.default_width - screen.width) / 2) as i32
        };
        let y: i32 = if screen.height >= self.default_height {
            screen.y + ((screen.height - self.default_height) / 2) as i32
        } else {
            screen.y - ((self.default_height - screen.height) / 2) as i32
        };
        tree.set_geometry(
            window_id,
            Rectangle { x, y, width: self.default_width, height: self.default_height },
        );

        if !contains_id(&self.stack, window_id) {
            self.stack.push(window_id);
        }
    }

    /// Leave floating: restore the saved geometry (keep the current one when
    /// none was saved) and drop the window from the stack.
    fn make_tiled(&mut self, tree: &mut WindowTree, window_id: NodeId)
        requires
            old(tree).has_node(window_id),
        ensures
            Self::same_config(*old(self), *final(self)),
            final(self).spec_operation() == old(self).spec_operation(),
            WindowTree::one_node_frame(*old(tree), *final(tree), window_id),
            leaves_float(old(tree).node(window_id), final(tree).node(window_id)),
            final(self).spec_stack() == without_id(old(self).spec_stack(), window_id),
    {
        tree.set_is_floating(window_id, false);
        let restore = match tree.get(window_id) {
            Some(c) => c.floating_original_geometry,
            None => None,
        };
        match restore {
            Some(g) => {
                tree.set_geometry(window_id, g);
            }
            None => {}
        }
        tree.set_floating_original_geometry(window_id, None);

        let kept = crate::tree::retain_other_ids(&self.stack, window_id);
        self.stack = kept;
    }

    /// Begin a move grab on a floating window, recording the pointer anchor
    /// and the geometry at grab time, and raise the window. Fails, changing
    /// nothing, when the window is gone or not floating.
    pub fn start_move(
        &mut self,
        tree: &WindowTree,
        window_id: NodeId,
        cursor_x: i32,
        cursor_y: i32,
    ) -> (r: Result<(), String>)
        ensures
            r is Ok <==> tree.has_node(window_id) && tree.node(window_id).is_floating,
            r is Err ==> *final(self) == *old(self),
            r is Ok ==> Self::same_config(*old(self), *final(self))
                && final(self).spec_operation() == (MouseOperation::Moving {
                    window: window_id,
                    start_x: cursor_x,
                    start_y: cursor_y,
                    original_geometry: tree.node(window_id).geometry,
                })
                && final(self).spec_stack() == without_id(
                    old(self).spec_stack(),
                    window_id,
                ).push(window_id),
    {
        let geometry = match tree.get(window_id) {
            Some(c) => {
                if !c.is_floating {
                    return Err("Window is not floating".to_owned());
                }
                c.geometry
            }
            None => {
                return Err("Window not found".to_owned());
            }
        };
        self.operation = MouseOperation::Moving {
            window: window_id,
            start_x: cursor_x,
            start_y: cursor_y,
            original_geometry: geometry,
        };
        self.raise_window(window_id);
        Ok(())
    }

    /// Begin a resize grab on a floating window from the given edge,
    /// recording the pointer anchor and the geometry at grab time, and raise
    /// the window. Fails, changing nothing, when the window is gone or not
    /// floating.
    pub fn start_resize(
        &mut self,
        tree: &WindowTree,
        window_id: NodeId,
        cursor_x: i32,
        cursor_y: i32,
        edge: ResizeEdge,
    ) -> (r: Result<(), String>)
        ensures
            r is Ok <==> tree.has_node(window_id) && tree.node(window_id).is_floating,
            r is Err ==> *final(self) == *old(self),
            r is Ok ==> Self::same_config(*old(self), *final(self))
                && final(self).spec_operation() == (MouseOperation::Resizing {
                    window: window_id,
                    start_x: cursor_x,
                    start_y: cursor_y,
                    original_geometry: tree.node(window_id).geometry,
                    edge,
                })
                && final(self).spec_stack() == without_id(
                    old(self).spec_stack(),
                    window_id,
                ).push(window_id),
    {
        let geometry = match tree.get(window_id) {
            Some(c) => {
                if !c.is_floating {
                    return Err("Window is not floating".to_owned());
                }
                c.geometry
            }
            None => {
                return Err("Window not found".to_owned());
            }
        };
        self.operation = MouseOperation::Resizing {
            window: window_id,
            start_x: cursor_x,
            start_y: cursor_y,
            original_geometry: geometry,
            edge,
        };
        self.raise_window(window_id);
        Ok(())
    }

    /// What the grab arithmetic needs of the pointer position: deltas and
    /// shifted coordinates stay within the coordinate type.
    pub open spec fn update_bounds_ok(op: MouseOperation, cx: int, cy: int, min_w: int,
        min_h: int) -> bool {
        match op {
            MouseOperation::Idle => true,
            MouseOperation::Moving { start_x, start_y, original_geometry, .. } => {
                let dx = cx - start_x;
                let dy = cy - start_y;
                &&& i32::MIN <= dx <= i32::MAX
                &&& i32::MIN <= dy <= i32::MAX
                &&& i32::MIN <= original_geometry.x + dx <= i32::MAX
                &&& i32::MIN <= original_geometry.y + dy <= i32::MAX
            },
            MouseOperation::Resizing { start_x, start_y, original_geometry, .. } => {
                let dx = cx - start_x;
                let dy = cy - start_y;
                &&& i32::MIN <= dx <= i32::MAX
                &&& i32::MIN <= dy <= i32::MAX
                &&& resize_bounds_ok(original_geometry, dx, dy, min_w, min_h)
            },
        }
    }

    /// Drive the grab in progress from the new pointer position: a move grab
    /// shifts the window's corner by the pointer delta at its original
    /// size; a resize grab reshapes it per the grabbed edge with the minimum
    /// size floor; without a grab nothing happens. The grab itself stays in
    /// progress until `finish_operation`.
    pub fn update_operation(&mut self, tree: &mut WindowTree, cursor_x: i32, cursor_y: i32) -> (r:
        Result<(), String>)
        requires
            Self::update_bounds_ok(
                old(self).spec_operation(),
                cursor_x as int,
                cursor_y as int,
                old(self).spec_min_width(),
                old(self).spec_min_height(),
            ),
        ensures
            r is Ok,
            *final(self) == *old(self),
            old(self).spec_operation() is Idle ==> *final(tree) == *old(tree),
            old(self).spec_operation() matches MouseOperation::Moving {
                window,
                start_x,
                start_y,
                original_geometry,
            } ==> WindowTree::one_node_frame(*old(tree), *final(tree), window)
                && (!old(tree).has_node(window) ==> *final(tree) == *old(tree))
                && (old(tree).has_node(window) ==> final(tree).node(window) == (Container {
                    geometry: Rectangle {
                        x: (original_geometry.x + cursor_x - start_x) as i32,
                        y: (original_geometry.y + cursor_y - start_y) as i32,
                        width: old(tree).node(window).geometry.width,
                        height: old(tree).node(window).geometry.height,
                    },
                    ..old(tree).node(window)
                })),
            old(self).spec_operation() matches MouseOperation::Resizing {
                window,
                start_x,
                start_y,
                original_geometry,
                edge,
            } ==> WindowTree::one_node_frame(*old(tree), *final(tree), window)
                && (!old(tree).has_node(window) ==> *final(tree) == *old(tree))
                && (old(tree).has_node(window) ==> final(tree).node(window) == (Container {
                    geometry: spec_resized(
                        original_geometry,
                        edge,
                        cursor_x - start_x,
                        cursor_y - start_y,
                        old(self).spec_min_width(),
                        old(self).spec_min_height(),
                    ),
                    ..old(tree).node(window)
                })),
    {
        match self.operation {
            MouseOperation::Moving { window, start_x, start_y, original_geometry } => {
                let dx = cursor_x - start_x;
                let dy = cursor_y - start_y;
                let current = match tree.get(window) {
                    Some(c) => c.geometry,
                    None => {
                        return Ok(());
                    }
                };
                tree.set_geometry(
                    window,
                    Rectangle {
                        x: original_geometry.x + dx,
                        y: original_geometry.y + dy,
                        width: current.width,
                        height: current.height,
                    },
                );
            }
            MouseOperation::Resizing { window, start_x, start_y, original_geometry, edge } => {
                let dx = cursor_x - start_x;
                let dy = cursor_y - start_y;
                if tree.get(window).is_some() {
                    let resized = resize_rect(
                        original_geometry,
                        edge,
                        dx,
                        dy,
                        self.min_width,
                        self.min_height,
                    );
                    tree.set_geometry(window, resized);
                }
            }
            MouseOperation::Idle => {}
        }
        Ok(())
    }

    /// End the grab in progress; geometry keeps whatever the last update set.
    pub fn finish_operation(&mut self)
        ensures
            final(self).spec_operation() is Idle,
            final(self).spec_stack() == old(self).spec_stack(),
            Self::same_config(*old(self), *final(self)),
    {
        self.operation = MouseOperation::Idle;
    }

    /// The grab in progress, if any.
    pub fn current_operation(&self) -> (op: MouseOperation)
        ensures
            op == self.spec_operation(),
    {
        self.operation
    }

    /// Move a window to the top of the stacking order, entering it there
    /// when it was not stacked at all.
    pub fn raise_window(&mut self, window_id: NodeId)
        ensures
            final(self).spec_stack() == without_id(old(self).spec_stack(), window_id).push(
                window_id,
            ),
            final(self).spec_operation() == old(self).spec_operation(),
            Self::same_config(*old(self), *final(self)),
    {
        let kept = crate::tree::retain_other_ids(&self.stack, window_id);
        self.stack = kept;
        self.stack.push(window_id);
    }

    /// The floating windows in stacking order, bottom to top.
    pub fn get_stack(&self) -> (stack: &[NodeId])
        ensures
            stack@ == self.spec_stack(),
    {
        self.stack.as_slice()
    }

    /// Forget a window entirely: drop it from the stack and cancel the grab
    /// when the grab was on it.
    pub fn remove_window(&mut self, window_id: NodeId)
        ensures
            final(self).spec_stack() == without_id(old(self).spec_stack(), window_id),
            Self::same_config(*old(self), *final(self)),
            final(self).spec_operation() == (match old(self).spec_operation() {
                MouseOperation::Moving { window, .. } => if window == window_id {
                    MouseOperation::Idle
                } else {
                    old(self).spec_operation()
                },
                MouseOperation::Resizing { window, .. } => if window == window_id {
                    MouseOperation::Idle
                } else {
                    old(self).spec_operation()
                },
                MouseOperation::Idle => MouseOperation::Idle,
            }),
    {
        let kept = crate::tree::retain_other_ids(&self.stack, window_id);
        self.stack = kept;

        let cancel = match self.operation {
            MouseOperation::Moving { window, .. } => window == window_id,
            MouseOperation::Resizing { window, .. } => window == window_id,
            MouseOperation::Idle => false,
        };
        if cancel {
            self.operation = MouseOperation::Idle;
        }
    }

    /// The topmost floating window whose rectangle contains the point:
    /// windows higher in the stack win.
    pub fn find_window_at(&self, tree: &WindowTree, x: i32, y: i32) -> (found: Option<NodeId>)
        ensures
            found == topmost_hit(self.spec_stack(), *tree, x as int, y as int),
    {
        let mut i: usize = self.stack.len();
        proof {
            assert(self.spec_stack().subrange(0, i as int) =~= self.spec_stack());
        }
        while i > 0
            invariant
                i <= self.stack@.len(),
                topmost_hit(self.spec_stack(), *tree, x as int, y as int) == topmost_hit(
                    self.spec_stack().subrange(0, i as int),
                    *tree,
                    x as int,
                    y as int,
                ),
            decreases i,
        {
            i = i - 1;
            let window_id = self.stack[i];
            proof {
                assert(self.spec_stack().subrange(0, i + 1).last() == window_id);
                assert(self.spec_stack().subrange(0, i + 1).drop_last()
                    =~= self.spec_stack().subrange(0, i as int));
            }
            match tree.get(window_id) {
                Some(c) => {
                    if c.is_floating && c.geometry.contains_point(x, y) {
                        return Some(window_id);
                    }
                }
                None => {}
            }
        }
        None
    }

    /// Height of the title bar drawn on floating windows.
    pub fn title_bar_height(&self) -> (h: u32)
        ensures
            h == self.spec_title_bar_height(),
    {
        self.title_bar_height
    }


    /// The resize edge a pointer position selects on a floating window,
    /// within 10 pixels of its border; corners take precedence over single
    /// edges. Nothing for a gone or tiled window or a point near no border.
    pub fn detect_resize_edge(&self, tree: &WindowTree, window_id: NodeId, x: i32, y: i32) -> (edge:
        Option<ResizeEdge>)
        ensures
            edge == (if tree.has_node(window_id) && tree.node(window_id).is_floating {
                edge_at(tree.node(window_id).geometry, x as int, y as int, 10)
            } else {
                None
            }),
    {
        let container = match tree.get(window_id) {
            Some(c) => c,
            None => {
                return None;
            }
        };
        if !container.is_floating {
            return None;
        }

        let geom = container.geometry;
        let border_threshold: i64 = 10;
        let x_wide = x as i64;
        let y_wide = y as i64;

        let left = abs_i64(x_wide - geom.x as i64) < border_threshold;
        let right = abs_i64(x_wide - (geom.x as i64 + geom.width as i64)) < border_threshold;
        let top = abs_i64(y_wide - geom.y as i64) < border_threshold;
        let bottom = abs_i64(y_wide - (geom.y as i64 + geom.height as i64)) < border_threshold;

        if top && left {
            Some(ResizeEdge::TopLeft)
        } else if top && right {
            Some(ResizeEdge::TopRight)
        } else if bottom && left {
            Some(ResizeEdge::BottomLeft)
        } else if bottom && right {
            Some(ResizeEdge::BottomRight)
        } else if top {
            Some(ResizeEdge::Top)
        } else if bottom {
            Some(ResizeEdge::Bottom)
        } else if left {
            Some(ResizeEdge::Left)
        } else if right {
            Some(ResizeEdge::Right)
        } else {
            None
        }
    }

    /// Whether the point lies in a floating window's title bar: within the
    /// window's width and within the title-bar height below its top edge.
    pub fn is_in_title_bar(&self, tree: &WindowTree, window_id: NodeId, x: i32, y: i32) -> (hit:
        bool)
        ensures
            hit == (tree.has_node(window_id) && tree.node(window_id).is_floating && ({
                let g = tree.node(window_id).geometry;
                g.x <= x < g.x + g.width && g.y <= y < g.y + self.spec_title_bar_height()
            })),
    {
        match tree.get(window_id) {
            Some(c) => {
                if !c.is_floating {
                    return false;
                }
                let g = c.geometry;
                let x_wide = x as i64;
                let y_wide = y as i64;
                x_wide >= g.x as i64 && x_wide < g.x as i64 + g.width as i64
                    && y_wide >= g.y as i64
                    && y_wide < g.y as i64 + self.title_bar_height as i64
            }
            None => false,
        }
    }
}


/// The absolute value of a coordinate difference; the inputs stay far from
/// the extremes, so negation cannot overflow.
fn abs_i64(a: i64) -> (r: i64)
    requires
        a != i64::MIN,
    ensures
        r as int == abs_i(a as int),
{
    if a >= 0 {
        a
    } else {
        -a
    }
}

/// Whether the list holds the identifier.
fn contains_id(ids: &Vec<NodeId>, x: NodeId) -> (found: bool)
    ensures
        found == ids@.contains(x),
{
    let mut i: usize = 0;
    while i < ids.len()
        invariant
            i <= ids@.len(),
            forall|j: int| 0 <= j < i ==> ids@[j] != x,
        decreases ids@.len() - i,
    {
        if ids[i] == x {
            assert(ids@[i as int] == x);
            return true;
        }
        i = i + 1;
    }
    false
}

} // verus!
