//! Node types of the container tree: kinds, layout modes, rectangles,
//! identifiers, and the container record itself.

use vstd::prelude::*;
use crate::theme::NordColor;

verus! {

/// Kind of node in the container tree. Only `Window` and `Floating` are
/// leaves that can never own children.
#[derive(Debug, Clone, Copy, PartialEq, Eq, Structural)]
pub enum ContainerType {
    /// Root of the entire tree.
    Root,
    /// Physical display output.
    Output,
    /// Virtual workspace (desktop).
    Workspace,
    /// Horizontal or vertical split container.
    Split,
    /// Stacking layout container.
    Stacked,
    /// Tabbed layout container.
    Tabbed,
    /// Actual window backed by an external surface.
    Window,
    /// Floating window container.
    Floating,
}

/// Axis of a split container.
#[derive(Debug, Clone, Copy, PartialEq, Eq, Structural)]
pub enum Orientation {
    Horizontal,
    Vertical,
}

/// How a container partitions its rectangle among its children.
#[derive(Debug, Clone, Copy, PartialEq, Eq, Structural)]
pub enum LayoutMode {
    /// Side-by-side split.
    SplitH,
    /// Top-and-bottom split.
    SplitV,
    /// Every child gets the whole rectangle.
    Stacking,
    /// Every child gets the rectangle below a reserved tab strip.
    Tabbed,
}

/// The layout mode a configuration word names; anything unrecognized falls
/// back to the horizontal split.
pub open spec fn layout_mode_of(s: Seq<char>) -> LayoutMode {
    if s == "splitv"@ {
        LayoutMode::SplitV
    } else if s == "stacking"@ {
        LayoutMode::Stacking
    } else if s == "tabbed"@ {
        LayoutMode::Tabbed
    } else {
        LayoutMode::SplitH
    }
}

impl LayoutMode {
    /// Parse a layout mode from its configuration word; anything
    /// unrecognized falls back to the horizontal split.
    pub fn from_str(s: &str) -> (mode: Self)
        ensures
            mode == layout_mode_of(s@),
    {
        if crate::strutil::str_eq(s, "splitv") {
            LayoutMode::SplitV
        } else if crate::strutil::str_eq(s, "stacking") {
            LayoutMode::Stacking
        } else if crate::strutil::str_eq(s, "tabbed") {
            LayoutMode::Tabbed
        } else {
            LayoutMode::SplitH
        }
    }

    /// The axis of a split mode; stacking and tabbed modes have none.
    pub open spec fn spec_orientation(&self) -> Option<Orientation> {
        match self {
            LayoutMode::SplitH => Some(Orientation::Horizontal),
            LayoutMode::SplitV => Some(Orientation::Vertical),
            _ => None,
        }
    }

    /// The axis of a split mode; stacking and tabbed modes have none.
    #[verifier::when_used_as_spec(spec_orientation)]
    pub fn orientation(&self) -> (o: Option<Orientation>)
        ensures
            o == self.spec_orientation(),
    {
        match self {
            LayoutMode::SplitH => Some(Orientation::Horizontal),
            LayoutMode::SplitV => Some(Orientation::Vertical),
            _ => None,
        }
    }
}

/// Axis-aligned rectangle in the shared logical coordinate space.
#[derive(Debug, Clone, Copy, PartialEq, Eq, Structural)]
pub struct Rectangle {
    pub x: i32,
    pub y: i32,
    pub width: u32,
    pub height: u32,
}

impl Rectangle {
    /// Rectangle from its corner and size.
    pub fn new(x: i32, y: i32, width: u32, height: u32) -> (r: Self)
        ensures
            r == (Rectangle { x, y, width, height }),
    {
        Rectangle { x, y, width, height }
    }

    /// Whether the point lies inside: at or right of the left edge and
    /// strictly left of the right edge, and likewise vertically.
    pub open spec fn spec_contains_point(&self, x: int, y: int) -> bool {
        &&& self.x <= x < self.x + self.width
        &&& self.y <= y < self.y + self.height
    }

    /// Whether the point lies inside the rectangle (edges on the left and
    /// top count as inside, on the right and bottom as outside).
    pub fn contains_point(&self, x: i32, y: i32) -> (inside: bool)
        ensures
            inside == self.spec_contains_point(x as int, y as int),
    {
        let x_wide: i64 = x as i64;
        let y_wide: i64 = y as i64;
        x_wide >= self.x as i64
            && x_wide < self.x as i64 + self.width as i64
            && y_wide >= self.y as i64
            && y_wide < self.y as i64 + self.height as i64
    }
}

/// Stable identifier of an arena slot together with the generation the slot
/// had when the node was created; a removed or reused slot makes the
/// identifier miss instead of aliasing a newer node.
#[derive(Debug, Clone, Copy, PartialEq, Eq, Hash, Structural)]
pub struct NodeId {
    pub slot: usize,
    pub generation: u64,
}

impl Default for NodeId {
    /// A null identifier: generations of live nodes start at 1, so this
    /// never refers to a node.
    fn default() -> (id: Self)
        ensures
            id == (NodeId { slot: 0, generation: 0 }),
    {
        NodeId { slot: 0, generation: 0 }
    }
}

/// Opaque handle to the external surface a window represents; the tree never
/// inspects it beyond comparing identities.
#[derive(Debug, Clone, Copy, PartialEq, Eq, Structural)]
pub struct WindowHandle {
    pub surface_id: u64,
}

impl WindowHandle {
    /// Handle carrying the given surface identity.
    pub fn new(surface_id: u64) -> (h: Self)
        ensures
            h == (WindowHandle { surface_id }),
    {
        WindowHandle { surface_id }
    }
}

/// A node in the container tree.
pub struct Container {
    /// Identifier recorded at creation.
    pub id: NodeId,
    /// Kind of this container.
    pub container_type: ContainerType,
    /// Parent container (`None` for a root).
    pub parent: Option<NodeId>,
    /// Child containers, in layout order.
    pub children: Vec<NodeId>,
    /// Position and size.
    pub geometry: Rectangle,
    /// How this container's children are laid out.
    pub layout: LayoutMode,
    /// Whether this container is the focused one.
    pub focused: bool,
    /// Border width in pixels.
    pub border_width: u32,
    /// Current border color.
    pub border_color: NordColor,
    /// Surface handle, present only on `Window` nodes.
    pub window: Option<WindowHandle>,
    /// Window title, for display.
    pub title: Option<String>,
    /// Application identifier.
    pub app_id: Option<String>,
    /// Whether this window floats above the tiled layer.
    pub is_floating: bool,
    /// Geometry saved when the window started floating, restored when it
    /// returns to tiling.
    pub floating_original_geometry: Option<Rectangle>,
    /// Last size reported to the surface owner, to suppress repeats.
    pub last_configured_size: Option<(u32, u32)>,
}

impl Container {
    /// A fresh container of the given kind: no relations, zero geometry,
    /// horizontal split layout, unfocused, with the standard border.
    pub fn new(id: NodeId, container_type: ContainerType) -> (c: Self)
        ensures
            c.id == id,
            c.container_type == container_type,
            c.parent is None,
            c.children@ == Seq::<NodeId>::empty(),
            c.geometry == (Rectangle { x: 0, y: 0, width: 0, height: 0 }),
            c.layout == LayoutMode::SplitH,
            c.focused == false,
            c.border_width == 2,
            c.border_color == (NordColor { r: 0x4c, g: 0x56, b: 0x6a, a: 255 }),
            c.window is None,
            c.title is None,
            c.app_id is None,
            c.is_floating == false,
            c.floating_original_geometry is None,
            c.last_configured_size is None,
    {
        Container {
            id,
            container_type,
            parent: None,
            children: Vec::new(),
            geometry: Rectangle::new(0, 0, 0, 0),
            layout: LayoutMode::SplitH,
            focused: false,
            border_width: 2,
            border_color: NordColor::rgb(0x4c, 0x56, 0x6a),
            window: None,
            title: None,
            app_id: None,
            is_floating: false,
            floating_original_geometry: None,
            last_configured_size: None,
        }
    }

    /// Whether this kind of container may own children: every kind but
    /// `Window` and `Floating`.
    pub open spec fn spec_can_have_children(&self) -> bool {
        !(self.container_type == ContainerType::Window
            || self.container_type == ContainerType::Floating)
    }

    /// Whether this kind of container may own children.
    #[verifier::when_used_as_spec(spec_can_have_children)]
    pub fn can_have_children(&self) -> (can: bool)
        ensures
            can == self.spec_can_have_children(),
    {
        !(matches!(self.container_type, ContainerType::Window | ContainerType::Floating))
    }

    /// Whether this container currently has no children.
    pub fn is_leaf(&self) -> (leaf: bool)
        ensures
            leaf == (self.children@.len() == 0),
    {
        self.children.is_empty()
    }

    /// Pick the border color for the current focus state; no other field
    /// changes.
    pub fn update_border_color(&mut self, focused_color: NordColor, unfocused_color: NordColor)
        ensures
            final(self).border_color == if old(self).focused {
                focused_color
            } else {
                unfocused_color
            },
            *final(self) == (Container {
                border_color: final(self).border_color,
                ..*old(self)
            }),
    {
        self.border_color = if self.focused {
            focused_color
        } else {
            unfocused_color
        };
    }
}

} // verus!
