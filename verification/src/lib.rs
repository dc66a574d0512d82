//! Core of a tiling/floating window manager: a container tree stored in a
//! generational arena, layout computation for split/stacking/tabbed modes,
//! directional focus navigation, workspace multiplexing, and a floating-window
//! manager with a move/resize grab state machine.
//!
//! The tree and every operation on it are verified; the surrounding process
//! (display protocol, rendering, input decoding, configuration files) is kept
//! outside and talks to this crate through plain values.

pub mod config;
pub mod container;
pub mod floating;
pub mod keybindings;
pub mod launcher;
pub mod layout;
pub mod navigation;
pub mod strutil;
pub mod theme;
pub mod tree;
pub mod wallpaper;
pub mod workspace;

pub use container::{Container, ContainerType, LayoutMode, NodeId, Orientation, Rectangle,
    WindowHandle};
pub use floating::{FloatingManager, MouseOperation, ResizeEdge};
pub use layout::{SplitLayout, StackingLayout, TabbedLayout};
pub use navigation::Direction;
pub use tree::WindowTree;
pub use workspace::{WorkspaceManager, MAX_WORKSPACES};
