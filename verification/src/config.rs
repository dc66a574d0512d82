//! Configuration records: the tunable settings of the compositor core, with
//! their standard values. Reading and writing configuration files happens
//! outside; these are the plain records the core works with.

use vstd::prelude::*;

verus! {

/// General compositor settings.
#[derive(Debug)]
pub struct GeneralConfig {
    /// Border width in pixels.
    pub border_width: u32,
    /// Gap width between windows in pixels.
    pub gap_width: u32,
    /// Default layout mode for new workspaces.
    pub default_layout: String,
    /// Whether focus follows the mouse.
    pub focus_follows_mouse: bool,
    /// Whether window borders are drawn.
    pub borders_enabled: bool,
    /// Whether window shadows are drawn.
    pub shadows_enabled: bool,
    /// Title bar height for floating windows, in pixels.
    pub title_bar_height: u32,
}

impl Default for GeneralConfig {
    /// The standard general settings.
    fn default() -> (c: Self)
        ensures
            c.border_width == 2,
            c.gap_width == 10,
            c.default_layout@ == "splith"@,
            c.focus_follows_mouse == false,
            c.borders_enabled == true,
            c.shadows_enabled == false,
            c.title_bar_height == 30,
    {
        GeneralConfig {
            border_width: default_border_width(),
            gap_width: default_gap_width(),
            default_layout: default_layout(),
            focus_follows_mouse: false,
            borders_enabled: true,
            shadows_enabled: false,
            title_bar_height: default_title_bar_height(),
        }
    }
}

/// The standard truth value for settings that default to on.
pub fn default_true() -> (v: bool)
    ensures
        v == true,
{
    true
}

/// The standard floating title bar height.
pub fn default_title_bar_height() -> (v: u32)
    ensures
        v == 30,
{
    30
}

/// The standard border width.
pub fn default_border_width() -> (v: u32)
    ensures
        v == 2,
{
    2
}

/// The standard gap width.
pub fn default_gap_width() -> (v: u32)
    ensures
        v == 10,
{
    10
}

/// The standard layout mode name.
pub fn default_layout() -> (v: String)
    ensures
        v@ == "splith"@,
{
    "splith".to_owned()
}

/// Theme configuration.
#[derive(Debug)]
pub struct ThemeConfig {
    /// Whether the standard palette is used.
    pub use_nord: bool,
    /// Custom focused border color, as a hex word.
    pub focused_border: Option<String>,
    /// Custom unfocused border color, as a hex word.
    pub unfocused_border: Option<String>,
    /// Custom background color, as a hex word.
    pub background: Option<String>,
}

impl Default for ThemeConfig {
    /// The standard theme settings.
    fn default() -> (c: Self)
        ensures
            c.use_nord == true,
            c.focused_border is None,
            c.unfocused_border is None,
            c.background is None,
    {
        ThemeConfig {
            use_nord: default_use_nord(),
            focused_border: None,
            unfocused_border: None,
            background: None,
        }
    }
}

/// The standard choice of palette.
pub fn default_use_nord() -> (v: bool)
    ensures
        v == true,
{
    true
}

/// Workspaces configuration.
#[derive(Debug)]
pub struct WorkspacesConfig {
    /// Number of workspaces.
    pub count: usize,
    /// Workspace display names.
    pub names: Vec<String>,
}

impl Default for WorkspacesConfig {
    /// The standard workspace settings.
    fn default() -> (c: Self)
        ensures
            c.count == 10,
            c.names@.len() == 0,
    {
        WorkspacesConfig { count: default_workspace_count(), names: Vec::new() }
    }
}

/// The standard workspace count.
pub fn default_workspace_count() -> (v: usize)
    ensures
        v == 10,
{
    10
}

/// Launcher configuration.
#[derive(Debug)]
pub struct LauncherConfig {
    /// Additional directories searched for application entries.
    pub additional_paths: Vec<String>,
    /// Greatest number of results shown.
    pub max_results: usize,
    /// Whether descriptions are shown beside results.
    pub show_descriptions: bool,
}

impl Default for LauncherConfig {
    /// The standard launcher settings.
    fn default() -> (c: Self)
        ensures
            c.additional_paths@.len() == 0,
            c.max_results == 10,
            c.show_descriptions == true,
    {
        LauncherConfig {
            additional_paths: Vec::new(),
            max_results: default_max_results(),
            show_descriptions: default_show_descriptions(),
        }
    }
}

/// The standard result limit.
pub fn default_max_results() -> (v: usize)
    ensures
        v == 10,
{
    10
}

/// The standard choice for showing descriptions.
pub fn default_show_descriptions() -> (v: bool)
    ensures
        v == true,
{
    true
}

/// Wallpaper configuration.
#[derive(Debug)]
pub struct WallpaperConfig {
    /// Path to the wallpaper image.
    pub path: Option<String>,
    /// Scaling mode word: fill, fit, stretch, center or tile.
    pub mode: String,
    /// Wallpapers set for single workspaces.
    pub per_workspace: Vec<WorkspaceWallpaper>,
}

/// One workspace's own wallpaper.
#[derive(Debug)]
pub struct WorkspaceWallpaper {
    /// Workspace number, 1-based.
    pub workspace: usize,
    /// Path to the wallpaper image.
    pub path: String,
    /// Scaling mode word overriding the global one.
    pub mode: Option<String>,
}

impl Default for WallpaperConfig {
    /// The standard wallpaper settings.
    fn default() -> (c: Self)
        ensures
            c.path is None,
            c.mode@ == "fill"@,
            c.per_workspace@.len() == 0,
    {
        WallpaperConfig { path: None, mode: default_wallpaper_mode(), per_workspace: Vec::new() }
    }
}

/// The standard wallpaper mode word.
pub fn default_wallpaper_mode() -> (v: String)
    ensures
        v@ == "fill"@,
{
    "fill".to_owned()
}

} // verus!
