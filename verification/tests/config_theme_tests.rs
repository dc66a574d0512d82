use codeverse::config::{GeneralConfig, LauncherConfig, ThemeConfig, WallpaperConfig,
    WorkspacesConfig};
use codeverse::theme::{NordColor, NordColors};

#[test]
fn general_defaults() {
    let general = GeneralConfig::default();
    assert_eq!(general.border_width, 2);
    assert_eq!(general.gap_width, 10);
    assert_eq!(general.default_layout, "splith");
    assert!(!general.focus_follows_mouse);
    assert!(general.borders_enabled);
    assert_eq!(general.title_bar_height, 30);
}

#[test]
fn section_defaults() {
    assert!(ThemeConfig::default().use_nord);
    assert_eq!(WorkspacesConfig::default().count, 10);
    assert_eq!(LauncherConfig::default().max_results, 10);
    assert!(LauncherConfig::default().show_descriptions);
    let wallpaper = WallpaperConfig::default();
    assert!(wallpaper.path.is_none());
    assert_eq!(wallpaper.mode, "fill");
}

#[test]
fn nord_color_channels() {
    let color = NordColor::rgb(0x88, 0xc0, 0xd0);
    assert_eq!(color.to_rgb(), (0x88, 0xc0, 0xd0));
    assert_eq!(color.to_rgba(), (0x88, 0xc0, 0xd0, 255));
    let translucent = NordColor::rgba(1, 2, 3, 128);
    assert_eq!(translucent.to_rgba(), (1, 2, 3, 128));
}

#[test]
fn nord_palette_values() {
    let palette = NordColors::default();
    assert_eq!(palette.nord0.to_rgb(), (0x2e, 0x34, 0x40));
    assert_eq!(palette.nord3.to_rgb(), (0x4c, 0x56, 0x6a));
    assert_eq!(palette.nord8.to_rgb(), (0x88, 0xc0, 0xd0));
    assert_eq!(palette.nord11.to_rgb(), (0xbf, 0x61, 0x6a));
}
