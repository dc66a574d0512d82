//! Colors and font settings used for window decoration.

use vstd::prelude::*;

verus! {

/// One RGBA color, 8 bits per channel.
#[derive(Debug, Clone, Copy, PartialEq, Eq, Structural)]
pub struct NordColor {
    pub r: u8,
    pub g: u8,
    pub b: u8,
    pub a: u8,
}

impl NordColor {
    /// Fully opaque color from its three channels.
    pub fn rgb(r: u8, g: u8, b: u8) -> (c: Self)
        ensures
            c == (NordColor { r, g, b, a: 255 }),
    {
        NordColor { r, g, b, a: 255 }
    }

    /// Color from all four channels.
    pub fn rgba(r: u8, g: u8, b: u8, a: u8) -> (c: Self)
        ensures
            c == (NordColor { r, g, b, a }),
    {
        NordColor { r, g, b, a }
    }

    /// The three color channels, alpha dropped.
    pub fn to_rgb(&self) -> (t: (u8, u8, u8))
        ensures
            t == ((self.r, self.g, self.b)),
    {
        (self.r, self.g, self.b)
    }

    /// All four channels.
    pub fn to_rgba(&self) -> (t: (u8, u8, u8, u8))
        ensures
            t == ((self.r, self.g, self.b, self.a)),
    {
        (self.r, self.g, self.b, self.a)
    }
}

/// The full palette: polar night (dark backgrounds), snow storm (light
/// foregrounds), frost (blue accents) and aurora (colorful accents).
#[derive(Debug, Clone, Copy)]
pub struct NordColors {
    pub nord0: NordColor,
    pub nord1: NordColor,
    pub nord2: NordColor,
    pub nord3: NordColor,
    pub nord4: NordColor,
    pub nord5: NordColor,
    pub nord6: NordColor,
    pub nord7: NordColor,
    pub nord8: NordColor,
    pub nord9: NordColor,
    pub nord10: NordColor,
    pub nord11: NordColor,
    pub nord12: NordColor,
    pub nord13: NordColor,
    pub nord14: NordColor,
    pub nord15: NordColor,
}

/// The palette's fixed values.
pub open spec fn nord_palette() -> NordColors {
    NordColors {
        nord0: NordColor { r: 0x2e, g: 0x34, b: 0x40, a: 255 },
        nord1: NordColor { r: 0x3b, g: 0x42, b: 0x52, a: 255 },
        nord2: NordColor { r: 0x43, g: 0x4c, b: 0x5e, a: 255 },
        nord3: NordColor { r: 0x4c, g: 0x56, b: 0x6a, a: 255 },
        nord4: NordColor { r: 0xd8, g: 0xde, b: 0xe9, a: 255 },
        nord5: NordColor { r: 0xe5, g: 0xe9, b: 0xf0, a: 255 },
        nord6: NordColor { r: 0xec, g: 0xef, b: 0xf4, a: 255 },
        nord7: NordColor { r: 0x8f, g: 0xbc, b: 0xbb, a: 255 },
        nord8: NordColor { r: 0x88, g: 0xc0, b: 0xd0, a: 255 },
        nord9: NordColor { r: 0x81, g: 0xa1, b: 0xc1, a: 255 },
        nord10: NordColor { r: 0x5e, g: 0x81, b: 0xac, a: 255 },
        nord11: NordColor { r: 0xbf, g: 0x61, b: 0x6a, a: 255 },
        nord12: NordColor { r: 0xd0, g: 0x87, b: 0x70, a: 255 },
        nord13: NordColor { r: 0xeb, g: 0xcb, b: 0x8b, a: 255 },
        nord14: NordColor { r: 0xa3, g: 0xbe, b: 0x8c, a: 255 },
        nord15: NordColor { r: 0xb4, g: 0x8e, b: 0xad, a: 255 },
    }
}

impl Default for NordColors {
    /// The standard palette.
    fn default() -> (c: Self)
        ensures
            c == nord_palette(),
    {
        NordColors {
            nord0: NordColor::rgb(0x2e, 0x34, 0x40),
            nord1: NordColor::rgb(0x3b, 0x42, 0x52),
            nord2: NordColor::rgb(0x43, 0x4c, 0x5e),
            nord3: NordColor::rgb(0x4c, 0x56, 0x6a),
            nord4: NordColor::rgb(0xd8, 0xde, 0xe9),
            nord5: NordColor::rgb(0xe5, 0xe9, 0xf0),
            nord6: NordColor::rgb(0xec, 0xef, 0xf4),
            nord7: NordColor::rgb(0x8f, 0xbc, 0xbb),
            nord8: NordColor::rgb(0x88, 0xc0, 0xd0),
            nord9: NordColor::rgb(0x81, 0xa1, 0xc1),
            nord10: NordColor::rgb(0x5e, 0x81, 0xac),
            nord11: NordColor::rgb(0xbf, 0x61, 0x6a),
            nord12: NordColor::rgb(0xd0, 0x87, 0x70),
            nord13: NordColor::rgb(0xeb, 0xcb, 0x8b),
            nord14: NordColor::rgb(0xa3, 0xbe, 0x8c),
            nord15: NordColor::rgb(0xb4, 0x8e, 0xad),
        }
    }
}

/// Font families, weights and sizes for titles and interface text.
#[derive(Debug)]
pub struct FontConfig {
    pub title_family: String,
    pub ui_family: String,
    pub title_weight: u32,
    pub ui_weight: u32,
    pub title_size: u32,
    pub input_size: u32,
    pub item_size: u32,
    pub description_size: u32,
    pub hint_size: u32,
}

impl Default for FontConfig {
    /// Sans-serif text at the standard weights and sizes.
    fn default() -> (c: Self)
        ensures
            c.title_family@ == "sans-serif"@,
            c.ui_family@ == "sans-serif"@,
            c.title_weight == 600,
            c.ui_weight == 400,
            c.title_size == 18,
            c.input_size == 16,
            c.item_size == 14,
            c.description_size == 12,
            c.hint_size == 11,
    {
        FontConfig {
            title_family: "sans-serif".to_owned(),
            ui_family: "sans-serif".to_owned(),
            title_weight: 600,
            ui_weight: 400,
            title_size: 18,
            input_size: 16,
            item_size: 14,
            description_size: 12,
            hint_size: 11,
        }
    }
}

} // verus!
