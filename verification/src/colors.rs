//! Color palette and semantic colors of the dark minimal theme, as premultiplied sRGBA bytes.

use vstd::prelude::*;

verus! {

/// Raw palette tokens, each `[r, g, b, a]` with premultiplied alpha (opaque colors have `a = 0xFF`).
pub struct Palette;

impl Palette {
    pub const CANVAS: [u8; 4] = [0x0A, 0x0A, 0x0B, 0xFF];
    pub const SURFACE: [u8; 4] = [0x11, 0x11, 0x13, 0xFF];
    pub const SURFACE_RAISED: [u8; 4] = [0x18, 0x18, 0x1B, 0xFF];
    pub const SURFACE_OVERLAY: [u8; 4] = [0x1F, 0x1F, 0x23, 0xFF];
    pub const BORDER_SUBTLE: [u8; 4] = [0x27, 0x27, 0x2A, 0xFF];
    pub const BORDER_DEFAULT: [u8; 4] = [0x3F, 0x3F, 0x46, 0xFF];
    pub const BORDER_STRONG: [u8; 4] = [0x52, 0x52, 0x5B, 0xFF];
    pub const TEXT_PRIMARY: [u8; 4] = [0xFA, 0xFA, 0xFA, 0xFF];
    pub const TEXT_SECONDARY: [u8; 4] = [0xA1, 0xA1, 0xAA, 0xFF];
    pub const TEXT_TERTIARY: [u8; 4] = [0x71, 0x71, 0x7A, 0xFF];
    pub const TEXT_DISABLED: [u8; 4] = [0x52, 0x52, 0x5B, 0xFF];
    pub const ACCENT: [u8; 4] = [0x3B, 0x82, 0xF6, 0xFF];
    pub const ACCENT_HOVER: [u8; 4] = [0x60, 0xA5, 0xFA, 0xFF];
    pub const ACCENT_MUTED: [u8; 4] = [0x1E, 0x3A, 0x5F, 0xFF];
    pub const ACCENT_SUBTLE: [u8; 4] = [0x17, 0x25, 0x54, 0xFF];
    pub const SUCCESS: [u8; 4] = [0x22, 0xC5, 0x5E, 0xFF];
    pub const WARNING: [u8; 4] = [0xF5, 0x9E, 0x0B, 0xFF];
    pub const DANGER: [u8; 4] = [0xEF, 0x44, 0x44, 0xFF];
    pub const DANGER_HOVER: [u8; 4] = [0xF8, 0x71, 0x71, 0xFF];
    pub const VIEWPORT: [u8; 4] = [0x00, 0x00, 0x00, 0xFF];
    pub const FOCUS_RING: [u8; 4] = [0x3B, 0x82, 0xF6, 0x80];
    pub const SCRIM: [u8; 4] = [0x00, 0x00, 0x00, 0xB3];
    pub const TOOLBAR: [u8; 4] = [0x11, 0x11, 0x13, 0xE6];
}

/// Semantic color roles for widgets.
pub struct Semantic;

impl Semantic {
    pub const BG_APP: [u8; 4] = Palette::CANVAS;
    pub const BG_PANEL: [u8; 4] = Palette::SURFACE;
    pub const BG_ELEVATED: [u8; 4] = Palette::SURFACE_RAISED;
    pub const BG_VIEWPORT: [u8; 4] = Palette::VIEWPORT;
    pub const FG_PRIMARY: [u8; 4] = Palette::TEXT_PRIMARY;
    pub const FG_SECONDARY: [u8; 4] = Palette::TEXT_SECONDARY;
    pub const FG_MUTED: [u8; 4] = Palette::TEXT_TERTIARY;
    pub const FG_DISABLED: [u8; 4] = Palette::TEXT_DISABLED;
    pub const INTERACTIVE: [u8; 4] = Palette::ACCENT;
    pub const INTERACTIVE_HOVER: [u8; 4] = Palette::ACCENT_HOVER;
    pub const INTERACTIVE_MUTED: [u8; 4] = Palette::ACCENT_MUTED;
    pub const DESTRUCTIVE: [u8; 4] = Palette::DANGER;
}

} // verus!
