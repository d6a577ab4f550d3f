//! The recording overlay: its look, size, place and opacity.
use vstd::prelude::*;

verus! {

/// How the overlay is drawn.
#[derive(Debug, Clone, Copy, PartialEq, Eq, Structural)]
pub enum OverlayStyle {
    Classic,
    Glow,
    /// No overlay is shown.
    Hidden,
}

impl OverlayStyle {
    /// The name the settings show.
    pub fn label(self) -> (r: &'static str)
        ensures
            r@ == match self {
                OverlayStyle::Classic => "Classic"@,
                OverlayStyle::Glow => "Glow"@,
                OverlayStyle::Hidden => "None"@,
            },
    {
        match self {
            OverlayStyle::Classic => "Classic",
            OverlayStyle::Glow => "Glow",
            OverlayStyle::Hidden => "None",
        }
    }
}

/// Where the overlay appears.
#[derive(Debug, Clone, Copy, PartialEq, Eq, Structural)]
pub enum OverlayPosition {
    Notch,
    Floating,
}

impl OverlayPosition {
    /// The name the settings show.
    pub fn label(self) -> (r: &'static str)
        ensures
            r@ == match self {
                OverlayPosition::Notch => "Notch"@,
                OverlayPosition::Floating => "Floating"@,
            },
    {
        match self {
            OverlayPosition::Notch => "Notch",
            OverlayPosition::Floating => "Floating",
        }
    }
}

/// The bits of the `f32` 0.85, the opacity of a fresh configuration.
pub const DEFAULT_OPACITY_BITS: u32 = 0x3F59999A;

/// The overlay settings. The opacity is kept as the IEEE-754 bits of the
/// `f32` the user chose.
#[derive(Debug, Clone, Copy, PartialEq, Eq, Structural)]
pub struct OverlayConfig {
    pub style: OverlayStyle,
    pub width: u32,
    pub height: u32,
    pub position: OverlayPosition,
    pub opacity_bits: u32,
}

/// Whether the `f32` with bits `bits` lies in `0.0..=1.0`: +0.0 up to 1.0
/// (the bit patterns of non-negative floats grow with their value), or -0.0.
/// NaN and every negative non-zero value are outside.
pub open spec fn opacity_in_range(bits: u32) -> bool {
    bits <= 0x3F800000 || bits == 0x80000000
}

impl Default for OverlayConfig {
    /// The classic floating overlay, 300 by 80, at opacity 0.85.
    fn default() -> (r: OverlayConfig)
        ensures
            r.style == OverlayStyle::Classic,
            r.width == 300,
            r.height == 80,
            r.position == OverlayPosition::Floating,
            r.opacity_bits == DEFAULT_OPACITY_BITS,
    {
        OverlayConfig {
            style: OverlayStyle::Classic,
            width: 300,
            height: 80,
            position: OverlayPosition::Floating,
            opacity_bits: DEFAULT_OPACITY_BITS,
        }
    }
}

} // verus!
