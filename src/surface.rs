//! Defaults of the drawing surface that a script draws on.
use vstd::prelude::*;

verus! {

/// Color of `clear` when the script gives none: black.
pub const DEFAULT_CLEAR_COLOR: u32 = 0x000000;

/// Color of `text` when the script gives none: white.
pub const DEFAULT_TEXT_COLOR: u32 = 0xffffff;

/// Pixel size of text drawn without a sized font.
pub const DEFAULT_FONT_SIZE: u16 = 40;

/// The color that `clear` fills with.
pub fn clear_color(rgb: Option<u32>) -> (r: u32)
    ensures
        r == match rgb {
            Some(c) => c,
            None => DEFAULT_CLEAR_COLOR,
        },
{
    match rgb {
        Some(c) => c,
        None => DEFAULT_CLEAR_COLOR,
    }
}

/// The color that `text` draws in.
pub fn text_color(rgb: Option<u32>) -> (r: u32)
    ensures
        r == match rgb {
            Some(c) => c,
            None => DEFAULT_TEXT_COLOR,
        },
{
    match rgb {
        Some(c) => c,
        None => DEFAULT_TEXT_COLOR,
    }
}

/// The pixel size that `text` draws at: that of the sized font it is given,
/// else the default.
pub fn text_size(font_size: Option<u16>) -> (r: u16)
    ensures
        r == match font_size {
            Some(s) => s,
            None => DEFAULT_FONT_SIZE,
        },
{
    match font_size {
        Some(s) => s,
        None => DEFAULT_FONT_SIZE,
    }
}

} // verus!
