//! The ordered table of selectable monospace fonts, smallest first. Only
//! the metrics the grid and the painter need are kept: the horizontal cell
//! advance (glyph width plus inter-glyph spacing), the glyph cell height,
//! and the text baseline, all in pixels.

use vstd::prelude::*;

verus! {

/// Number of selectable fonts.
pub const FONT_COUNT: usize = 7;

/// Horizontal advance per character cell, in pixels.
pub open spec fn spec_font_advance(f: int) -> u16 {
    if f == 0 {
        5
    } else if f == 1 {
        6
    } else if f == 2 {
        7
    } else if f == 3 {
        8
    } else if f == 4 {
        10
    } else if f == 5 {
        12
    } else {
        16
    }
}

/// Glyph cell height, in pixels.
pub open spec fn spec_font_height(f: int) -> u16 {
    if f == 0 {
        10
    } else if f == 1 {
        11
    } else if f == 2 {
        12
    } else if f == 3 {
        15
    } else if f == 4 {
        17
    } else if f == 5 {
        22
    } else {
        29
    }
}

/// Distance from the glyph cell top to the text baseline, in pixels.
pub open spec fn spec_font_baseline(f: int) -> u16 {
    if f == 0 {
        7
    } else if f == 1 {
        8
    } else if f == 2 {
        9
    } else if f == 3 {
        11
    } else if f == 4 {
        13
    } else if f == 5 {
        17
    } else {
        24
    }
}

/// Horizontal advance per character cell of font `f`, in pixels.
pub fn font_advance(f: usize) -> (r: u16)
    requires
        f < FONT_COUNT,
    ensures
        r == spec_font_advance(f as int),
        5 <= r <= 16,
{
    if f == 0 {
        5
    } else if f == 1 {
        6
    } else if f == 2 {
        7
    } else if f == 3 {
        8
    } else if f == 4 {
        10
    } else if f == 5 {
        12
    } else {
        16
    }
}

/// Glyph cell height of font `f`, in pixels.
pub fn font_height(f: usize) -> (r: u16)
    requires
        f < FONT_COUNT,
    ensures
        r == spec_font_height(f as int),
        10 <= r <= 29,
{
    if f == 0 {
        10
    } else if f == 1 {
        11
    } else if f == 2 {
        12
    } else if f == 3 {
        15
    } else if f == 4 {
        17
    } else if f == 5 {
        22
    } else {
        29
    }
}

/// Baseline offset of font `f`, in pixels.
pub fn font_baseline(f: usize) -> (r: u16)
    requires
        f < FONT_COUNT,
    ensures
        r == spec_font_baseline(f as int),
        r <= 24,
{
    if f == 0 {
        7
    } else if f == 1 {
        8
    } else if f == 2 {
        9
    } else if f == 3 {
        11
    } else if f == 4 {
        13
    } else if f == 5 {
        17
    } else {
        24
    }
}

} // verus!
