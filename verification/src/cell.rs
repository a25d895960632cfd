//! Per-cell visual state: the attribute set and the packed color byte.
//!
//! A cell's color is one byte holding two independent 4-bit palette
//! indices: the foreground in the low nybble, the background in the high
//! nybble. Nybble value 0 means "use the default color"; values 1..=15 are
//! the 1-based index into the 16-entry ANSI palette.

use vstd::prelude::*;

verus! {

/// The visual attribute set of one cell: reverse video, bold,
/// half-bright, underline and strike-through.
#[derive(Clone, Copy, Debug, PartialEq, Eq, Structural)]
pub struct Attributes {
    pub reverse: bool,
    pub bold: bool,
    pub half_bright: bool,
    pub underline: bool,
    pub strike_through: bool,
}

impl Attributes {
    /// The empty attribute set: plain text.
    pub open spec fn spec_none() -> Attributes {
        Attributes {
            reverse: false,
            bold: false,
            half_bright: false,
            underline: false,
            strike_through: false,
        }
    }

    #[verifier::when_used_as_spec(spec_none)]
    pub fn none() -> (r: Attributes)
        ensures
            r == Attributes::spec_none(),
    {
        Attributes {
            reverse: false,
            bold: false,
            half_bright: false,
            underline: false,
            strike_through: false,
        }
    }

    /// The same attribute set with the reverse-video bit toggled.
    pub open spec fn spec_toggle_reverse(self) -> Attributes {
        Attributes { reverse: !self.reverse, ..self }
    }

    #[verifier::when_used_as_spec(spec_toggle_reverse)]
    pub fn toggle_reverse(self) -> (r: Attributes)
        ensures
            r == self.spec_toggle_reverse(),
    {
        Attributes { reverse: !self.reverse, ..self }
    }
}

/// The complete visual style of one cell: its attribute set together with
/// its packed color byte. Two cells belong to the same cluster exactly when
/// their styles are equal.
#[derive(Clone, Copy, Debug, PartialEq, Eq, Structural)]
pub struct Style {
    pub attrs: Attributes,
    pub color: u8,
}

/// Foreground palette nybble of a packed color byte (low four bits).
pub open spec fn spec_fg_nybble(color: u8) -> u8 {
    color & 0x0f
}

/// Background palette nybble of a packed color byte (high four bits).
pub open spec fn spec_bg_nybble(color: u8) -> u8 {
    color >> 4
}

/// Extracts the foreground nybble of a packed color byte.
pub fn fg_nybble(color: u8) -> (r: u8)
    ensures
        r == spec_fg_nybble(color),
        r < 16,
{
    proof {
        assert(color & 0x0f < 16) by (bit_vector);
    }
    color & 0x0f
}

/// Extracts the background nybble of a packed color byte.
pub fn bg_nybble(color: u8) -> (r: u8)
    ensures
        r == spec_bg_nybble(color),
        r < 16,
{
    proof {
        assert(color >> 4 < 16) by (bit_vector);
    }
    color >> 4
}

} // verus!
