//! The four edges of a monitor, and the pairing of an edge with the end the
//! LED run starts from.

use vstd::prelude::*;

verus! {

/// One of the four edges of a monitor.  It also names an end of an edge when
/// used as a run direction: for a horizontal run `LEFT`/`RIGHT` say which end
/// holds the first LED, for a vertical run `TOP`/`BOTTOM` do.
#[allow(non_camel_case_types)]
#[derive(Copy, Clone, PartialEq, Eq, Structural, Debug)]
pub enum Side {
    TOP,
    LEFT,
    BOTTOM,
    RIGHT,
}

/// The side a symbol denotes, or `None` for an unknown symbol.
pub open spec fn spec_side_from_char(c: char) -> Option<Side> {
    match c {
        't' => Some(Side::TOP),
        'b' => Some(Side::BOTTOM),
        'l' => Some(Side::LEFT),
        'r' => Some(Side::RIGHT),
        _ => None,
    }
}

impl Side {
    /// Parse an edge or direction symbol.  An unknown symbol is reported to
    /// the caller, never mapped to a default.
    pub fn from_char(c: char) -> (r: Option<Side>)
        ensures
            r == spec_side_from_char(c),
    {
        match c {
            't' => Some(Side::TOP),
            'b' => Some(Side::BOTTOM),
            'l' => Some(Side::LEFT),
            'r' => Some(Side::RIGHT),
            _ => None,
        }
    }

    /// Displayable name of the side.
    pub fn name(&self) -> (r: &'static str)
        ensures
            r@ == spec_side_name(*self),
    {
        match self {
            Side::TOP => "Top",
            Side::LEFT => "Left",
            Side::BOTTOM => "Bottom",
            Side::RIGHT => "Right",
        }
    }
}

/// The characters of each side's displayable name.
pub open spec fn spec_side_name(s: Side) -> Seq<char> {
    match s {
        Side::TOP => "Top"@,
        Side::LEFT => "Left"@,
        Side::BOTTOM => "Bottom"@,
        Side::RIGHT => "Right"@,
    }
}

/// An edge together with the end of the edge its LED run starts from.
#[derive(Copy, Clone, PartialEq, Eq, Structural, Debug)]
pub struct SideDirection {
    /// The edge the LEDs lie along.
    pub side: Side,
    /// Which end of the edge holds the run's first LED.
    pub direction: Side,
}

} // verus!
