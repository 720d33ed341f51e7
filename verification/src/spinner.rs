//! The glyphs the popup's metric headers animate.

use vstd::prelude::*;

verus! {

/// Which glyph to draw: the fan's four blades or the pump's impeller.
#[derive(Debug, Clone, Copy, PartialEq, Eq, Structural)]
pub enum Kind {
    Fan,
    Pump,
}

} // verus!
