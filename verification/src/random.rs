//! The random source and the two thresholds that draws are held against.
//!
//! A draw is a double in the half-open unit interval. It is carried as its
//! IEEE-754 bit pattern: among doubles that are not negative, the bit
//! patterns read as unsigned integers are ordered as the doubles are, so a
//! draw is compared with a threshold by comparing the two patterns.

use crate::cell::Cell;
use vstd::prelude::*;

verus! {

/// The bit pattern of the double one: every draw lies below it.
pub const UNIT_BITS: u64 = 0x3FF0_0000_0000_0000;

/// The bit pattern of the double one half. A draw above it fills a cell of
/// a new universe with life.
pub const FILL_THRESHOLD_BITS: u64 = 0x3FE0_0000_0000_0000;

/// The bit pattern of the double nearest to one hundred-thousandth. A draw
/// below it makes a cell with more than one live neighbour come alive.
pub const MUTATION_THRESHOLD_BITS: u64 = 0x3EE4_F8B5_88E3_68F1;

/// One draw from the host's random source, `js_sys::Math::random`, as the
/// bit pattern of the double it returned.
///
/// Not proved: that each draw is at least zero and less than one, which is
/// what the host documents of `Math.random()`. Nothing is claimed of how
/// draws are distributed, nor of one draw given another. The source exists
/// only on a wasm32 target with a JavaScript host.
#[verifier::external_body]
pub(crate) fn random_bits() -> (bits: u64)
    ensures
        bits < UNIT_BITS,
{
    js_sys::Math::random().to_bits()
}

/// Whether a draw falls below the mutation threshold.
pub fn draw_mutates(bits: u64) -> (mutates: bool)
    ensures
        mutates == (bits < MUTATION_THRESHOLD_BITS),
{
    bits < MUTATION_THRESHOLD_BITS
}

impl Cell {
    /// The cell that a draw gives when a universe is filled at random: alive
    /// where the draw lies above one half, dead where it is one half or less.
    pub open spec fn spec_from_draw(bits: u64) -> Cell {
        if bits > FILL_THRESHOLD_BITS {
            Cell::Alive
        } else {
            Cell::Dead
        }
    }

    /// The cell that a draw gives when a universe is filled at random.
    #[verifier::when_used_as_spec(spec_from_draw)]
    pub fn from_draw(bits: u64) -> (cell: Cell)
        ensures
            cell == Cell::spec_from_draw(bits),
    {
        if bits > FILL_THRESHOLD_BITS {
            Cell::Alive
        } else {
            Cell::Dead
        }
    }
}

} // verus!
