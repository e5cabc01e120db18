//! Positions on a grid or in a text.

use vstd::prelude::*;

verus! {

/// A column and a row, both counted from zero.
#[derive(Debug, Clone, Copy, PartialEq, Eq, Hash, Structural)]
pub struct Pos {
    pub x: usize,
    pub y: usize,
}

} // verus!
