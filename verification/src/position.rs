//! Integer positions on the world map and the battlefield.

use vstd::prelude::*;

verus! {

/// A position: a tile on the world map, or a point on the battlefield in
/// world units.
#[derive(Clone, Copy, Debug, PartialEq, Eq, Structural)]
pub struct Position {
    pub x: i32,
    pub y: i32,
}

} // verus!
