use vstd::prelude::*;

verus! {

/// The place of a component in a tree: its position among its siblings and the
/// position of the composite that holds it.
#[derive(Debug, Clone, Copy, PartialEq, Eq, Structural)]
pub struct Coordinate {
    pub index: usize,
    pub parent: usize,
}

/// The coordinate of position `i` under a parent at position 0.
pub fn coordinate(i: usize) -> (c: Coordinate)
    ensures
        c == (Coordinate { index: i, parent: 0 }),
{
    Coordinate { index: i, parent: 0 }
}

} // verus!
