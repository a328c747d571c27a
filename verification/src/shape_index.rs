use vstd::prelude::*;

verus! {

/// Where a shape sits in the scene: its slot in the table that owns it, and
/// the slots of up to three enclosing groups, nearest first.
#[derive(Clone, PartialEq, Eq, Structural, Debug, Copy)]
pub struct ShapeIndex {
    pub index: usize,
    pub parent: Option<usize>,
    pub grandparent: Option<usize>,
    pub greatparent: Option<usize>,
}

impl ShapeIndex {
    /// The slot of the shape in its owner's table.
    pub fn get_index(&self) -> (i: usize)
        ensures
            i == self.index,
    {
        self.index
    }

    /// Moves the shape to slot `index`; the enclosing groups stay.
    pub fn set_index(&mut self, index: usize)
        ensures
            *final(self) == (ShapeIndex { index: index, ..*old(self) }),
    {
        self.index = index;
    }

    /// The slot of the nearest enclosing group, if the shape is in one.
    pub fn get_parent(&self) -> (p: Option<usize>)
        ensures
            p == self.parent,
    {
        self.parent
    }

    /// Records `parent` as the nearest enclosing group; the rest stays.
    pub fn set_parent(&mut self, parent: usize)
        ensures
            *final(self) == (ShapeIndex { parent: Some(parent), ..*old(self) }),
    {
        self.parent = Some(parent);
    }
}

/// A top-level shape in slot 0: no enclosing group at any level.
pub fn shape_index() -> (s: ShapeIndex)
    ensures
        s == (ShapeIndex { index: 0, parent: None, grandparent: None, greatparent: None }),
{
    ShapeIndex { index: 0, parent: None, grandparent: None, greatparent: None }
}

} // verus!
