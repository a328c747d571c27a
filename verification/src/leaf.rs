use vstd::prelude::*;
use crate::component::Component;

verus! {

/// A bare leaf node: only the value it answers with.
pub struct Leaf {
    value: usize,
}

impl Leaf {
    /// The value held by the node.
    pub closed spec fn value_of(&self) -> usize {
        self.value
    }

    pub fn operation(&self) -> (v: usize)
        ensures
            v == self.value_of(),
    {
        self.value
    }

    /// A leaf takes no children: the offered component is dropped, the leaf
    /// stays as it is, and no position is handed out.
    pub fn add(&mut self, _c: Component) -> (placed: Option<usize>)
        ensures
            placed.is_none(),
            final(self).value_of() == old(self).value_of(),
    {
        None
    }
}

/// A leaf that answers 1.
pub fn leaf() -> (l: Leaf)
    ensures
        l.value_of() == 1,
{
    Leaf { value: 1 }
}

} // verus!
