use vstd::prelude::*;

verus! {

/// A bare composite node: only the value it answers with.
pub struct Composite {
    value: usize,
}

impl Composite {
    /// The value held by the node.
    pub closed spec fn value_of(&self) -> usize {
        self.value
    }

    pub fn operation(&self) -> (v: usize)
        ensures
            v == self.value_of(),
    {
        self.value
    }
}

/// A composite that answers 0.
pub fn composite() -> (c: Composite)
    ensures
        c.value_of() == 0,
{
    Composite { value: 0 }
}

} // verus!
