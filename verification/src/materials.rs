use vstd::prelude::*;

verus! {

/// What the scene tables need to know of a surface: which entry of the
/// world's pattern table colours it, if any. The optical coefficients are real
/// numbers and stay with the renderer that shades by them.
#[derive(Debug, Clone, Copy, PartialEq, Eq, Structural)]
pub struct Material {
    pub pattern: Option<usize>,
}

impl Material {
    /// Whether two materials refer to the same pattern, or both to none.
    pub fn equals(&self, m: Material) -> (same: bool)
        ensures
            same == (self.pattern == m.pattern),
    {
        match (self.pattern, m.pattern) {
            (Some(a), Some(b)) => a == b,
            (None, None) => true,
            _ => false,
        }
    }
}

/// A plain surface: no pattern.
pub fn material() -> (m: Material)
    ensures
        m == (Material { pattern: None }),
{
    Material { pattern: None }
}

} // verus!
