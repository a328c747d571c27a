use vstd::prelude::*;

verus! {

/// A pattern in a scene. `body` is what the renderer knows of it (its two
/// colours, its transform, its kind) and is carried untouched; `index` is
/// the pattern's slot in the world's pattern table.
#[derive(Debug, Clone, Copy)]
pub struct Pattern<Y> {
    pub index: usize,
    pub body: Y,
}

impl<Y> Pattern<Y> {
    pub fn get_index(&self) -> (index: usize)
        ensures
            index == self.index,
    {
        self.index
    }

    pub fn set_index(&mut self, index: usize)
        ensures
            final(self).index == index,
            final(self).body == old(self).body,
    {
        self.index = index;
    }
}

/// A pattern around `body`, in slot 0.
pub fn pattern<Y>(body: Y) -> (p: Pattern<Y>)
    ensures
        p.index == 0,
        p.body == body,
{
    Pattern { index: 0, body }
}

/// Whether a whole number is even.
pub open spec fn is_even(n: int) -> bool {
    n % 2 == 0
}

/// Which colour a stripe pattern shows at a point, given the whole part of
/// the point's x: the first colour on even stripes, the second on odd ones.
pub fn stripe_shows_first(x_floor: i64) -> (first: bool)
    ensures
        first == is_even(x_floor as int),
{
    x_floor % 2 == 0
}

/// Which colour a ring pattern shows at a point, given the whole part of the
/// point's distance from the y axis: the first colour on even rings.
pub fn ring_shows_first(distance_floor: i64) -> (first: bool)
    ensures
        first == is_even(distance_floor as int),
{
    distance_floor % 2 == 0
}

/// Which colour a checker pattern shows at a point, given the whole parts of
/// its three coordinates: the first colour where their sum is even.
pub fn checker_shows_first(x_floor: i64, y_floor: i64, z_floor: i64) -> (first: bool)
    ensures
        first == is_even(x_floor + y_floor + z_floor),
{
    let x_odd = x_floor % 2 != 0;
    let y_odd = y_floor % 2 != 0;
    let z_odd = z_floor % 2 != 0;
    (x_odd == y_odd) != z_odd
}

} // verus!
