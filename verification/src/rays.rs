use vstd::prelude::*;

verus! {

/// How many times a ray may be followed on from surface to surface.
pub const BOUNCE_LIMIT: usize = 5;

/// The bounces that a ray with `count` bounces behind it still has.
pub open spec fn bounces_left(count: usize) -> nat {
    if count < BOUNCE_LIMIT {
        (BOUNCE_LIMIT - count) as nat
    } else {
        0
    }
}

/// The bounce count of the ray that follows on from a ray with `count`
/// bounces behind it, by reflection or refraction: one more, as long as the
/// limit is not reached. `None` where it is: the ray ends there and adds
/// nothing.
pub fn next_bounce(count: usize) -> (next: Option<usize>)
    ensures
        next == (if count < BOUNCE_LIMIT {
            Some((count + 1) as usize)
        } else {
            None
        }),
        next.is_some() ==> bounces_left(next.unwrap()) < bounces_left(count),
{
    if count > 4 {
        None
    } else {
        Some(count + 1)
    }
}

} // verus!
