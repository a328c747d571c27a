use vstd::prelude::*;

verus! {

/// The larger of two ranks.
pub open spec fn larger(a: int, b: int) -> int {
    if a >= b {
        a
    } else {
        b
    }
}

/// The smaller of two ranks.
pub open spec fn smaller(a: int, b: int) -> int {
    if a <= b {
        a
    } else {
        b
    }
}

/// Where the ray enters the last of the three slabs of a cube.
pub open spec fn entry_of(x: (i64, i64), y: (i64, i64), z: (i64, i64)) -> int {
    larger(larger(x.0 as int, y.0 as int), z.0 as int)
}

/// Where the ray leaves the first of the three slabs of a cube.
pub open spec fn exit_of(x: (i64, i64), y: (i64, i64), z: (i64, i64)) -> int {
    smaller(smaller(x.1 as int, y.1 as int), z.1 as int)
}

/// The two ends of a slab crossing, nearer first.
pub fn in_order(a: i64, b: i64) -> (span: (i64, i64))
    ensures
        span.0 == smaller(a as int, b as int),
        span.1 == larger(a as int, b as int),
{
    if a > b {
        (b, a)
    } else {
        (a, b)
    }
}

/// The stretch of a ray inside a cube, from the stretches inside its three
/// slabs, each given as the ranks of the parameters where the ray enters and
/// leaves the slab: from the last entry to the first exit. `None` where the
/// ray has left one slab before it has entered another: it misses the cube.
pub fn span(x: (i64, i64), y: (i64, i64), z: (i64, i64)) -> (inside: Option<(i64, i64)>)
    ensures
        inside.is_some() <==> entry_of(x, y, z) <= exit_of(x, y, z),
        inside.is_some() ==> inside.unwrap().0 == entry_of(x, y, z) && inside.unwrap().1 == exit_of(
            x,
            y,
            z,
        ),
{
    let mut tmin: i64 = x.0;
    if y.0 > tmin {
        tmin = y.0;
    }
    if z.0 > tmin {
        tmin = z.0;
    }
    let mut tmax: i64 = x.1;
    if y.1 < tmax {
        tmax = y.1;
    }
    if z.1 < tmax {
        tmax = z.1;
    }
    if tmin > tmax {
        None
    } else {
        Some((tmin, tmax))
    }
}

/// The ray is inside the cube exactly where it is inside all three slabs.
pub proof fn lemma_span_is_the_overlap(x: (i64, i64), y: (i64, i64), z: (i64, i64), t: int)
    ensures
        (entry_of(x, y, z) <= t <= exit_of(x, y, z)) <==> (x.0 <= t <= x.1 && y.0 <= t <= y.1 && z.0
            <= t <= z.1),
{
}

} // verus!
