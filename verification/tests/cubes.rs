use raytrace::cubes::{in_order, span};
use raytrace::number::{key_bits, order_key};

fn key(t: f64) -> i64 {
    order_key(t.to_bits())
}

fn number(key: i64) -> f64 {
    f64::from_bits(key_bits(key))
}

// Where a ray with origin `o` and direction `d` along one axis crosses the
// two planes of the unit cube that face along that axis.
fn check_axis(o: f64, d: f64) -> (i64, i64) {
    let tmin_numerator = -1.0 - o;
    let tmax_numerator = 1.0 - o;
    let (tmin, tmax) = if d.abs() > 0.00001 {
        (tmin_numerator / d, tmax_numerator / d)
    } else {
        (tmin_numerator * f64::INFINITY, tmax_numerator * f64::INFINITY)
    };
    in_order(key(tmin), key(tmax))
}

fn intersect(origin: (f64, f64, f64), direction: (f64, f64, f64)) -> Vec<f64> {
    let x = check_axis(origin.0, direction.0);
    let y = check_axis(origin.1, direction.1);
    let z = check_axis(origin.2, direction.2);
    match span(x, y, z) {
        Some((enter, leave)) => vec![number(enter), number(leave)],
        None => vec![],
    }
}

#[test]
fn a_ray_intersects_a_cube() {
    // positive x
    let xs = intersect((5.0, 0.5, 0.0), (-1.0, 0.0, 0.0));
    assert_eq!(xs.len(), 2);
    assert_eq!(xs[0], 4.0);
    assert_eq!(xs[1], 6.0);

    // negative x
    let xs = intersect((-5.0, 0.5, 0.0), (1.0, 0.0, 0.0));
    assert_eq!(xs.len(), 2);
    assert_eq!(xs[0], 4.0);
    assert_eq!(xs[1], 6.0);

    // positive y
    let xs = intersect((0.5, 5.0, 0.0), (0.0, -1.0, 0.0));
    assert_eq!(xs.len(), 2);
    assert_eq!(xs[0], 4.0);
    assert_eq!(xs[1], 6.0);

    // negative y
    let xs = intersect((0.5, -5.0, 0.0), (0.0, 1.0, 0.0));
    assert_eq!(xs.len(), 2);
    assert_eq!(xs[0], 4.0);
    assert_eq!(xs[1], 6.0);

    // positive z
    let xs = intersect((0.5, 0.0, 5.0), (0.0, 0.0, -1.0));
    assert_eq!(xs.len(), 2);
    assert_eq!(xs[0], 4.0);
    assert_eq!(xs[1], 6.0);

    // negative z
    let xs = intersect((0.5, 0.0, -5.0), (0.0, 0.0, 1.0));
    assert_eq!(xs.len(), 2);
    assert_eq!(xs[0], 4.0);
    assert_eq!(xs[1], 6.0);

    // inside
    let xs = intersect((0.0, 0.5, 0.0), (0.0, 0.0, 1.0));
    assert_eq!(xs.len(), 2);
    assert_eq!(xs[0], -1.0);
    assert_eq!(xs[1], 1.0);
}

#[test]
fn a_ray_misses_a_cube() {
    let xs = intersect((-2.0, 0.0, 0.0), (0.2673, 0.5345, 0.8018));
    assert_eq!(xs.len(), 0);

    let xs = intersect((0.0, -2.0, 0.0), (0.8018, 0.2673, 0.5345));
    assert_eq!(xs.len(), 0);

    let xs = intersect((0.0, 0.0, -2.0), (0.5345, 0.8018, 0.2673));
    assert_eq!(xs.len(), 0);

    let xs = intersect((2.0, 0.0, 2.0), (0.0, 0.0, -1.0));
    assert_eq!(xs.len(), 0);

    let xs = intersect((0.0, 2.0, 2.0), (0.0, -1.0, 0.0));
    assert_eq!(xs.len(), 0);

    let xs = intersect((2.0, 2.0, 0.0), (-1.0, 0.0, 0.0));
    assert_eq!(xs.len(), 0);
}

#[test]
fn span_is_the_overlap_of_the_slabs() {
    assert_eq!(span((1, 9), (2, 8), (3, 7)), Some((3, 7)));
    assert_eq!(span((3, 7), (1, 9), (2, 8)), Some((3, 7)));
    assert_eq!(span((-5, 5), (5, 6), (0, 9)), Some((5, 5)));
    assert_eq!(span((-5, 4), (5, 6), (0, 9)), None);
    assert_eq!(span((0, 1), (0, 1), (2, 3)), None);
    assert_eq!(in_order(3, -3), (-3, 3));
    assert_eq!(in_order(-3, 3), (-3, 3));
    assert_eq!(in_order(2, 2), (2, 2));
}
