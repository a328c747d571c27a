use raytrace::patterns::{checker_shows_first, ring_shows_first, stripe_shows_first};

fn floor(x: f64) -> i64 {
    x.floor() as i64
}

fn stripe_at(x: f64, _y: f64, _z: f64) -> &'static str {
    if stripe_shows_first(floor(x)) {
        "white"
    } else {
        "black"
    }
}

fn checker_at(x: f64, y: f64, z: f64) -> &'static str {
    if checker_shows_first(floor(x), floor(y), floor(z)) {
        "white"
    } else {
        "black"
    }
}

fn ring_at(x: f64, _y: f64, z: f64) -> &'static str {
    if ring_shows_first(floor((x * x + z * z).sqrt())) {
        "white"
    } else {
        "black"
    }
}

#[test]
fn stripe_pattern_constant_in_y() {
    assert_eq!(stripe_at(0.0, 0.0, 0.0), "white");
    assert_eq!(stripe_at(0.0, 1.0, 0.0), "white");
    assert_eq!(stripe_at(0.0, 2.0, 0.0), "white");
}

#[test]
fn stripe_pattern_constant_in_z() {
    assert_eq!(stripe_at(0.0, 0.0, 0.0), "white");
    assert_eq!(stripe_at(0.0, 0.0, 1.0), "white");
    assert_eq!(stripe_at(0.0, 0.0, 2.0), "white");
}

#[test]
fn stripe_pattern_alternates_in_x() {
    assert_eq!(stripe_at(0.0, 0.0, 0.0), "white");
    assert_eq!(stripe_at(0.9, 0.0, 0.0), "white");
    assert_eq!(stripe_at(1.0, 0.0, 0.0), "black");
    assert_eq!(stripe_at(-0.1, 0.0, 0.0), "black");
    assert_eq!(stripe_at(-1.0, 0.0, 0.0), "black");
    assert_eq!(stripe_at(-1.1, 0.0, 0.0), "white");
}

#[test]
fn checker_repeats_in_x() {
    assert_eq!(checker_at(0.0, 0.0, 0.0), "white");
    assert_eq!(checker_at(0.99, 0.0, 0.0), "white");
    assert_eq!(checker_at(1.01, 0.0, 0.0), "black");
}

#[test]
fn checker_repeats_in_y() {
    assert_eq!(checker_at(0.0, 0.0, 0.0), "white");
    assert_eq!(checker_at(0.0, 0.99, 0.0), "white");
    assert_eq!(checker_at(0.0, 1.01, 0.0), "black");
}

#[test]
fn checker_repeats_in_z() {
    assert_eq!(checker_at(0.0, 0.0, 0.0), "white");
    assert_eq!(checker_at(0.0, 0.0, 0.99), "white");
    assert_eq!(checker_at(0.0, 0.0, 1.01), "black");
}

#[test]
fn ring_extends_in_both_x_and_z() {
    assert_eq!(ring_at(0.0, 0.0, 0.0), "white");
    assert_eq!(ring_at(1.0, 0.0, 0.0), "black");
    assert_eq!(ring_at(0.0, 0.0, 1.0), "black");
    assert_eq!(ring_at(0.708, 0.0, 0.708), "black");
}

#[test]
fn checker_goes_by_the_parity_of_the_sum() {
    for x in -3i64..4 {
        for y in -3i64..4 {
            for z in -3i64..4 {
                assert_eq!(checker_shows_first(x, y, z), (x + y + z).rem_euclid(2) == 0);
            }
        }
    }
    assert!(checker_shows_first(i64::MAX, i64::MAX, 0));
    assert!(!checker_shows_first(i64::MIN, i64::MAX, 0));
    assert!(stripe_shows_first(i64::MIN));
    assert!(!ring_shows_first(i64::MAX));
}
