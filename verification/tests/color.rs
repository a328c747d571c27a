use raytrace::color::color;

#[test]
fn colors_are_r_g_b_tuples() {
    let c = color(-128, 102, 435);
    assert!(c.r == -128 && c.g == 102 && c.b == 435);
}

#[test]
fn colors_compare_channel_by_channel() {
    assert!(color(1, 2, 3).equals(color(1, 2, 3)));
    assert!(!color(1, 2, 3).equals(color(1, 2, 4)));
    assert!(!color(1, 2, 3).equals(color(1, 0, 3)));
    assert!(!color(1, 2, 3).equals(color(0, 2, 3)));
}
