use raytrace::component::composite;
use raytrace::leaf::leaf;

#[test]
fn leaf_constructing_a_leaf() {
    let l = leaf();
    assert!(l.operation() == 1);
}

#[test]
fn bare_leaf_takes_no_children() {
    let mut l = leaf();
    assert!(l.add(composite()).is_none());
    assert!(l.operation() == 1);
}
