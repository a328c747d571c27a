use raytrace::component::{composite, leaf, Component};
use raytrace::coordinate::Coordinate;
use raytrace::materials::material;

#[test]
fn component_constructing_a_leaf() {
    let l = leaf(None);
    assert!(l.operation() == 1);
}

#[test]
fn component_constructing_a_composite() {
    let c = composite();
    assert!(c.operation() == 0);
}

#[test]
fn adding_to_a_composite() {
    let mut c = composite();
    let l = leaf(None);
    let index = c.add(l).unwrap();

    assert!(index.index == 0);

    if let Component::Composite { value: _, children: ch, index: _ } = c {
        assert!(ch.len() == 1);
    }
}

#[test]
fn add_returns_coordinate() {
    let mut c = composite();
    let l = leaf(None);
    let index = c.add(l).unwrap();

    assert!(index.index == 0);
}

#[test]
fn add_sets_index_correctly() {
    let mut c = composite();

    let l1 = leaf(None);
    let index1 = c.add(l1).unwrap();

    let l2 = leaf(None);
    let index2 = c.add(l2).unwrap();

    let l3 = leaf(None);
    let index3 = c.add(l3).unwrap();

    assert!(index1.index == 0);
    assert!(index2.index == 1);
    assert!(index3.index == 2);
}

#[test]
fn add_sets_parent_correctly() {
    let mut c1 = composite();
    let c2 = composite();
    let mut c3 = composite();

    let l = leaf(None);
    let index = c3.add(l).unwrap();

    c1.add(c2);
    c1.add(c3);

    assert!(index.index == 0);
}

#[test]
fn add_to_a_leaf_is_refused() {
    let mut l = leaf(Some(material()));
    assert!(l.add(leaf(None)).is_none());
    assert!(l.get_child(0).is_none());
    assert!(l.operation() == 1);
}

#[test]
fn add_records_the_parent_position() {
    let mut root = composite();
    let mut inner = composite();
    root.add(leaf(None));
    inner.set_index(Coordinate { index: 7, parent: 0 });
    let placed = inner.add(leaf(None)).unwrap();
    assert_eq!(placed, Coordinate { index: 0, parent: 7 });
    let at = root.add(inner).unwrap();
    assert_eq!(at, Coordinate { index: 1, parent: 0 });
    let child = root.get_child(1).unwrap();
    assert_eq!(child.get_index(), Coordinate { index: 1, parent: 0 });
    assert_eq!(child.get_child(0).unwrap().get_index(), Coordinate { index: 0, parent: 7 });
    assert!(root.get_child(2).is_none());
}
