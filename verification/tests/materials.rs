use raytrace::materials::{material, Material};

#[test]
fn default_material() {
    let m = material();
    assert_eq!(m.pattern, None);
}

#[test]
fn materials_compare_by_their_pattern() {
    assert!(material().equals(Material { pattern: None }));
    assert!(!material().equals(Material { pattern: Some(0) }));
    assert!(!Material { pattern: Some(0) }.equals(material()));
    assert!(Material { pattern: Some(3) }.equals(Material { pattern: Some(3) }));
    assert!(!Material { pattern: Some(3) }.equals(Material { pattern: Some(4) }));
}
