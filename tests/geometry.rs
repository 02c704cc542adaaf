use processing::geometry::{hash_attr_name, AttributeFormat, Topology, VertexLayout};

#[test]
fn attribute_names_hash_with_fnv1a() {
    assert_eq!(hash_attr_name(""), 0xcbf29ce484222325);
    assert_eq!(hash_attr_name("a"), 0xaf63dc4c8601ec8c);
    assert_eq!(hash_attr_name("foobar"), 0x85944171f73967e8);
}

#[test]
fn enums_from_numbers() {
    assert_eq!(Topology::from_u8(0), Some(Topology::PointList));
    assert_eq!(Topology::from_u8(3), Some(Topology::TriangleList));
    assert_eq!(Topology::from_u8(4), Some(Topology::TriangleStrip));
    assert_eq!(Topology::from_u8(5), None);
    assert_eq!(AttributeFormat::from_u8(0), None);
    assert_eq!(AttributeFormat::from_u8(1), Some(AttributeFormat::Float));
    assert_eq!(AttributeFormat::from_u8(4), Some(AttributeFormat::Float4));
    assert_eq!(AttributeFormat::from_u8(9), None);
}

#[test]
fn layouts_keep_attributes_once() {
    let mut layout = VertexLayout::new();
    layout.push(3);
    layout.push(5);
    layout.push(3);
    assert_eq!(layout.attributes(), &[3, 5]);
    assert!(layout.has_attribute(5));
    assert!(!layout.has_attribute(4));
    let layout = VertexLayout::with_attributes(vec![1, 2]);
    assert_eq!(layout.attributes(), &[1, 2]);
}
