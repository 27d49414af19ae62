use naia_core::codegen::{
    classify, diff_mask_size, get_variable_name_for_unnamed_field, has_entity_properties,
    PropertyKind,
};

#[test]
fn fields_are_told_apart_by_the_name_of_their_type() {
    assert_eq!(classify(b"Property"), Some(PropertyKind::Normal));
    assert_eq!(classify(b"EntityProperty"), Some(PropertyKind::Entity));
    assert_eq!(classify(b"VecDequeEntityProperty"), Some(PropertyKind::Entity));
    assert_eq!(classify(b"property"), None);
    assert_eq!(classify(b"Entity"), None);
    assert_eq!(classify(b"EntityPropertx"), None);
    assert_eq!(classify(b"VecDequeEntityPropertz"), None);
    assert_eq!(classify(b"XecDequeEntityProperty"), None);
    assert_eq!(classify(b"u8"), None);
    assert_eq!(classify(b""), None);
}

#[test]
fn diff_mask_has_one_bit_for_each_property() {
    assert_eq!(diff_mask_size(0), Some(0));
    assert_eq!(diff_mask_size(1), Some(1));
    assert_eq!(diff_mask_size(8), Some(1));
    assert_eq!(diff_mask_size(9), Some(2));
    assert_eq!(diff_mask_size(256), Some(32));
    assert_eq!(diff_mask_size(2040), Some(255));
    assert_eq!(diff_mask_size(2041), None);
}

#[test]
fn entity_properties_are_found() {
    assert!(!has_entity_properties(&[]));
    assert!(!has_entity_properties(&[PropertyKind::Normal, PropertyKind::Normal]));
    assert!(has_entity_properties(&[PropertyKind::Normal, PropertyKind::Entity]));
}

#[test]
fn unnamed_fields_are_named_by_their_position() {
    assert_eq!(get_variable_name_for_unnamed_field(0), b"unnamed_field_0".to_vec());
    assert_eq!(get_variable_name_for_unnamed_field(7), b"unnamed_field_7".to_vec());
    assert_eq!(get_variable_name_for_unnamed_field(10), b"unnamed_field_10".to_vec());
    assert_eq!(get_variable_name_for_unnamed_field(1234), b"unnamed_field_1234".to_vec());
}
