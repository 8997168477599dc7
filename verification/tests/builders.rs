use svd_rs::{
    Access, BitRange, DeriveFrom, DimElement, EnumeratedValue, EnumeratedValues, FieldInfo, Protection, RegisterProperties,
    ValidateLevel,
};

#[test]
fn bit_offset_and_width_combine_in_either_order() {
    let b1 = FieldInfo::builder().name("F".to_string()).bit_offset(24).bit_width(2);
    let b2 = FieldInfo::builder().name("F".to_string()).bit_width(2).bit_offset(24);
    let f1 = b1.build(ValidateLevel::Weak).unwrap();
    let f2 = b2.build(ValidateLevel::Weak).unwrap();
    assert_eq!(f1.bit_range, BitRange::from_offset_width(24, 2));
    assert_eq!(f2.bit_range, BitRange::from_offset_width(24, 2));
    assert_eq!(f1.bitmask(), 0x0300_0000);
}

#[test]
fn derived_properties_fill_every_empty_value() {
    let a = RegisterProperties { size: Some(16), access: None, protection: None, reset_value: None, reset_mask: None };
    let b = RegisterProperties {
        size: Some(32),
        access: Some(Access::ReadOnly),
        protection: Some(Protection::Secure),
        reset_value: Some(1),
        reset_mask: Some(0xFFFF),
    };
    let d = a.derive_from(&b);
    assert_eq!(d.size, Some(16));
    assert_eq!(d.access, Some(Access::ReadOnly));
    assert_eq!(d.protection, Some(Protection::Secure));
    assert_eq!(d.reset_value, Some(1));
    assert_eq!(d.reset_mask, Some(0xFFFF));
}

#[test]
fn enumeration_modified_to_derive_records_it() {
    let v = EnumeratedValue::builder().name("V".to_string()).value(Some(0)).build(ValidateLevel::Weak).unwrap();
    let mut evs = EnumeratedValues::builder().values(vec![v]).build(ValidateLevel::Weak).unwrap();
    let b = EnumeratedValues::builder().derived_from(Some("X".to_string()));
    assert!(evs.modify_from(b, ValidateLevel::Weak).is_ok());
    assert_eq!(evs.derived_from.as_deref(), Some("X"));
    assert_eq!(evs.name, None);
    assert_eq!(evs.usage, None);
    assert!(evs.values.is_empty());
}

#[test]
fn index_range_written_and_read_back_gives_the_indexes() {
    let idx: Vec<String> = vec!["3".to_string(), "4".to_string(), "5".to_string()];
    let d = DimElement::builder().dim(3).dim_increment(4).dim_index(Some(idx.clone())).build(ValidateLevel::Weak).unwrap();
    let r = d.indexes_as_range().unwrap();
    let text = format!("{}-{}", r.start(), r.end());
    assert_eq!(text, "3-5");
    assert_eq!(DimElement::parse_indexes(&text), Some(d.indexes()));
    assert_eq!(d.indexes(), idx);
    let leading = DimElement::builder()
        .dim(2)
        .dim_increment(4)
        .dim_index(Some(vec!["01".to_string(), "02".to_string()]))
        .build(ValidateLevel::Weak)
        .unwrap();
    assert!(leading.indexes_as_range().is_none());
}
