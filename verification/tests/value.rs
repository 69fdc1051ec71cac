use mrpc::{Integer, Utf8String, Value, decode_value, encode_value};

#[test]
fn integers_read_back_where_they_fit() {
    assert_eq!(Value::from(5u64).as_u64(), Some(5));
    assert_eq!(Value::from(5u64).as_i64(), Some(5));
    assert_eq!(Value::from(-5i64).as_u64(), None);
    assert_eq!(Value::from(-5i64).as_i64(), Some(-5));
    assert_eq!(Value::from(u64::MAX).as_i64(), None);
    assert_eq!(Value::from(7u32), Value::Integer(Integer::PosInt(7)));
    assert_eq!(Value::from(-3i32), Value::Integer(Integer::NegInt(-3)));
    assert_eq!(Value::from(3i32), Value::Integer(Integer::PosInt(3)));
    assert_eq!(Value::from("x").as_u64(), None);
}

#[test]
fn strings_read_back_when_well_formed() {
    assert_eq!(Value::from("hi").as_str(), Some("hi"));
    assert_eq!(Value::from("hi".to_string()).as_str(), Some("hi"));
    assert_eq!(Value::String(Utf8String::Invalid(vec![0xff])).as_str(), None);
    assert_eq!(Value::Nil.as_str(), None);
}

#[test]
fn nil_is_recognised() {
    assert!(Value::Nil.is_nil());
    assert!(!Value::from(false).is_nil());
}

#[test]
fn clone_copies_nested_values() {
    let v = Value::Array(vec![
        Value::Mapping(vec![(Value::from("k"), Value::Binary(vec![1, 2]))]),
        Value::Ext(3, vec![4]),
        Value::F32(1.5f32.to_bits()),
        Value::String(Utf8String::Invalid(vec![0xc3])),
    ]);
    assert_eq!(v.clone(), v);
}

#[test]
fn arrays_are_built_from_vectors() {
    assert_eq!(Value::from(vec![Value::Nil]), Value::Array(vec![Value::Nil]));
    assert_eq!(Value::from(true), Value::Boolean(true));
}

#[test]
fn values_convert_to_and_from_rmpv() {
    let v = Value::Array(vec![
        Value::Mapping(vec![(Value::from("k"), Value::Binary(vec![1, 2]))]),
        Value::Ext(3, vec![4]),
        Value::F32(1.5f32.to_bits()),
        Value::F64((-0.25f64).to_bits()),
        Value::from(-7i64),
        Value::from(u64::MAX),
        Value::Nil,
        Value::Boolean(false),
        Value::String(Utf8String::Invalid(vec![0xc3])),
    ]);
    let packed = mrpc::value_to_pack(&v);
    assert_eq!(
        packed,
        rmpv::Value::Array(vec![
            rmpv::Value::Map(vec![(rmpv::Value::from("k"), rmpv::Value::Binary(vec![1, 2]))]),
            rmpv::Value::Ext(3, vec![4]),
            rmpv::Value::F32(1.5),
            rmpv::Value::F64(-0.25),
            rmpv::Value::from(-7),
            rmpv::Value::from(u64::MAX),
            rmpv::Value::Nil,
            rmpv::Value::Boolean(false),
            packed.as_array().unwrap()[8].clone(),
        ])
    );
    assert!(!packed.as_array().unwrap()[8].as_str().is_some());
    assert_eq!(mrpc::value_from_pack(packed), v);
}

#[test]
fn a_non_negative_signed_integer_packs_as_unsigned() {
    let packed = mrpc::value_to_pack(&Value::Integer(Integer::NegInt(5)));
    assert_eq!(mrpc::value_from_pack(packed), Value::Integer(Integer::PosInt(5)));
}

#[test]
fn values_come_back_from_their_bytes() {
    let value = Value::Array(vec![
        Value::from(-3i64),
        Value::from("text"),
        Value::Mapping(vec![(Value::Boolean(true), Value::F64(2.5f64.to_bits()))]),
        Value::Ext(4, vec![9, 8]),
    ]);
    let mut bytes = vec![0xc0u8];
    encode_value(&value, &mut bytes);
    assert_eq!(bytes[0], 0xc0);
    let (back, n) = decode_value(&bytes[1..]).unwrap();
    assert_eq!(back, value);
    assert_eq!(n, bytes.len() - 1);
}

#[test]
fn wire_readback_turns_bad_text_into_binary_and_fixes_integers() {
    let mut bytes = Vec::new();
    encode_value(&Value::String(Utf8String::Invalid(vec![0xff, 0xfe])), &mut bytes);
    assert_eq!(decode_value(&bytes).unwrap().0, Value::Binary(vec![0xff, 0xfe]));
    let mut bytes = Vec::new();
    encode_value(&Value::Integer(Integer::NegInt(5)), &mut bytes);
    assert_eq!(bytes, vec![0x05]);
    assert_eq!(decode_value(&bytes).unwrap().0, Value::Integer(Integer::PosInt(5)));
    assert!(decode_value(&[0x92, 0x01]).is_err());
}
