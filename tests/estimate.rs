use size_bound::{estimate, Entry, Field, Primitive, Serializer, Value};

fn field(name: &str, value: Value) -> Field {
    Field {
        name: name.to_string(),
        value,
    }
}

fn entry(key: Value, value: Value) -> Entry {
    Entry { key, value }
}

fn record(a: f64, b: &str) -> Value {
    Value::Struct(vec![
        field("a", Value::F64(a.to_bits())),
        field("b", Value::Str(b.to_string())),
    ])
}

#[test]
fn vec_u8_works() {
    let v = vec![1u8, 2, 3, 4, 5];
    let value = Value::Sequence(v.iter().map(|x| Value::U8(*x)).collect());

    let got = estimate(&value).unwrap();

    assert_eq!(got, v.len() * std::mem::size_of::<u8>());
}

#[test]
fn vec_u64_works() {
    let v = vec![1u64, 2, 3, 4, 5];
    let value = Value::Sequence(v.iter().map(|x| Value::U64(*x)).collect());

    let got = estimate(&value).unwrap();

    assert_eq!(got, v.len() * std::mem::size_of::<u64>());
}

#[test]
fn struct_works() {
    let v = record(23., "cool");
    let got = estimate(&v).unwrap();

    let want = std::mem::size_of::<f64>() + "cool".len();
    assert_eq!(got, want);
}

#[test]
fn map_works() {
    let m = Value::Mapping(vec![
        entry(Value::Str("wow".to_string()), Value::U128(23)),
        entry(Value::Str("ok".to_string()), Value::U128(9)),
    ]);

    let got = estimate(&m).unwrap();

    let want = std::mem::size_of::<u128>() + "wow".len() + std::mem::size_of::<u128>() + "ok".len();
    assert_eq!(got, want);
}

#[test]
fn map_u128_struct_works() {
    let m = Value::Mapping(vec![
        entry(Value::U128(5), record(42., "Hello world")),
        entry(Value::U128(8), record(24., "world")),
    ]);

    let got = estimate(&m).unwrap();

    let want = std::mem::size_of::<u128>()
        + std::mem::size_of::<f64>()
        + "Hello world".len()
        + std::mem::size_of::<u128>()
        + std::mem::size_of::<f64>()
        + "world".len();
    assert_eq!(got, want);
    assert_eq!(got, 64);
}

#[test]
fn scenario_totals() {
    let bytes = Value::Sequence((1u8..=5).map(Value::U8).collect());
    assert_eq!(estimate(&bytes), Some(5));
    let words = Value::Sequence((1u64..=5).map(Value::U64).collect());
    assert_eq!(estimate(&words), Some(40));
    assert_eq!(estimate(&record(1.5, "cool")), Some(12));
    let m = Value::Mapping(vec![
        entry(Value::Str("wow".to_string()), Value::U128(1)),
        entry(Value::Str("ok".to_string()), Value::U128(2)),
    ]);
    assert_eq!(estimate(&m), Some(37));
}

#[test]
fn each_primitive_counts_its_width() {
    let cases = vec![
        (Value::Bool(true), 1),
        (Value::I8(-1), 1),
        (Value::I16(-1), 2),
        (Value::I32(-1), 4),
        (Value::I64(-1), 8),
        (Value::I128(-1), 16),
        (Value::U8(1), 1),
        (Value::U16(1), 2),
        (Value::U32(1), 4),
        (Value::U64(1), 8),
        (Value::U128(1), 16),
        (Value::F32(1.0f32.to_bits()), 4),
        (Value::F64(1.0f64.to_bits()), 8),
        (Value::Char('x'), 4),
    ];
    for (v, w) in cases {
        assert_eq!(estimate(&v), Some(w));
        let p = v.primitive().unwrap();
        assert_eq!(p.width(), w);
    }
    assert_eq!(Value::Unit.primitive(), None);
    assert_eq!(Primitive::Char.width(), std::mem::size_of::<char>());
}

#[test]
fn sequence_of_width_times_length() {
    let v = Value::Sequence((0..7).map(|i| Value::I32(i)).collect());
    assert_eq!(estimate(&v), Some(7 * 4));
    let empty = Value::Sequence(vec![]);
    assert_eq!(estimate(&empty), Some(0));
}

#[test]
fn string_counts_utf8_bytes_not_chars() {
    let s = "h\u{e9}llo \u{1F600}";
    assert_eq!(s.chars().count(), 7);
    assert_eq!(estimate(&Value::Str(s.to_string())), Some(s.len()));
    assert_eq!(estimate(&Value::Str(s.to_string())), Some(11));
    assert_eq!(estimate(&Value::Str(String::new())), Some(0));
    assert_eq!(estimate(&Value::Bytes(vec![0, 1, 2, 255])), Some(4));
    assert_eq!(estimate(&Value::Bytes(vec![])), Some(0));
    let named = Value::NewtypeStruct(Box::new(Value::Str(s.to_string())));
    assert_eq!(estimate(&named), Some(11));
}

#[test]
fn struct_is_sum_of_fields_names_free() {
    let short = Value::Struct(vec![field("a", Value::U16(1)), field("b", Value::Char('z'))]);
    let long = Value::Struct(vec![
        field("a_much_longer_name", Value::U16(1)),
        field("another_long_name", Value::Char('z')),
    ]);
    assert_eq!(estimate(&short), Some(6));
    assert_eq!(estimate(&long), Some(6));
    let variant = Value::StructVariant(3, vec![field("x", Value::U16(1)), field("y", Value::Char('z'))]);
    assert_eq!(estimate(&variant), Some(6));
    assert_eq!(estimate(&Value::Struct(vec![])), Some(0));
}

#[test]
fn map_order_does_not_matter() {
    let forward = Value::Mapping(vec![
        entry(Value::U8(1), Value::Str("one".to_string())),
        entry(Value::U8(2), Value::Str("three".to_string())),
        entry(Value::U8(3), Value::Bool(false)),
    ]);
    let backward = Value::Mapping(vec![
        entry(Value::U8(3), Value::Bool(false)),
        entry(Value::U8(2), Value::Str("three".to_string())),
        entry(Value::U8(1), Value::Str("one".to_string())),
    ]);
    assert_eq!(estimate(&forward), Some(12));
    assert_eq!(estimate(&backward), Some(12));
    assert_eq!(estimate(&Value::Mapping(vec![])), Some(0));
}

#[test]
fn wrapping_adds_nothing() {
    let inner = || record(2.0, "abc");
    let base = estimate(&inner()).unwrap();
    assert_eq!(base, 11);
    assert_eq!(estimate(&Value::Present(Box::new(inner()))), Some(base));
    assert_eq!(estimate(&Value::NewtypeStruct(Box::new(inner()))), Some(base));
    assert_eq!(estimate(&Value::NewtypeVariant(0, Box::new(inner()))), Some(base));
    assert_eq!(estimate(&Value::Tuple(vec![inner()])), Some(base));
    assert_eq!(estimate(&Value::TupleStruct(vec![inner()])), Some(base));
    assert_eq!(estimate(&Value::TupleVariant(2, vec![inner()])), Some(base));
}

#[test]
fn absent_and_unit_shapes_count_nothing() {
    assert_eq!(estimate(&Value::Absent), Some(0));
    assert_eq!(estimate(&Value::Unit), Some(0));
    assert_eq!(estimate(&Value::UnitStruct), Some(0));
    assert_eq!(estimate(&Value::UnitVariant(4)), Some(0));
    let mixed = Value::Tuple(vec![Value::Absent, Value::U32(9), Value::Unit]);
    assert_eq!(estimate(&mixed), Some(4));
}

#[test]
fn estimate_is_deterministic_and_leaves_input() {
    let build = || Value::Mapping(vec![entry(Value::U128(5), record(42., "Hello world"))]);
    let v = build();
    let w = build();
    let first = estimate(&v);
    let again = estimate(&v);
    let other = estimate(&w);
    assert_eq!(first, again);
    assert_eq!(first, other);
    assert_eq!(first, Some(35));
    assert!(matches!(&v, Value::Mapping(es) if es.len() == 1));
}

#[test]
fn nested_structure_is_free() {
    let deep = Value::Present(Box::new(Value::Sequence(vec![Value::Tuple(vec![
        Value::NewtypeStruct(Box::new(Value::Mapping(vec![entry(
            Value::Char('k'),
            Value::Bytes(vec![1, 2, 3]),
        )]))),
    ])])));
    assert_eq!(estimate(&deep), Some(7));
}

#[test]
fn serializer_accumulates_leaves() {
    let mut s = Serializer::new();
    assert_eq!(s.size(), 0);
    s.serialize_struct("Value", 2);
    s.serialize_f64();
    s.serialize_str("cool");
    assert_eq!(s.size(), 12);
    s.serialize_bool(true);
    s.serialize_i8(1);
    s.serialize_i16(1);
    s.serialize_i32(1);
    s.serialize_i64(1);
    s.serialize_i128(1);
    s.serialize_u8(1);
    s.serialize_u16(1);
    s.serialize_u32(1);
    s.serialize_u64(1);
    s.serialize_u128(1);
    s.serialize_f32();
    s.serialize_char('c');
    assert_eq!(s.size(), 12 + 1 + 1 + 2 + 4 + 8 + 16 + 1 + 2 + 4 + 8 + 16 + 4 + 4);
    s.serialize_bytes(&[9, 9, 9]);
    s.serialize_primitive(Primitive::U16);
    assert_eq!(s.size(), 83 + 3 + 2);
}

#[test]
fn serializer_framing_counts_nothing() {
    let mut s = Serializer::new();
    s.serialize_u8(7);
    s.serialize_none();
    s.serialize_unit();
    s.serialize_unit_struct("Marker");
    s.serialize_unit_variant("E", 1, "B");
    s.serialize_seq(Some(3));
    s.serialize_seq(None);
    s.serialize_tuple(2);
    s.serialize_tuple_struct("T", 2);
    s.serialize_tuple_variant("E", 0, "A", 2);
    s.serialize_map(Some(1));
    s.serialize_struct("S", 4);
    s.serialize_struct_variant("E", 2, "C", 4);
    assert_eq!(s.size(), 1);
}

#[test]
fn serialize_value_adds_to_running_total() {
    let mut s = Serializer::new();
    s.serialize_u32(0);
    assert!(s.serialize_value(&record(0.5, "xy")));
    assert_eq!(s.size(), 4 + 8 + 2);
}
