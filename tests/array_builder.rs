use array_builder::{
    Array, ArrayBuilder, BuildError, ConfiguredDecimalBuilder, DataType, Field, NullBuilder, Scalar,
    TimeUnit, builder_append_null, builder_extend, make_batch, new_array_builder,
    new_array_builders,
};

fn utf8(s: &str) -> Scalar {
    Scalar::Bytes(s.as_bytes().to_vec())
}

fn field(name: &str, data_type: DataType) -> Field {
    Field { name: name.to_string(), data_type }
}

/// A finished column of `dt` holding `values` (None for null).
fn column(dt: &DataType, values: Vec<Option<Scalar>>) -> Array {
    let mut b = new_array_builder(dt, values.len()).unwrap();
    for v in values {
        match v {
            Some(s) => b.append_value(dt, s),
            None => builder_append_null(&mut b, dt),
        }
    }
    b.finish().unwrap()
}

fn ints(dt: &DataType, values: &[Option<i128>]) -> Array {
    column(dt, values.iter().map(|v| v.map(Scalar::Int)).collect())
}

fn strings(values: &[Option<&str>]) -> Array {
    column(&DataType::Utf8, values.iter().map(|v| v.map(utf8)).collect())
}

fn int_at(b: &ArrayBuilder, i: usize) -> Option<i128> {
    match b.value(i) {
        Some(Scalar::Int(v)) => Some(*v),
        Some(_) => panic!("not an integer"),
        None => None,
    }
}

fn str_at(b: &ArrayBuilder, i: usize) -> Option<String> {
    match b.value(i) {
        Some(Scalar::Bytes(v)) => Some(String::from_utf8(v.clone()).unwrap()),
        Some(_) => panic!("not bytes"),
        None => None,
    }
}

fn struct_ab() -> DataType {
    DataType::Struct(vec![field("a", DataType::Int32), field("b", DataType::Utf8)])
}

/// Struct rows `(1,"x"), (null,"y"), (3,null)`.
fn struct_source() -> Array {
    let dt = struct_ab();
    let a = ints(&DataType::Int32, &[Some(1), None, Some(3)]);
    let b = strings(&[Some("x"), Some("y"), None]);
    let cols = vec![a, b];
    let mut sb = new_array_builder(&dt, 3).unwrap();
    for row in 0..3 {
        sb.append_struct(&dt, &cols, row);
    }
    sb.finish().unwrap()
}

#[test]
fn test_struct_array_from_vec() {
    let dt = DataType::Struct(vec![field("f1", DataType::Utf8), field("f2", DataType::Int32)]);
    let strings = strings(&[Some("joe"), None, None, Some("mark")]);
    let ints = ints(&DataType::Int32, &[Some(1), Some(2), None, Some(4)]);
    let cols = vec![strings, ints];
    let mut b = new_array_builder(&dt, 4).unwrap();
    for row in 0..4 {
        b.append_struct(&dt, &cols, row);
    }
    let arr = b.finish().unwrap();
    assert!(arr.data().is_valid(1));
    assert_eq!(arr.len(), 4);
    let f1 = arr.data().struct_field(0).unwrap();
    assert_eq!(str_at(f1, 0), Some("joe".to_string()));
    assert!(!f1.is_valid(1));
    assert_eq!(str_at(f1, 3), Some("mark".to_string()));
    let f2 = arr.data().struct_field(1).unwrap();
    assert_eq!(int_at(f2, 1), Some(2));
    assert_eq!(int_at(f2, 2), None);
}

#[test]
fn round_trip_primitive() {
    let dt = DataType::Int64;
    let src = ints(&dt, &[Some(5), None, Some(-7), Some(i64::MAX as i128)]);
    let mut b = new_array_builder(&dt, 0).unwrap();
    builder_extend(&mut b, &src, &[0, 1, 2, 3], &dt);
    let out = b.finish().unwrap();
    assert_eq!(out.len(), 4);
    for i in 0..4 {
        assert_eq!(int_at(out.data(), i), int_at(src.data(), i));
    }
}

#[test]
fn round_trip_strings_and_binary() {
    let src = strings(&[Some("a"), None, Some("")]);
    let mut b = new_array_builder(&DataType::Utf8, 3).unwrap();
    builder_extend(&mut b, &src, &[0, 1, 2], &DataType::Utf8);
    let out = b.finish().unwrap();
    assert_eq!(str_at(out.data(), 0), Some("a".to_string()));
    assert_eq!(str_at(out.data(), 1), None);
    assert_eq!(str_at(out.data(), 2), Some(String::new()));
}

#[test]
fn round_trip_decimal() {
    let dt = DataType::Decimal128(10, 2);
    let src = ints(&dt, &[Some(12345), None, Some(-99999)]);
    let mut b = new_array_builder(&dt, 3).unwrap();
    builder_extend(&mut b, &src, &[0, 1, 2], &dt);
    let out = b.finish().unwrap();
    assert_eq!(int_at(out.data(), 0), Some(12345));
    assert_eq!(int_at(out.data(), 1), None);
    assert_eq!(int_at(out.data(), 2), Some(-99999));
}

#[test]
fn round_trip_dictionary() {
    let dt = DataType::Dictionary(Box::new(DataType::Int16), Box::new(DataType::Utf8));
    let src = column(&dt, vec![Some(utf8("p")), Some(utf8("q")), None, Some(utf8("p"))]);
    let mut b = new_array_builder(&dt, 4).unwrap();
    builder_extend(&mut b, &src, &[0, 1, 2, 3], &dt);
    let out = b.finish().unwrap();
    assert_eq!(str_at(out.data(), 0), Some("p".to_string()));
    assert_eq!(str_at(out.data(), 1), Some("q".to_string()));
    assert_eq!(str_at(out.data(), 2), None);
    assert_eq!(str_at(out.data(), 3), Some("p".to_string()));
    assert_eq!(out.data().dictionary_values_len(), Some(2));
}

#[test]
fn round_trip_list() {
    let elem = DataType::Int32;
    let dt = DataType::List(Box::new(DataType::Int32));
    let values = ints(&elem, &[Some(1), Some(2), Some(3), None]);
    let mut sb = new_array_builder(&dt, 3).unwrap();
    sb.append_list(&dt, &values, &[0, 1]);
    builder_append_null(&mut sb, &dt);
    sb.append_list(&dt, &values, &[3, 2]);
    sb.append_list(&dt, &values, &[]);
    let src = sb.finish().unwrap();
    let mut b = new_array_builder(&dt, 4).unwrap();
    builder_extend(&mut b, &src, &[0, 1, 2, 3], &dt);
    let out = b.finish().unwrap();
    let d = out.data();
    assert!(d.is_valid(0));
    assert!(!d.is_valid(1));
    assert!(d.is_valid(2));
    assert!(d.is_valid(3));
    assert_eq!(d.list_range(0), Some((0, 2)));
    assert_eq!(d.list_range(1), Some((2, 2)));
    assert_eq!(d.list_range(2), Some((2, 4)));
    assert_eq!(d.list_range(3), Some((4, 4)));
    let child = d.list_values().unwrap();
    assert_eq!(child.len(), 4);
    assert_eq!(int_at(child, 0), Some(1));
    assert_eq!(int_at(child, 1), Some(2));
    assert_eq!(int_at(child, 2), None);
    assert_eq!(int_at(child, 3), Some(3));
}

#[test]
fn round_trip_struct() {
    let dt = struct_ab();
    let src = struct_source();
    let mut b = new_array_builder(&dt, 3).unwrap();
    builder_extend(&mut b, &src, &[0, 1, 2], &dt);
    let out = b.finish().unwrap();
    let a = out.data().struct_field(0).unwrap();
    let s = out.data().struct_field(1).unwrap();
    assert_eq!(int_at(a, 0), Some(1));
    assert_eq!(int_at(a, 1), None);
    assert_eq!(int_at(a, 2), Some(3));
    assert_eq!(str_at(s, 0), Some("x".to_string()));
    assert_eq!(str_at(s, 1), Some("y".to_string()));
    assert_eq!(str_at(s, 2), None);
}

#[test]
fn round_trip_list_of_struct() {
    let dt = DataType::List(Box::new(struct_ab()));
    let items = struct_source();
    let mut sb = new_array_builder(&dt, 2).unwrap();
    sb.append_list(&dt, &items, &[2, 0]);
    sb.append_list(&dt, &items, &[1]);
    let src = sb.finish().unwrap();
    let mut b = new_array_builder(&dt, 2).unwrap();
    builder_extend(&mut b, &src, &[0, 1], &dt);
    let out = b.finish().unwrap();
    assert_eq!(out.data().list_range(0), Some((0, 2)));
    assert_eq!(out.data().list_range(1), Some((2, 3)));
    let st = out.data().list_values().unwrap();
    let a = st.struct_field(0).unwrap();
    let s = st.struct_field(1).unwrap();
    assert_eq!(int_at(a, 0), Some(3));
    assert_eq!(str_at(s, 0), None);
    assert_eq!(int_at(a, 1), Some(1));
    assert_eq!(str_at(s, 1), Some("x".to_string()));
    assert_eq!(int_at(a, 2), None);
    assert_eq!(str_at(s, 2), Some("y".to_string()));
}

#[test]
fn round_trip_struct_of_list() {
    let list = DataType::List(Box::new(DataType::Int8));
    let dt = DataType::Struct(vec![field("l", DataType::List(Box::new(DataType::Int8)))]);
    let values = ints(&DataType::Int8, &[Some(-1), Some(2)]);
    let mut lb = new_array_builder(&list, 2).unwrap();
    lb.append_list(&list, &values, &[1, 0, 1]);
    builder_append_null(&mut lb, &list);
    let lists = lb.finish().unwrap();
    let cols = vec![lists];
    let mut sb = new_array_builder(&dt, 2).unwrap();
    sb.append_struct(&dt, &cols, 0);
    sb.append_struct(&dt, &cols, 1);
    let src = sb.finish().unwrap();
    let mut b = new_array_builder(&dt, 2).unwrap();
    builder_extend(&mut b, &src, &[0, 1], &dt);
    let out = b.finish().unwrap();
    let l = out.data().struct_field(0).unwrap();
    assert!(l.is_valid(0));
    assert!(!l.is_valid(1));
    assert_eq!(l.list_range(0), Some((0, 3)));
    let child = l.list_values().unwrap();
    assert_eq!(int_at(child, 0), Some(2));
    assert_eq!(int_at(child, 1), Some(-1));
    assert_eq!(int_at(child, 2), Some(2));
}

#[test]
fn row_count_tracks_indices_and_nulls() {
    let dt = DataType::Int32;
    let src = ints(&dt, &[None, Some(1), None]);
    let mut b = new_array_builder(&dt, 1).unwrap();
    builder_extend(&mut b, &src, &[0, 2], &dt);
    builder_append_null(&mut b, &dt);
    builder_extend(&mut b, &src, &[1, 1, 0], &dt);
    builder_extend(&mut b, &src, &[], &dt);
    assert_eq!(b.len(), 6);
    let mut n = new_array_builder(&DataType::Null, 0).unwrap();
    let nsrc = new_array_builder(&DataType::Null, 0).unwrap();
    let mut nsrc = nsrc;
    builder_append_null(&mut nsrc, &DataType::Null);
    let nsrc = nsrc.finish().unwrap();
    builder_extend(&mut n, &nsrc, &[0, 0, 0], &DataType::Null);
    builder_append_null(&mut n, &DataType::Null);
    assert_eq!(n.len(), 4);
    assert!(!n.is_valid(3));
}

#[test]
fn gather_repeats_and_reorders() {
    let dt = DataType::UInt16;
    let src = ints(&dt, &[Some(10), None, Some(30), Some(40)]);
    let idx = [3usize, 0, 3, 1, 2, 0];
    let mut b = new_array_builder(&dt, 0).unwrap();
    builder_extend(&mut b, &src, &idx, &dt);
    let out = b.finish().unwrap();
    assert_eq!(out.len(), idx.len());
    for (k, &i) in idx.iter().enumerate() {
        assert_eq!(int_at(out.data(), k), int_at(src.data(), i));
        assert_eq!(out.data().is_valid(k), src.data().is_valid(i));
    }
}

#[test]
fn decimal_overflow_at_finish() {
    let dt = DataType::Decimal128(5, 2);
    let mut b = new_array_builder(&dt, 1).unwrap();
    // 123456.00 needs six integer digits.
    b.append_value(&dt, Scalar::Int(12345600));
    assert!(matches!(b.finish().err(), Some(BuildError::ValueOutOfRange)));
    let mut ok = new_array_builder(&dt, 1).unwrap();
    ok.append_value(&dt, Scalar::Int(12345));
    ok.append_value(&dt, Scalar::Int(-99999));
    builder_append_null(&mut ok, &dt);
    let arr = ok.finish().unwrap();
    assert_eq!(arr.len(), 3);
}

#[test]
fn decimal256_bounds() {
    let dt = DataType::Decimal256(2, 0);
    let mut ok = new_array_builder(&dt, 2).unwrap();
    ok.append_value(&dt, Scalar::Int256 { high: 0, low: 99 });
    ok.append_value(&dt, Scalar::Int256 { high: -1, low: u128::MAX - 98 });
    assert!(ok.finish().is_ok());
    let mut big = new_array_builder(&dt, 1).unwrap();
    big.append_value(&dt, Scalar::Int256 { high: 0, low: 100 });
    assert!(matches!(big.finish().err(), Some(BuildError::ValueOutOfRange)));
    let mut neg = new_array_builder(&dt, 1).unwrap();
    neg.append_value(&dt, Scalar::Int256 { high: -1, low: u128::MAX - 99 });
    assert!(matches!(neg.finish().err(), Some(BuildError::ValueOutOfRange)));
    let mut huge = new_array_builder(&dt, 1).unwrap();
    huge.append_value(&dt, Scalar::Int256 { high: 1, low: 0 });
    assert!(matches!(huge.finish().err(), Some(BuildError::ValueOutOfRange)));
}

#[test]
fn dictionary_dedup() {
    let dt = DataType::Dictionary(Box::new(DataType::Int32), Box::new(DataType::Utf8));
    let mut b = new_array_builder(&dt, 3).unwrap();
    for _ in 0..3 {
        b.append_value(&dt, utf8("x"));
    }
    let arr = b.finish().unwrap();
    let d = arr.data();
    assert_eq!(d.dictionary_values_len(), Some(1));
    assert_eq!(arr.len(), 3);
    let k0 = d.dictionary_key(0);
    assert!(k0.is_some());
    assert_eq!(d.dictionary_key(1), k0);
    assert_eq!(d.dictionary_key(2), k0);
}

#[test]
fn dictionary_gather_reinterns_by_value() {
    let dt = DataType::Dictionary(Box::new(DataType::UInt8), Box::new(DataType::Int64));
    let src = column(&dt, vec![Some(Scalar::Int(7)), Some(Scalar::Int(8)), Some(Scalar::Int(7))]);
    let mut b = new_array_builder(&dt, 3).unwrap();
    builder_extend(&mut b, &src, &[2, 0, 1, 2], &dt);
    let out = b.finish().unwrap();
    assert_eq!(out.data().dictionary_values_len(), Some(2));
    assert_eq!(out.data().dictionary_key(0), out.data().dictionary_key(1));
    assert_eq!(out.data().dictionary_key(1), out.data().dictionary_key(3));
    assert_eq!(int_at(out.data(), 2), Some(8));
}

#[test]
fn dictionary_key_overflow() {
    let dt = DataType::Dictionary(Box::new(DataType::Int8), Box::new(DataType::Int32));
    let mut b = new_array_builder(&dt, 0).unwrap();
    for v in 0..128 {
        b.append_value(&dt, Scalar::Int(v));
    }
    let mut c = new_array_builder(&dt, 0).unwrap();
    for v in 0..129 {
        c.append_value(&dt, Scalar::Int(v));
    }
    assert!(b.finish().is_ok());
    assert!(matches!(c.finish().err(), Some(BuildError::ValueOutOfRange)));
}

#[test]
fn struct_null_alignment() {
    let dt = struct_ab();
    let mut b = new_array_builder(&dt, 2).unwrap();
    builder_append_null(&mut b, &dt);
    let a = ints(&DataType::Int32, &[Some(7)]);
    let s = strings(&[Some("z")]);
    b.append_struct(&dt, &vec![a, s], 0);
    let arr = b.finish().unwrap();
    let d = arr.data();
    assert_eq!(arr.len(), 2);
    assert!(!d.is_valid(0));
    assert!(d.is_valid(1));
    let fa = d.struct_field(0).unwrap();
    let fb = d.struct_field(1).unwrap();
    assert_eq!(fa.len(), 2);
    assert_eq!(fb.len(), 2);
    assert_eq!(int_at(fa, 1), Some(7));
    assert_eq!(str_at(fb, 1), Some("z".to_string()));
}

#[test]
fn end_to_end_batch() {
    let schema = vec![field("a", DataType::Int32), field("b", DataType::Utf8)];
    let a = ints(&DataType::Int32, &[Some(1), None, Some(3)]);
    let b = strings(&[Some("x"), Some("y"), None]);
    let mut builders = new_array_builders(&schema, 2).unwrap();
    builder_extend(&mut builders[0], &a, &[2, 0], &schema[0].data_type);
    builder_extend(&mut builders[1], &b, &[2, 0], &schema[1].data_type);
    let batch = make_batch(schema, builders).unwrap();
    assert_eq!(batch.num_columns(), 2);
    let ca = batch.column(0).data();
    let cb = batch.column(1).data();
    assert_eq!(batch.column(0).len(), 2);
    assert_eq!(int_at(ca, 0), Some(3));
    assert_eq!(str_at(cb, 0), None);
    assert_eq!(int_at(ca, 1), Some(1));
    assert_eq!(str_at(cb, 1), Some("x".to_string()));
    assert_eq!(batch.schema()[1].name, "b");
}

#[test]
fn batch_errors() {
    let schema = vec![field("a", DataType::Int32), field("b", DataType::Int32)];
    let builders = new_array_builders(&schema, 0).unwrap();
    let one = vec![field("a", DataType::Int32)];
    assert!(matches!(make_batch(one, builders).err(), Some(BuildError::InvariantViolation)));
    let mut builders = new_array_builders(&schema, 0).unwrap();
    builder_append_null(&mut builders[0], &schema[0].data_type);
    assert!(matches!(make_batch(schema, builders).err(), Some(BuildError::InvariantViolation)));
    let dec = vec![field("d", DataType::Decimal128(1, 0))];
    let mut builders = new_array_builders(&dec, 0).unwrap();
    builders[0].append_value(&dec[0].data_type, Scalar::Int(10));
    assert!(matches!(make_batch(dec, builders).err(), Some(BuildError::ValueOutOfRange)));
}

#[test]
fn unsupported_types() {
    let bad = [
        DataType::Time32(TimeUnit::Microsecond),
        DataType::Time64(TimeUnit::Second),
        DataType::Decimal128(0, 0),
        DataType::Decimal128(39, 0),
        DataType::Decimal128(5, 6),
        DataType::Decimal256(77, 0),
        DataType::Dictionary(Box::new(DataType::Utf8), Box::new(DataType::Utf8)),
        DataType::Dictionary(Box::new(DataType::Int8), Box::new(DataType::Boolean)),
        DataType::Dictionary(
            Box::new(DataType::Int8),
            Box::new(DataType::Timestamp(TimeUnit::Second, None)),
        ),
        DataType::List(Box::new(DataType::Time32(TimeUnit::Nanosecond))),
        DataType::Struct(vec![field("ok", DataType::Int8), field("bad", DataType::Decimal256(0, 0))]),
    ];
    for dt in bad.iter() {
        assert!(matches!(new_array_builder(dt, 4).err(), Some(BuildError::UnsupportedType(_))));
    }
    let schema = vec![field("a", DataType::Int8), field("b", DataType::Time64(TimeUnit::Millisecond))];
    assert!(matches!(new_array_builders(&schema, 1).err(), Some(BuildError::UnsupportedType(_))));
    let good = [
        DataType::Null,
        DataType::Boolean,
        DataType::Float64,
        DataType::Time32(TimeUnit::Millisecond),
        DataType::Timestamp(TimeUnit::Nanosecond, Some("UTC".to_string())),
        DataType::Decimal256(76, -3),
        DataType::Dictionary(
            Box::new(DataType::UInt64),
            Box::new(DataType::Timestamp(TimeUnit::Microsecond, None)),
        ),
        DataType::LargeBinary,
        DataType::List(Box::new(DataType::Null)),
        DataType::Struct(vec![field("n", DataType::List(Box::new(DataType::Null)))]),
    ];
    for dt in good.iter() {
        let b = new_array_builder(dt, 4).unwrap();
        assert_eq!(b.len(), 0);
        assert!(b.is_empty());
    }
}

#[test]
fn null_builder_counts() {
    let mut n = NullBuilder::new();
    assert!(n.is_empty());
    n.append();
    n.extend(5);
    assert_eq!(n.len(), 6);
}

#[test]
fn configured_decimal_builder_keeps_metadata() {
    let mut d = ConfiguredDecimalBuilder::with_capacity(4, 9, 3);
    assert_eq!(d.precision(), 9);
    assert_eq!(d.scale(), 3);
    assert!(d.is_empty());
    d.append_value(Scalar::Int(1));
    d.append_option(None);
    d.append_option(Some(Scalar::Int(2)));
    d.append_null();
    assert_eq!(d.len(), 4);
    let b = ArrayBuilder::Decimal(d);
    assert!(b.is_valid(0));
    assert!(!b.is_valid(1));
    assert_eq!(int_at(&b, 2), Some(2));
    assert!(!b.is_valid(3));
    let arr = b.finish().unwrap();
    assert_eq!(arr.len(), 4);
}

#[test]
fn boolean_and_float_bits() {
    let dt = DataType::Boolean;
    let src = column(&dt, vec![Some(Scalar::Boolean(true)), None, Some(Scalar::Boolean(false))]);
    let mut b = new_array_builder(&dt, 0).unwrap();
    builder_extend(&mut b, &src, &[2, 1, 0], &dt);
    let out = b.finish().unwrap();
    assert!(matches!(out.data().value(0), Some(Scalar::Boolean(false))));
    assert!(out.data().value(1).is_none());
    assert!(matches!(out.data().value(2), Some(Scalar::Boolean(true))));
    let f = DataType::Float32;
    let bits = 1.5f32.to_bits() as i128;
    let src = ints(&f, &[Some(bits)]);
    let mut b = new_array_builder(&f, 0).unwrap();
    builder_extend(&mut b, &src, &[0, 0], &f);
    let out = b.finish().unwrap();
    assert_eq!(int_at(out.data(), 1), Some(bits));
    assert_eq!(f32::from_bits(bits as u32), 1.5f32);
}

fn unsupported_name(dt: &DataType) -> String {
    match new_array_builder(dt, 0) {
        Err(BuildError::UnsupportedType(t)) => format!("{:?}", t),
        _ => panic!("expected an unsupported type"),
    }
}

#[test]
fn unsupported_type_is_named() {
    let dict = DataType::Dictionary(Box::new(DataType::Utf8), Box::new(DataType::Int8));
    assert_eq!(unsupported_name(&dict), format!("{:?}", DataType::Utf8));
    let dict = DataType::Dictionary(Box::new(DataType::Int8), Box::new(DataType::Boolean));
    assert_eq!(unsupported_name(&dict), format!("{:?}", DataType::Boolean));
    let nested = DataType::List(Box::new(DataType::Struct(vec![
        field("ok", DataType::Int8),
        field("bad", DataType::Time64(TimeUnit::Second)),
        field("worse", DataType::Decimal128(0, 0)),
    ])));
    assert_eq!(unsupported_name(&nested), format!("{:?}", DataType::Time64(TimeUnit::Second)));
    let schema = vec![
        field("a", DataType::Int8),
        field("b", DataType::Decimal256(80, 0)),
        field("c", DataType::Time32(TimeUnit::Nanosecond)),
    ];
    match new_array_builders(&schema, 1) {
        Err(BuildError::UnsupportedType(t)) => {
            assert_eq!(format!("{:?}", t), format!("{:?}", DataType::Decimal256(80, 0)))
        }
        _ => panic!("expected an unsupported type"),
    }
}

#[test]
fn list_of_null_round_trip() {
    let dt = DataType::List(Box::new(DataType::Null));
    let mut nb = new_array_builder(&DataType::Null, 0).unwrap();
    for _ in 0..3 {
        builder_append_null(&mut nb, &DataType::Null);
    }
    let nulls = nb.finish().unwrap();
    let mut sb = new_array_builder(&dt, 2).unwrap();
    sb.append_list(&dt, &nulls, &[0, 1, 2]);
    builder_append_null(&mut sb, &dt);
    sb.append_list(&dt, &nulls, &[1]);
    let src = sb.finish().unwrap();
    let mut b = new_array_builder(&dt, 0).unwrap();
    builder_extend(&mut b, &src, &[2, 1, 0, 0], &dt);
    let out = b.finish().unwrap();
    let d = out.data();
    assert_eq!(out.len(), 4);
    assert_eq!(d.list_range(0), Some((0, 1)));
    assert!(!d.is_valid(1));
    assert_eq!(d.list_range(1), Some((1, 1)));
    assert_eq!(d.list_range(2), Some((1, 4)));
    assert_eq!(d.list_range(3), Some((4, 7)));
    let child = d.list_values().unwrap();
    assert_eq!(child.len(), 7);
    assert!(!child.is_valid(6));
}

#[test]
fn null_rows_leave_list_child_and_null_struct_children() {
    let list = DataType::List(Box::new(DataType::Int32));
    let values = ints(&DataType::Int32, &[Some(1), Some(2)]);
    let mut lb = new_array_builder(&list, 2).unwrap();
    lb.append_list(&list, &values, &[0, 1]);
    builder_append_null(&mut lb, &list);
    assert_eq!(lb.list_values().unwrap().len(), 2);
    assert_eq!(lb.list_range(1), Some((2, 2)));
    let dt = struct_ab();
    let src = struct_source();
    let mut sb = new_array_builder(&dt, 2).unwrap();
    builder_extend(&mut sb, &src, &[1], &dt);
    builder_append_null(&mut sb, &dt);
    let a = sb.struct_field(0).unwrap();
    let s = sb.struct_field(1).unwrap();
    assert_eq!(a.len(), 2);
    assert_eq!(s.len(), 2);
    assert!(!a.is_valid(1));
    assert!(!s.is_valid(1));
    assert_eq!(str_at(s, 0), Some("y".to_string()));
}

#[test]
fn dictionary_gather_of_one_value() {
    let dt = DataType::Dictionary(Box::new(DataType::Int32), Box::new(DataType::Utf8));
    let src = column(&dt, vec![Some(utf8("x"))]);
    let mut b = new_array_builder(&dt, 3).unwrap();
    builder_extend(&mut b, &src, &[0, 0, 0], &dt);
    let out = b.finish().unwrap();
    assert_eq!(out.data().dictionary_values_len(), Some(1));
    assert_eq!(str_at(out.data(), 2), Some("x".to_string()));
}

#[test]
fn conforms_to_its_type() {
    let dt = struct_ab();
    let b = new_array_builder(&dt, 0).unwrap();
    assert!(b.conforms(&dt));
    assert!(!b.conforms(&DataType::Int32));
    let src = struct_source();
    assert!(src.data().conforms(&dt));
    let other = DataType::Struct(vec![field("a", DataType::Int32), field("b", DataType::Int64)]);
    assert!(!src.data().conforms(&other));
    let ln = DataType::List(Box::new(DataType::Null));
    assert!(new_array_builder(&ln, 0).unwrap().conforms(&ln));
    let mut d = ConfiguredDecimalBuilder::with_capacity(0, 5, 2);
    d.append_value(Scalar::Int256 { high: 0, low: 1 });
    assert!(!ArrayBuilder::Decimal(d).conforms(&DataType::Decimal128(5, 2)));
}
