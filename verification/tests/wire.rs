use uniffi_dart::codec::{allocation_size, read, write_at};
use uniffi_dart::layout::WireError;
use uniffi_dart::lift::{lift, lower, Native};
use uniffi_dart::value::{Layout, Primitive, Value};

fn write(v: &Value) -> Vec<u8> {
    let mut buf = Vec::new();
    let n = uniffi_dart::codec::write(v, &mut buf).unwrap();
    assert_eq!(n, buf.len());
    buf
}

fn primitive(p: Primitive) -> Layout {
    Layout::Primitive(p)
}

fn strings(items: &[&str]) -> Value {
    Value::Sequence(items.iter().map(|s| Value::String(s.to_string())).collect())
}

#[test]
fn list_of_strings_is_count_then_each_string() {
    let v = strings(&["", "ab", "xyz"]);
    let buf = write(&v);
    let expected: Vec<u8> = vec![
        0, 0, 0, 3, // count
        0, 0, 0, 0, // ""
        0, 0, 0, 2, b'a', b'b', // "ab"
        0, 0, 0, 3, b'x', b'y', b'z', // "xyz"
    ];
    assert_eq!(buf, expected);
    let layout = Layout::Sequence(Box::new(primitive(Primitive::String)));
    assert_eq!(read(&layout, &buf, 0), Ok((strings(&["", "ab", "xyz"]), expected.len())));
}

#[test]
fn numbers_are_written_in_network_order() {
    assert_eq!(write(&Value::UInt8(0xab)), vec![0xab]);
    assert_eq!(write(&Value::Int8(-1)), vec![0xff]);
    assert_eq!(write(&Value::UInt16(0x1234)), vec![0x12, 0x34]);
    assert_eq!(write(&Value::Int16(-2)), vec![0xff, 0xfe]);
    assert_eq!(write(&Value::UInt32(0x0102_0304)), vec![1, 2, 3, 4]);
    assert_eq!(write(&Value::Int32(-1)), vec![0xff; 4]);
    assert_eq!(write(&Value::Int32(i32::MIN)), vec![0x80, 0, 0, 0]);
    assert_eq!(write(&Value::UInt64(0x0102_0304_0506_0708)), vec![1, 2, 3, 4, 5, 6, 7, 8]);
    assert_eq!(write(&Value::Int64(i64::MIN)), vec![0x80, 0, 0, 0, 0, 0, 0, 0]);
    assert_eq!(write(&Value::Int64(-1)), vec![0xff; 8]);
    assert_eq!(write(&Value::Float32(1.5f32.to_bits())), 1.5f32.to_be_bytes().to_vec());
    assert_eq!(write(&Value::Float64((-2.25f64).to_bits())), (-2.25f64).to_be_bytes().to_vec());
    assert_eq!(write(&Value::Handle(0x10)), vec![0, 0, 0, 0, 0, 0, 0, 0x10]);
}

#[test]
fn numbers_are_read_back() {
    let cases: Vec<(Primitive, Value)> = vec![
        (Primitive::Int8, Value::Int8(-128)),
        (Primitive::UInt8, Value::UInt8(255)),
        (Primitive::Int16, Value::Int16(-32768)),
        (Primitive::UInt16, Value::UInt16(65535)),
        (Primitive::Int32, Value::Int32(-123456)),
        (Primitive::UInt32, Value::UInt32(u32::MAX)),
        (Primitive::Int64, Value::Int64(i64::MIN + 1)),
        (Primitive::UInt64, Value::UInt64(u64::MAX)),
        (Primitive::Float32, Value::Float32(0x7fc0_0001)),
        (Primitive::Float64, Value::Float64(0xfff0_0000_0000_0001)),
        (Primitive::Bool, Value::Bool(true)),
        (Primitive::Bool, Value::Bool(false)),
    ];
    for (p, v) in cases {
        let buf = write(&v);
        let n = buf.len();
        assert_eq!(read(&primitive(p), &buf, 0), Ok((v, n)));
    }
}

#[test]
fn optional_is_a_flag_then_the_value() {
    let some = Value::Optional(Some(Box::new(Value::UInt16(7))));
    assert_eq!(write(&some), vec![1, 0, 7]);
    assert_eq!(write(&Value::Optional(None)), vec![0]);
    let layout = Layout::Optional(Box::new(primitive(Primitive::UInt16)));
    assert_eq!(read(&layout, &[1, 0, 7], 0), Ok((some, 3)));
    assert_eq!(read(&layout, &[0, 9, 9], 0), Ok((Value::Optional(None), 1)));
    assert_eq!(read(&layout, &[2, 0, 7], 0), Err(WireError::InvalidFlag));
}

#[test]
fn map_is_count_then_keys_and_values_in_insertion_order() {
    let v = Value::Mapping(vec![
        (Value::String("b".to_string()), Value::UInt8(2)),
        (Value::String("a".to_string()), Value::UInt8(1)),
    ]);
    let buf = write(&v);
    assert_eq!(buf, vec![0, 0, 0, 2, 0, 0, 0, 1, b'b', 2, 0, 0, 0, 1, b'a', 1]);
    let layout = Layout::Mapping(
        Box::new(primitive(Primitive::String)),
        Box::new(primitive(Primitive::UInt8)),
    );
    assert_eq!(read(&layout, &buf, 0), Ok((v, 16)));
}

#[test]
fn record_is_its_fields_in_declaration_order() {
    let v = Value::Record(vec![Value::String("Al".to_string()), Value::UInt32(30)]);
    let buf = write(&v);
    assert_eq!(buf, vec![0, 0, 0, 2, b'A', b'l', 0, 0, 0, 30]);
    let layout =
        Layout::Record(vec![primitive(Primitive::String), primitive(Primitive::UInt32)]);
    assert_eq!(read(&layout, &buf, 0), Ok((v, 10)));
    let swapped =
        Layout::Record(vec![primitive(Primitive::UInt32), primitive(Primitive::String)]);
    assert!(read(&swapped, &buf, 0) != read(&layout, &buf, 0));
}

#[test]
fn enum_is_a_discriminant_from_one_then_the_fields() {
    let layout = Layout::Enum(vec![vec![], vec![primitive(Primitive::UInt8)]]);
    assert_eq!(write(&Value::Enum(0, vec![])), vec![0, 0, 0, 1]);
    assert_eq!(write(&Value::Enum(1, vec![Value::UInt8(9)])), vec![0, 0, 0, 2, 9]);
    assert_eq!(read(&layout, &[0, 0, 0, 2, 9], 0), Ok((Value::Enum(1, vec![Value::UInt8(9)]), 5)));
    assert_eq!(read(&layout, &[0, 0, 0, 1], 0), Ok((Value::Enum(0, vec![]), 4)));
}

#[test]
fn an_unknown_discriminant_is_a_fault() {
    let layout = Layout::Enum(vec![vec![], vec![]]);
    assert_eq!(read(&layout, &[0, 0, 0, 0], 0), Err(WireError::UnknownVariant));
    assert_eq!(read(&layout, &[0, 0, 0, 3], 0), Err(WireError::UnknownVariant));
    assert_eq!(read(&layout, &[0xff, 0xff, 0xff, 0xff], 0), Err(WireError::UnknownVariant));
}

#[test]
fn reading_reports_what_is_wrong_with_a_buffer() {
    assert_eq!(read(&primitive(Primitive::Int32), &[0, 0, 1], 0), Err(WireError::UnexpectedEnd));
    assert_eq!(read(&primitive(Primitive::Bool), &[2], 0), Err(WireError::InvalidBool));
    assert_eq!(
        read(&primitive(Primitive::String), &[0, 0, 0, 2, 0xc3, 0x28], 0),
        Err(WireError::InvalidUtf8)
    );
    assert_eq!(
        read(&primitive(Primitive::String), &[0x80, 0, 0, 0], 0),
        Err(WireError::NegativeLength)
    );
    assert_eq!(
        read(&primitive(Primitive::String), &[0, 0, 0, 5, b'a'], 0),
        Err(WireError::UnexpectedEnd)
    );
    assert_eq!(read(&primitive(Primitive::Bytes), &[0, 0], 0), Err(WireError::UnexpectedEnd));
}

#[test]
fn a_count_that_does_not_fit_is_refused_and_the_buffer_kept() {
    let v = Value::Sequence(vec![Value::UInt8(1), Value::Enum(0x7fff_ffff, vec![])]);
    let mut buf = vec![42];
    assert_eq!(uniffi_dart::codec::write(&v, &mut buf), Err(WireError::TooLong));
    assert_eq!(buf, vec![42]);
}

#[test]
fn reading_starts_at_the_offset_and_says_how_much_it_took() {
    let buf = vec![9, 9, 0, 0, 0, 1, b'x', 7];
    assert_eq!(
        read(&primitive(Primitive::String), &buf, 2),
        Ok((Value::String("x".to_string()), 5))
    );
    assert_eq!(read(&primitive(Primitive::UInt8), &buf, 8), Err(WireError::UnexpectedEnd));
    assert_eq!(read(&primitive(Primitive::UInt8), &buf, 100), Err(WireError::UnexpectedEnd));
    assert_eq!(read(&Layout::Record(vec![]), &buf, 100), Ok((Value::Record(vec![]), 0)));
}

#[test]
fn text_with_characters_of_every_width_is_read_back() {
    let v = Value::String("a\u{e9}\u{20ac}\u{1f600}".to_string());
    let buf = write(&v);
    assert_eq!(buf.len(), 4 + 1 + 2 + 3 + 4);
    assert_eq!(read(&primitive(Primitive::String), &buf, 0), Ok((v, 14)));
}

#[test]
fn a_nested_value_is_read_back() {
    let make = || {
        Value::Record(vec![
            Value::Optional(Some(Box::new(Value::Sequence(vec![
                Value::Enum(1, vec![Value::Int64(-5), Value::Bytes(vec![1, 2, 3])]),
                Value::Enum(0, vec![]),
            ])))),
            Value::Mapping(vec![(Value::Int8(-1), Value::Handle(77))]),
            Value::Bool(true),
        ])
    };
    let layout = Layout::Record(vec![
        Layout::Optional(Box::new(Layout::Sequence(Box::new(Layout::Enum(vec![
            vec![],
            vec![primitive(Primitive::Int64), primitive(Primitive::Bytes)],
        ]))))),
        Layout::Mapping(Box::new(primitive(Primitive::Int8)), Box::new(Layout::Handle)),
        primitive(Primitive::Bool),
    ]);
    let buf = write(&make());
    let n = buf.len();
    assert_eq!(read(&layout, &buf, 0), Ok((make(), n)));
    let mut longer = buf.clone();
    longer.extend_from_slice(&[1, 2, 3]);
    assert_eq!(read(&layout, &longer, 0), Ok((make(), n)));
}

#[test]
fn lowering_passes_numbers_directly_and_the_rest_in_buffers() {
    assert_eq!(lower(&Value::Bool(true)), Ok(Native::Int8(1)));
    assert_eq!(lower(&Value::Bool(false)), Ok(Native::Int8(0)));
    assert_eq!(lower(&Value::Int32(-7)), Ok(Native::Int32(-7)));
    assert_eq!(lower(&Value::Float64(3)), Ok(Native::Float64(3)));
    assert_eq!(lower(&Value::Handle(5)), Ok(Native::Handle(5)));
    assert_eq!(lower(&Value::String("hi".to_string())), Ok(Native::Buffer(vec![b'h', b'i'])));
    assert_eq!(lower(&strings(&["a"])), Ok(Native::Buffer(vec![0, 0, 0, 1, 0, 0, 0, 1, b'a'])));
    assert_eq!(lower(&Value::Enum(0x7fff_ffff, vec![])), Err(WireError::TooLong));
}

#[test]
fn lifting_takes_back_what_was_lowered() {
    let cases: Vec<(Layout, Value)> = vec![
        (primitive(Primitive::Bool), Value::Bool(true)),
        (primitive(Primitive::UInt16), Value::UInt16(9)),
        (primitive(Primitive::Int64), Value::Int64(-9)),
        (primitive(Primitive::Float32), Value::Float32(9)),
        (primitive(Primitive::String), Value::String("gr\u{fc}n".to_string())),
        (primitive(Primitive::Bytes), Value::Bytes(vec![0, 255])),
        (Layout::Handle, Value::Handle(u64::MAX)),
        (Layout::Sequence(Box::new(primitive(Primitive::String))), strings(&["", "ab", "xyz"])),
        (Layout::Optional(Box::new(primitive(Primitive::Bool))), Value::Optional(None)),
    ];
    for (layout, v) in cases {
        let native = lower(&v).unwrap();
        assert_eq!(lift(&layout, native), Ok(v));
    }
}

#[test]
fn lifting_refuses_what_is_not_the_value() {
    let list = Layout::Sequence(Box::new(primitive(Primitive::UInt8)));
    assert_eq!(
        lift(&list, Native::Buffer(vec![0, 0, 0, 1, 5, 6])),
        Err(WireError::TrailingBytes)
    );
    assert_eq!(lift(&list, Native::Int8(1)), Err(WireError::WrongRepresentation));
    assert_eq!(
        lift(&primitive(Primitive::Int32), Native::UInt32(1)),
        Err(WireError::WrongRepresentation)
    );
    assert_eq!(lift(&primitive(Primitive::Bool), Native::Int8(2)), Err(WireError::InvalidBool));
    assert_eq!(
        lift(&primitive(Primitive::String), Native::Buffer(vec![0xff])),
        Err(WireError::InvalidUtf8)
    );
    assert_eq!(lift(&Layout::Handle, Native::UInt64(1)), Err(WireError::WrongRepresentation));
}

#[test]
fn the_allocation_size_is_the_length_of_the_encoding() {
    assert_eq!(allocation_size(&Value::Bool(true)), 1);
    assert_eq!(allocation_size(&Value::Int16(-1)), 2);
    assert_eq!(allocation_size(&Value::Float64(0)), 8);
    assert_eq!(allocation_size(&Value::Handle(1)), 8);
    assert_eq!(allocation_size(&Value::String("gr\u{fc}n".to_string())), 4 + 5);
    assert_eq!(allocation_size(&Value::Bytes(vec![1, 2, 3])), 7);
    assert_eq!(allocation_size(&Value::Optional(None)), 1);
    assert_eq!(allocation_size(&Value::Optional(Some(Box::new(Value::UInt32(1))))), 5);
    assert_eq!(allocation_size(&strings(&["", "ab", "xyz"])), 21);
    assert_eq!(allocation_size(&Value::Record(vec![])), 0);
    let nested = Value::Mapping(vec![(
        Value::String("k".to_string()),
        Value::Enum(3, vec![Value::UInt8(1), Value::Sequence(vec![Value::Bool(false)])]),
    )]);
    assert_eq!(allocation_size(&nested), write(&nested).len());
    assert_eq!(allocation_size(&nested), 4 + 5 + 4 + 1 + 4 + 1);
}

#[test]
fn a_value_is_written_at_an_offset_in_place_of_what_stands_there() {
    let v = Value::Record(vec![Value::UInt16(0x0102), Value::String("hi".to_string())]);
    let mut buf = vec![9u8; 12];
    assert_eq!(write_at(&v, &mut buf, 3), Ok(8));
    assert_eq!(buf, vec![9, 9, 9, 1, 2, 0, 0, 0, 2, b'h', b'i', 9]);
    let layout = Layout::Record(vec![primitive(Primitive::UInt16), primitive(Primitive::String)]);
    assert_eq!(
        read(&layout, &buf, 3),
        Ok((Value::Record(vec![Value::UInt16(0x0102), Value::String("hi".to_string())]), 8))
    );
    let mut exact = vec![0u8; 8];
    assert_eq!(write_at(&v, &mut exact, 0), Ok(8));
    assert_eq!(write_at(&Value::Record(vec![]), &mut exact, 8), Ok(0));
}

#[test]
fn a_value_without_room_is_refused_and_the_buffer_kept() {
    let v = Value::UInt32(7);
    let mut buf = vec![1u8, 2, 3, 4, 5];
    assert_eq!(write_at(&v, &mut buf, 2), Err(WireError::NoRoom));
    assert_eq!(write_at(&v, &mut buf, 6), Err(WireError::NoRoom));
    assert_eq!(write_at(&v, &mut buf, usize::MAX), Err(WireError::NoRoom));
    assert_eq!(write_at(&Value::Enum(0x7fff_ffff, vec![]), &mut buf, 0), Err(WireError::TooLong));
    assert_eq!(buf, vec![1, 2, 3, 4, 5]);
    assert_eq!(write_at(&v, &mut buf, 1), Ok(4));
    assert_eq!(buf, vec![1, 0, 0, 0, 7]);
}
