//! Lowering a value to what crosses the boundary, and lifting it back.
//!
//! Numbers and handles cross as they are and a boolean as a byte. Text
//! crosses as a buffer of its UTF-8 bytes, every other value as a buffer
//! of its encoding.

use vstd::prelude::*;
use vstd::utf8::{
    decode_utf8,
    encode_utf8,
    encode_utf8_decode_utf8,
    encode_utf8_valid_utf8,
    valid_utf8,
};
use crate::codec::{read, tail, text_from_utf8};
use crate::layout::{decode, encodable, encode, WireError};
use crate::roundtrip::lemma_roundtrip;
use crate::value::{conforms, Layout, NumberKind, Primitive, Value, WireValue};

verus! {

/// The model of what crosses the boundary.
pub enum NativeModel {
    /// A number, passed directly.
    Number { kind: NumberKind, width: nat, value: int },
    /// A buffer of bytes, handed over.
    Buffer(Seq<u8>),
}

/// What crosses the boundary.
#[derive(Debug, PartialEq, Eq)]
pub enum Native {
    Int8(i8),
    UInt8(u8),
    Int16(i16),
    UInt16(u16),
    Int32(i32),
    UInt32(u32),
    Int64(i64),
    UInt64(u64),
    /// The bit pattern of a 32-bit float.
    Float32(u32),
    /// The bit pattern of a 64-bit float.
    Float64(u64),
    /// A pointer-sized handle.
    Handle(u64),
    Buffer(Vec<u8>),
}

impl View for Native {
    type V = NativeModel;

    open spec fn view(&self) -> NativeModel {
        match self {
            Native::Int8(n) => NativeModel::Number {
                kind: NumberKind::Signed,
                width: 1,
                value: *n as int,
            },
            Native::UInt8(n) => NativeModel::Number {
                kind: NumberKind::Unsigned,
                width: 1,
                value: *n as int,
            },
            Native::Int16(n) => NativeModel::Number {
                kind: NumberKind::Signed,
                width: 2,
                value: *n as int,
            },
            Native::UInt16(n) => NativeModel::Number {
                kind: NumberKind::Unsigned,
                width: 2,
                value: *n as int,
            },
            Native::Int32(n) => NativeModel::Number {
                kind: NumberKind::Signed,
                width: 4,
                value: *n as int,
            },
            Native::UInt32(n) => NativeModel::Number {
                kind: NumberKind::Unsigned,
                width: 4,
                value: *n as int,
            },
            Native::Int64(n) => NativeModel::Number {
                kind: NumberKind::Signed,
                width: 8,
                value: *n as int,
            },
            Native::UInt64(n) => NativeModel::Number {
                kind: NumberKind::Unsigned,
                width: 8,
                value: *n as int,
            },
            Native::Float32(bits) => NativeModel::Number {
                kind: NumberKind::Float,
                width: 4,
                value: *bits as int,
            },
            Native::Float64(bits) => NativeModel::Number {
                kind: NumberKind::Float,
                width: 8,
                value: *bits as int,
            },
            Native::Handle(h) => NativeModel::Number {
                kind: NumberKind::Handle,
                width: 8,
                value: *h as int,
            },
            Native::Buffer(bytes) => NativeModel::Buffer(bytes@),
        }
    }
}

/// What `v` is lowered to.
pub open spec fn lowered(v: WireValue) -> NativeModel {
    match v {
        WireValue::Bool(b) => NativeModel::Number {
            kind: NumberKind::Signed,
            width: 1,
            value: if b { 1 } else { 0 },
        },
        WireValue::Number { kind, width, value } => NativeModel::Number { kind, width, value },
        WireValue::Text(s) => NativeModel::Buffer(encode_utf8(s)),
        _ => NativeModel::Buffer(encode(v)),
    }
}

/// Whether `v` can be lowered: text always, another value that crosses in a
/// buffer where it has an encoding.
pub open spec fn lowerable(v: WireValue) -> bool {
    v is Bool || v is Number || v is Text || encodable(v)
}

/// The value of layout `layout` that `native` is lifted to, or why there is
/// none.
pub open spec fn lifted(layout: Layout, native: NativeModel) -> Result<WireValue, WireError> {
    match layout {
        Layout::Primitive(Primitive::Bool) => match native {
            NativeModel::Number { kind: NumberKind::Signed, width, value } if width == 1 => {
                if value == 0 {
                    Ok(WireValue::Bool(false))
                } else if value == 1 {
                    Ok(WireValue::Bool(true))
                } else {
                    Err(WireError::InvalidBool)
                }
            },
            _ => Err(WireError::WrongRepresentation),
        },
        Layout::Primitive(Primitive::String) => match native {
            NativeModel::Buffer(bytes) => if valid_utf8(bytes) {
                Ok(WireValue::Text(decode_utf8(bytes)))
            } else {
                Err(WireError::InvalidUtf8)
            },
            _ => Err(WireError::WrongRepresentation),
        },
        Layout::Primitive(Primitive::Bytes) => lifted_from_buffer(layout, native),
        Layout::Primitive(p) => match native {
            NativeModel::Number { kind, width, value } if kind == p.kind() && width
                == p.width() => Ok(WireValue::Number { kind, width, value }),
            _ => Err(WireError::WrongRepresentation),
        },
        Layout::Handle => match native {
            NativeModel::Number { kind: NumberKind::Handle, width, value } if width == 8 => Ok(
                WireValue::Number { kind: NumberKind::Handle, width, value },
            ),
            _ => Err(WireError::WrongRepresentation),
        },
        _ => lifted_from_buffer(layout, native),
    }
}

/// The value that a buffer holds: the one that its bytes encode, all of them.
pub open spec fn lifted_from_buffer(layout: Layout, native: NativeModel) -> Result<
    WireValue,
    WireError,
> {
    match native {
        NativeModel::Buffer(bytes) => match decode(layout, bytes) {
            Err(e) => Err(e),
            Ok((v, n)) => if n == bytes.len() {
                Ok(v)
            } else {
                Err(WireError::TrailingBytes)
            },
        },
        _ => Err(WireError::WrongRepresentation),
    }
}

/// Lifting takes back the value that was lowered.
pub proof fn lemma_lift_lower(v: WireValue, layout: Layout)
    requires
        conforms(v, layout),
        lowerable(v),
    ensures
        lifted(layout, lowered(v)) == Ok::<WireValue, WireError>(v),
{
    match layout {
        Layout::Primitive(Primitive::String) => {
            encode_utf8_valid_utf8(v->Text_0);
            encode_utf8_decode_utf8(v->Text_0);
        },
        Layout::Primitive(Primitive::Bool) => {},
        Layout::Primitive(Primitive::Bytes) => {
            lemma_roundtrip(v, layout, Seq::empty());
            assert(encode(v) + Seq::<u8>::empty() =~= encode(v));
        },
        Layout::Primitive(_) => {},
        Layout::Handle => {},
        _ => {
            lemma_roundtrip(v, layout, Seq::empty());
            assert(encode(v) + Seq::<u8>::empty() =~= encode(v));
        },
    }
}

/// What the result of lowering stands for.
pub open spec fn lower_model(r: Result<Native, WireError>) -> Result<NativeModel, WireError> {
    match r {
        Ok(native) => Ok(native@),
        Err(e) => Err(e),
    }
}

/// What the result of lifting stands for.
pub open spec fn lift_model(r: Result<Value, WireError>) -> Result<WireValue, WireError> {
    match r {
        Ok(v) => Ok(v@),
        Err(e) => Err(e),
    }
}

/// Lowers `v` to what crosses the boundary. A value that crosses in a
/// buffer and has no encoding is refused.
pub fn lower(v: &Value) -> (r: Result<Native, WireError>)
    ensures
        lower_model(r) == if lowerable(v@) {
            Ok::<NativeModel, WireError>(lowered(v@))
        } else {
            Err::<NativeModel, WireError>(WireError::TooLong)
        },
{
    match v {
        Value::Bool(b) => Ok(Native::Int8(if *b { 1 } else { 0 })),
        Value::Int8(n) => Ok(Native::Int8(*n)),
        Value::UInt8(n) => Ok(Native::UInt8(*n)),
        Value::Int16(n) => Ok(Native::Int16(*n)),
        Value::UInt16(n) => Ok(Native::UInt16(*n)),
        Value::Int32(n) => Ok(Native::Int32(*n)),
        Value::UInt32(n) => Ok(Native::UInt32(*n)),
        Value::Int64(n) => Ok(Native::Int64(*n)),
        Value::UInt64(n) => Ok(Native::UInt64(*n)),
        Value::Float32(bits) => Ok(Native::Float32(*bits)),
        Value::Float64(bits) => Ok(Native::Float64(*bits)),
        Value::Handle(h) => Ok(Native::Handle(*h)),
        Value::String(s) => Ok(Native::Buffer(s.as_str().as_bytes_vec())),
        _ => {
            let mut buf: Vec<u8> = Vec::new();
            match crate::codec::write(v, &mut buf) {
                Ok(_) => {
                    assert(buf@ =~= encode(v@));
                    Ok(Native::Buffer(buf))
                },
                Err(e) => Err(e),
            }
        },
    }
}

/// Lifts what crossed the boundary to the value of layout `layout` that it
/// stands for. A buffer must hold that value and nothing behind it.
pub fn lift(layout: &Layout, native: Native) -> (r: Result<Value, WireError>)
    ensures
        lift_model(r) == lifted(*layout, native@),
{
    match layout {
        Layout::Primitive(Primitive::Bool) => match native {
            Native::Int8(n) => if n == 0 {
                Ok(Value::Bool(false))
            } else if n == 1 {
                Ok(Value::Bool(true))
            } else {
                Err(WireError::InvalidBool)
            },
            _ => Err(WireError::WrongRepresentation),
        },
        Layout::Primitive(Primitive::String) => match native {
            Native::Buffer(bytes) => match text_from_utf8(bytes) {
                Some(s) => Ok(Value::String(s)),
                None => Err(WireError::InvalidUtf8),
            },
            _ => Err(WireError::WrongRepresentation),
        },
        Layout::Primitive(Primitive::Bytes) => lift_buffer(layout, native),
        Layout::Primitive(p) => lift_number(*p, native),
        Layout::Handle => match native {
            Native::Handle(h) => Ok(Value::Handle(h)),
            _ => Err(WireError::WrongRepresentation),
        },
        _ => lift_buffer(layout, native),
    }
}

/// Lifts a number of the numeric type `p`.
fn lift_number(p: Primitive, native: Native) -> (r: Result<Value, WireError>)
    requires
        p.is_number(),
    ensures
        lift_model(r) == lifted(Layout::Primitive(p), native@),
{
    match (p, native) {
        (Primitive::Int8, Native::Int8(n)) => Ok(Value::Int8(n)),
        (Primitive::UInt8, Native::UInt8(n)) => Ok(Value::UInt8(n)),
        (Primitive::Int16, Native::Int16(n)) => Ok(Value::Int16(n)),
        (Primitive::UInt16, Native::UInt16(n)) => Ok(Value::UInt16(n)),
        (Primitive::Int32, Native::Int32(n)) => Ok(Value::Int32(n)),
        (Primitive::UInt32, Native::UInt32(n)) => Ok(Value::UInt32(n)),
        (Primitive::Int64, Native::Int64(n)) => Ok(Value::Int64(n)),
        (Primitive::UInt64, Native::UInt64(n)) => Ok(Value::UInt64(n)),
        (Primitive::Float32, Native::Float32(bits)) => Ok(Value::Float32(bits)),
        (Primitive::Float64, Native::Float64(bits)) => Ok(Value::Float64(bits)),
        _ => Err(WireError::WrongRepresentation),
    }
}

/// Lifts a value that crossed in a buffer.
fn lift_buffer(layout: &Layout, native: Native) -> (r: Result<Value, WireError>)
    ensures
        lift_model(r) == lifted_from_buffer(*layout, native@),
{
    match native {
        Native::Buffer(bytes) => {
            assert(tail(bytes@, 0) =~= bytes@);
            match read(layout, bytes.as_slice(), 0) {
                Err(e) => Err(e),
                Ok((v, n)) => if n == bytes.len() {
                    Ok(v)
                } else {
                    Err(WireError::TrailingBytes)
                },
            }
        },
        _ => Err(WireError::WrongRepresentation),
    }
}

} // verus!
