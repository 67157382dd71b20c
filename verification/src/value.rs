//! Values that cross the boundary, their mathematical model, and the layouts
//! that say how a value of a given type is laid out in a buffer.

use vstd::prelude::*;
use crate::bytes::{fits_signed, radix};

verus! {

/// What the bytes of a fixed-width number stand for.
#[derive(Clone, Copy, Debug, PartialEq, Eq, Structural)]
pub enum NumberKind {
    /// Two's complement.
    Signed,
    /// Plain binary.
    Unsigned,
    /// The bit pattern of an IEEE 754 number.
    Float,
    /// An opaque handle to an object on the native side.
    Handle,
}

/// The builtin types with a fixed layout of their own.
#[derive(Clone, Copy, Debug, PartialEq, Eq, Structural)]
pub enum Primitive {
    Bool,
    Int8,
    UInt8,
    Int16,
    UInt16,
    Int32,
    UInt32,
    Int64,
    UInt64,
    Float32,
    Float64,
    String,
    Bytes,
}

impl Primitive {
    /// Whether the type is a fixed-width number.
    pub open spec fn is_number(self) -> bool {
        !(self is Bool || self is String || self is Bytes)
    }

    /// The number of bytes of a fixed-width type; 0 for text and bytes.
    pub open spec fn width(self) -> nat {
        match self {
            Primitive::Bool | Primitive::Int8 | Primitive::UInt8 => 1,
            Primitive::Int16 | Primitive::UInt16 => 2,
            Primitive::Int32 | Primitive::UInt32 | Primitive::Float32 => 4,
            Primitive::Int64 | Primitive::UInt64 | Primitive::Float64 => 8,
            Primitive::String | Primitive::Bytes => 0,
        }
    }

    /// How the bytes of a number of this type are read.
    pub open spec fn kind(self) -> NumberKind {
        match self {
            Primitive::Int8 | Primitive::Int16 | Primitive::Int32 | Primitive::Int64 => {
                NumberKind::Signed
            },
            Primitive::Float32 | Primitive::Float64 => NumberKind::Float,
            _ => NumberKind::Unsigned,
        }
    }
}

/// The mathematical model of a value: what the wire format is stated over.
pub enum WireValue {
    Bool(bool),
    /// A fixed-width number. A float is held by its bit pattern, a handle by
    /// its number.
    Number { kind: NumberKind, width: nat, value: int },
    Text(Seq<char>),
    Bytes(Seq<u8>),
    Optional(Option<Box<WireValue>>),
    Sequence(Seq<WireValue>),
    /// The entries of a map in insertion order.
    Mapping(Seq<(WireValue, WireValue)>),
    /// The fields of a record in declaration order.
    Record(Seq<WireValue>),
    /// A variant, counted from 0 in declaration order, with its fields.
    Enum { variant: nat, fields: Seq<WireValue> },
}

/// Whether `value` is in the range of a number of `width` bytes read as `kind`.
pub open spec fn in_range(kind: NumberKind, width: nat, value: int) -> bool {
    if kind is Signed {
        fits_signed(value, width)
    } else {
        0 <= value < radix(width)
    }
}

/// A value as the generated converters hold it.
#[derive(Debug, PartialEq, Eq)]
pub enum Value {
    Bool(bool),
    Int8(i8),
    UInt8(u8),
    Int16(i16),
    UInt16(u16),
    Int32(i32),
    UInt32(u32),
    Int64(i64),
    UInt64(u64),
    /// The bit pattern of a 32-bit float.
    Float32(u32),
    /// The bit pattern of a 64-bit float.
    Float64(u64),
    String(String),
    Bytes(Vec<u8>),
    Optional(Option<Box<Value>>),
    Sequence(Vec<Value>),
    /// The entries of a map in insertion order.
    Mapping(Vec<(Value, Value)>),
    /// The fields of a record in declaration order.
    Record(Vec<Value>),
    /// The variant, counted from 0 in declaration order, and its fields.
    Enum(u32, Vec<Value>),
    /// The handle of an object or callback interface.
    Handle(u64),
}

/// The model of each value of `items`, in order.
pub open spec fn models(items: Seq<Value>) -> Seq<WireValue>
    decreases items,
{
    Seq::new(
        items.len(),
        |i: int|
            if 0 <= i < items.len() {
                model(items[i])
            } else {
                WireValue::Bool(false)
            },
    )
}

/// The model of each entry of `entries`, in order.
pub open spec fn entry_models(entries: Seq<(Value, Value)>) -> Seq<(WireValue, WireValue)>
    decreases entries,
{
    Seq::new(
        entries.len(),
        |i: int|
            if 0 <= i < entries.len() {
                (model(entries[i].0), model(entries[i].1))
            } else {
                (WireValue::Bool(false), WireValue::Bool(false))
            },
    )
}

/// The model of a value.
pub open spec fn model(v: Value) -> WireValue
    decreases v,
{
    match v {
        Value::Bool(b) => WireValue::Bool(b),
        Value::Int8(n) => WireValue::Number { kind: NumberKind::Signed, width: 1, value: n as int },
        Value::UInt8(n) => WireValue::Number {
            kind: NumberKind::Unsigned,
            width: 1,
            value: n as int,
        },
        Value::Int16(n) => WireValue::Number {
            kind: NumberKind::Signed,
            width: 2,
            value: n as int,
        },
        Value::UInt16(n) => WireValue::Number {
            kind: NumberKind::Unsigned,
            width: 2,
            value: n as int,
        },
        Value::Int32(n) => WireValue::Number {
            kind: NumberKind::Signed,
            width: 4,
            value: n as int,
        },
        Value::UInt32(n) => WireValue::Number {
            kind: NumberKind::Unsigned,
            width: 4,
            value: n as int,
        },
        Value::Int64(n) => WireValue::Number {
            kind: NumberKind::Signed,
            width: 8,
            value: n as int,
        },
        Value::UInt64(n) => WireValue::Number {
            kind: NumberKind::Unsigned,
            width: 8,
            value: n as int,
        },
        Value::Float32(bits) => WireValue::Number {
            kind: NumberKind::Float,
            width: 4,
            value: bits as int,
        },
        Value::Float64(bits) => WireValue::Number {
            kind: NumberKind::Float,
            width: 8,
            value: bits as int,
        },
        Value::String(s) => WireValue::Text(s@),
        Value::Bytes(b) => WireValue::Bytes(b@),
        Value::Optional(o) => WireValue::Optional(
            match o {
                Some(inner) => Some(Box::new(model(*inner))),
                None => None,
            },
        ),
        Value::Sequence(items) => WireValue::Sequence(models(items@)),
        Value::Mapping(entries) => WireValue::Mapping(entry_models(entries@)),
        Value::Record(fields) => WireValue::Record(models(fields@)),
        Value::Enum(variant, fields) => WireValue::Enum {
            variant: variant as nat,
            fields: models(fields@),
        },
        Value::Handle(h) => WireValue::Number {
            kind: NumberKind::Handle,
            width: 8,
            value: h as int,
        },
    }
}

/// The models of a run of values are as many, each the model of its value.
pub proof fn lemma_models(items: Seq<Value>)
    ensures
        models(items).len() == items.len(),
        forall|i: int| 0 <= i < items.len() ==> #[trigger] models(items)[i] == model(items[i]),
{
}

/// The models of a run of entries are as many, each the models of its key
/// and value.
pub proof fn lemma_entry_models(entries: Seq<(Value, Value)>)
    ensures
        entry_models(entries).len() == entries.len(),
        forall|i: int|
            0 <= i < entries.len() ==> #[trigger] entry_models(entries)[i] == (
                model(entries[i].0),
                model(entries[i].1),
            ),
{
}

impl View for Value {
    type V = WireValue;

    open spec fn view(&self) -> WireValue {
        model(*self)
    }
}

/// How the values of one type are laid out: a type reference with every
/// name resolved.
#[derive(Debug, PartialEq, Eq)]
pub enum Layout {
    Primitive(Primitive),
    /// An object or callback interface: a handle, never the object itself.
    Handle,
    Optional(Box<Layout>),
    Sequence(Box<Layout>),
    Mapping(Box<Layout>, Box<Layout>),
    /// A record, by the layouts of its fields in declaration order.
    Record(Vec<Layout>),
    /// An enum, by the field layouts of each variant in declaration order.
    Enum(Vec<Vec<Layout>>),
}

/// Whether each of `items` is a value of the layout at the same place in `fields`.
pub open spec fn all_conform(items: Seq<WireValue>, fields: Seq<Layout>) -> bool
    decreases items,
{
    &&& items.len() == fields.len()
    &&& forall|i: int| 0 <= i < items.len() ==> conforms(#[trigger] items[i], fields[i])
}

/// Whether `v` is a value of the type that `layout` lays out.
pub open spec fn conforms(v: WireValue, layout: Layout) -> bool
    decreases v,
{
    match layout {
        Layout::Primitive(p) => match p {
            Primitive::Bool => v is Bool,
            Primitive::String => v is Text,
            Primitive::Bytes => v is Bytes,
            _ => v matches WireValue::Number { kind, width, value } && kind == p.kind() && width
                == p.width() && in_range(kind, width, value),
        },
        Layout::Handle => v matches WireValue::Number { kind, width, value } && kind
            is Handle && width == 8 && in_range(kind, width, value),
        Layout::Optional(inner) => v matches WireValue::Optional(o) && (o matches Some(b)
            ==> conforms(*b, *inner)),
        Layout::Sequence(element) => v matches WireValue::Sequence(items) && forall|i: int|
            0 <= i < items.len() ==> conforms(#[trigger] items[i], *element),
        Layout::Mapping(key, value) => v matches WireValue::Mapping(entries) && forall|i: int|
            0 <= i < entries.len() ==> conforms((#[trigger] entries[i]).0, *key) && conforms(
                entries[i].1,
                *value,
            ),
        Layout::Record(fields) => v matches WireValue::Record(items) && all_conform(
            items,
            fields@,
        ),
        Layout::Enum(variants) => v matches WireValue::Enum { variant, fields } && variant
            < variants@.len() && all_conform(fields, variants@[variant as int]@),
    }
}

} // verus!
