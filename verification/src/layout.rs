//! The binary layout of values in a buffer: what the generated converters
//! write, and what they accept when they read.

use vstd::prelude::*;
use vstd::utf8::{decode_utf8, encode_utf8, valid_utf8};
use crate::bytes::{be_bytes, be_value, to_signed, to_unsigned};
use crate::value::{Layout, NumberKind, Primitive, WireValue};

verus! {

/// Why a buffer is not the encoding of a value, or a value has no encoding.
#[derive(Clone, Copy, Debug, PartialEq, Eq, Structural)]
pub enum WireError {
    /// The buffer ends before the value does.
    UnexpectedEnd,
    /// A boolean byte is neither 0 nor 1.
    InvalidBool,
    /// A presence flag is neither 0 nor 1.
    InvalidFlag,
    /// The bytes of a text are not UTF-8.
    InvalidUtf8,
    /// A count or length has its sign bit set.
    NegativeLength,
    /// A discriminant names no variant of the enum.
    UnknownVariant,
    /// A count or length does not fit the four bytes it is written in.
    TooLong,
    /// Bytes are left in a buffer after the value it was lowered to.
    TrailingBytes,
    /// A native value is not of the representation that the type is passed in.
    WrongRepresentation,
    /// The buffer has no room for the value at the offset.
    NoRoom,
}

/// The largest count or length that the format can hold.
pub open spec fn max_count() -> nat {
    0x7fff_ffff
}

/// The result of reading a value: the value and the number of bytes it took.
pub type Decoded = Result<(WireValue, nat), WireError>;

/// The result of reading several values: the values and the number of bytes
/// they took together.
pub type DecodedMany = Result<(Seq<WireValue>, nat), WireError>;

/// The encodings of `items`, one after the other.
pub open spec fn encode_all(items: Seq<WireValue>) -> Seq<u8>
    decreases items,
{
    if items.len() == 0 {
        Seq::empty()
    } else {
        encode(items[0]) + encode_all(items.drop_first())
    }
}

/// The encodings of the keys and values of `entries`, interleaved.
pub open spec fn encode_entries(entries: Seq<(WireValue, WireValue)>) -> Seq<u8>
    decreases entries,
{
    if entries.len() == 0 {
        Seq::empty()
    } else {
        encode(entries[0].0) + encode(entries[0].1) + encode_entries(entries.drop_first())
    }
}

/// The bytes that stand for `v`.
///
/// A number is its bytes in network order. Text and bytes follow their
/// length in four bytes; a sequence or map follows its count in four bytes.
/// An optional value follows a flag byte. A record is its fields in order. An
/// enum is a four-byte discriminant, counted from 1, and the variant's fields.
pub open spec fn encode(v: WireValue) -> Seq<u8>
    decreases v,
{
    match v {
        WireValue::Bool(b) => seq![if b { 1u8 } else { 0u8 }],
        WireValue::Number { kind, width, value } => be_bytes(to_unsigned(value, width), width),
        WireValue::Text(s) => be_bytes(encode_utf8(s).len(), 4) + encode_utf8(s),
        WireValue::Bytes(b) => be_bytes(b.len(), 4) + b,
        WireValue::Optional(o) => match o {
            None => seq![0u8],
            Some(inner) => seq![1u8] + encode(*inner),
        },
        WireValue::Sequence(items) => be_bytes(items.len(), 4) + encode_all(items),
        WireValue::Mapping(entries) => be_bytes(entries.len(), 4) + encode_entries(entries),
        WireValue::Record(fields) => encode_all(fields),
        WireValue::Enum { variant, fields } => be_bytes(variant + 1, 4) + encode_all(fields),
    }
}

/// Whether every count and length in `v` fits the four bytes it is written in.
pub open spec fn encodable(v: WireValue) -> bool
    decreases v,
{
    match v {
        WireValue::Bool(_) => true,
        WireValue::Number { .. } => true,
        WireValue::Text(s) => encode_utf8(s).len() <= max_count(),
        WireValue::Bytes(b) => b.len() <= max_count(),
        WireValue::Optional(o) => o matches Some(inner) ==> encodable(*inner),
        WireValue::Sequence(items) => items.len() <= max_count() && forall|i: int|
            0 <= i < items.len() ==> encodable(#[trigger] items[i]),
        WireValue::Mapping(entries) => entries.len() <= max_count() && forall|i: int|
            0 <= i < entries.len() ==> encodable((#[trigger] entries[i]).0) && encodable(
                entries[i].1,
            ),
        WireValue::Record(fields) => forall|i: int|
            0 <= i < fields.len() ==> encodable(#[trigger] fields[i]),
        WireValue::Enum { variant, fields } => variant < max_count() && forall|i: int|
            0 <= i < fields.len() ==> encodable(#[trigger] fields[i]),
    }
}

/// The count or length that `b` starts with.
pub open spec fn decode_count(b: Seq<u8>) -> Result<nat, WireError> {
    if b.len() < 4 {
        Err(WireError::UnexpectedEnd)
    } else if be_value(b.subrange(0, 4)) > max_count() {
        Err(WireError::NegativeLength)
    } else {
        Ok(be_value(b.subrange(0, 4)))
    }
}

/// The number of `width` bytes that `b` starts with, read as `kind`.
pub open spec fn decode_number(kind: NumberKind, width: nat, b: Seq<u8>) -> Decoded {
    if b.len() < width {
        Err(WireError::UnexpectedEnd)
    } else {
        let raw = be_value(b.subrange(0, width as int));
        let value = if kind is Signed {
            to_signed(raw, width)
        } else {
            raw as int
        };
        Ok((WireValue::Number { kind, width, value }, width))
    }
}

/// `more` with `first` put in front of its values and `used` added to its
/// byte count.
pub open spec fn after(first: Seq<WireValue>, used: nat, more: DecodedMany) -> DecodedMany {
    match more {
        Ok((items, n)) => Ok((first + items, used + n)),
        Err(e) => Err(e),
    }
}

/// `more` with `first` put in front of its entries and `used` added to its
/// byte count.
pub open spec fn after_entries(
    first: Seq<(WireValue, WireValue)>,
    used: nat,
    more: Result<(Seq<(WireValue, WireValue)>, nat), WireError>,
) -> Result<(Seq<(WireValue, WireValue)>, nat), WireError> {
    match more {
        Ok((entries, n)) => Ok((first + entries, used + n)),
        Err(e) => Err(e),
    }
}

/// One value of each layout of `fields`, read one after the other from the
/// start of `b`.
pub open spec fn decode_fields(fields: Seq<Layout>, b: Seq<u8>) -> DecodedMany
    decreases fields, 0nat, 0nat,
{
    if fields.len() == 0 {
        Ok((Seq::empty(), 0))
    } else {
        match decode(fields[0], b) {
            Err(e) => Err(e),
            Ok((v, n)) => after(seq![v], n, decode_fields(fields.drop_first(), b.skip(n as int))),
        }
    }
}

/// `count` values of layout `element`, read one after the other from the
/// start of `b`.
pub open spec fn decode_repeat(element: Layout, count: nat, b: Seq<u8>) -> DecodedMany
    decreases element, 2nat, count,
{
    if count == 0 {
        Ok((Seq::empty(), 0))
    } else {
        match decode(element, b) {
            Err(e) => Err(e),
            Ok((v, n)) => after(
                seq![v],
                n,
                decode_repeat(element, (count - 1) as nat, b.skip(n as int)),
            ),
        }
    }
}

/// `count` entries of the map layout `mapping`, each a key and then a value,
/// read one after the other from the start of `b`.
pub open spec fn decode_entries(mapping: Layout, count: nat, b: Seq<u8>) -> Result<
    (Seq<(WireValue, WireValue)>, nat),
    WireError,
>
    decreases mapping, 0nat, count,
{
    if count == 0 {
        Ok((Seq::empty(), 0))
    } else if let Layout::Mapping(key, value) = mapping {
        match decode(*key, b) {
            Err(e) => Err(e),
            Ok((k, n)) => match decode(*value, b.skip(n as int)) {
                Err(e) => Err(e),
                Ok((v, m)) => after_entries(
                    seq![(k, v)],
                    n + m,
                    decode_entries(mapping, (count - 1) as nat, b.skip((n + m) as int)),
                ),
            },
        }
    } else {
        Ok((Seq::empty(), 0))
    }
}

/// The value of layout `layout` that `b` starts with, and the number of
/// bytes it takes; or why there is none.
pub open spec fn decode(layout: Layout, b: Seq<u8>) -> Decoded
    decreases layout, 1nat, 0nat,
{
    match layout {
        Layout::Primitive(p) => match p {
            Primitive::Bool => if b.len() < 1 {
                Err(WireError::UnexpectedEnd)
            } else if b[0] == 0 {
                Ok((WireValue::Bool(false), 1))
            } else if b[0] == 1 {
                Ok((WireValue::Bool(true), 1))
            } else {
                Err(WireError::InvalidBool)
            },
            Primitive::String => match decode_count(b) {
                Err(e) => Err(e),
                Ok(n) => if b.len() < 4 + n {
                    Err(WireError::UnexpectedEnd)
                } else if valid_utf8(b.subrange(4, 4 + n as int)) {
                    Ok((WireValue::Text(decode_utf8(b.subrange(4, 4 + n as int))), 4 + n))
                } else {
                    Err(WireError::InvalidUtf8)
                },
            },
            Primitive::Bytes => match decode_count(b) {
                Err(e) => Err(e),
                Ok(n) => if b.len() < 4 + n {
                    Err(WireError::UnexpectedEnd)
                } else {
                    Ok((WireValue::Bytes(b.subrange(4, 4 + n as int)), 4 + n))
                },
            },
            _ => decode_number(p.kind(), p.width(), b),
        },
        Layout::Handle => decode_number(NumberKind::Handle, 8, b),
        Layout::Optional(inner) => if b.len() < 1 {
            Err(WireError::UnexpectedEnd)
        } else if b[0] == 0 {
            Ok((WireValue::Optional(None), 1))
        } else if b[0] == 1 {
            match decode(*inner, b.skip(1)) {
                Err(e) => Err(e),
                Ok((v, n)) => Ok((WireValue::Optional(Some(Box::new(v))), 1 + n)),
            }
        } else {
            Err(WireError::InvalidFlag)
        },
        Layout::Sequence(element) => match decode_count(b) {
            Err(e) => Err(e),
            Ok(count) => match decode_repeat(*element, count, b.skip(4)) {
                Err(e) => Err(e),
                Ok((items, n)) => Ok((WireValue::Sequence(items), 4 + n)),
            },
        },
        Layout::Mapping(_, _) => match decode_count(b) {
            Err(e) => Err(e),
            Ok(count) => match decode_entries(layout, count, b.skip(4)) {
                Err(e) => Err(e),
                Ok((entries, n)) => Ok((WireValue::Mapping(entries), 4 + n)),
            },
        },
        Layout::Record(fields) => match decode_fields(fields@, b) {
            Err(e) => Err(e),
            Ok((items, n)) => Ok((WireValue::Record(items), n)),
        },
        Layout::Enum(variants) => if b.len() < 4 {
            Err(WireError::UnexpectedEnd)
        } else {
            let tag = be_value(b.subrange(0, 4));
            if tag < 1 || tag > variants@.len() || tag > max_count() {
                Err(WireError::UnknownVariant)
            } else {
                match decode_fields(variants@[tag - 1]@, b.skip(4)) {
                    Err(e) => Err(e),
                    Ok((fields, n)) => Ok(
                        (WireValue::Enum { variant: (tag - 1) as nat, fields }, 4 + n),
                    ),
                }
            }
        },
    }
}

} // verus!
