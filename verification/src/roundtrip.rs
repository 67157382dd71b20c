//! The laws of the wire format: reading takes back what writing put, and
//! what reading accepts is what writing would have put.

use vstd::prelude::*;
use vstd::utf8::{
    decode_utf8_encode_utf8,
    encode_utf8,
    encode_utf8_decode_utf8,
    encode_utf8_valid_utf8,
};
use crate::bytes::{
    be_bytes,
    be_value,
    lemma_be_bytes_len,
    lemma_be_canonical,
    lemma_be_roundtrip,
    lemma_be_value_bound,
    lemma_radix_values,
    to_unsigned,
};
use crate::layout::{
    decode,
    decode_count,
    decode_entries,
    decode_fields,
    decode_number,
    decode_repeat,
    encodable,
    encode,
    encode_all,
    encode_entries,
    max_count,
    WireError,
};
use crate::value::{all_conform, conforms, in_range, Layout, NumberKind, Primitive, WireValue};

verus! {

/// A count that was written in four bytes is read back, whatever follows it.
pub proof fn lemma_count_roundtrip(n: nat, rest: Seq<u8>)
    requires
        n <= max_count(),
    ensures
        decode_count(be_bytes(n, 4) + rest) == Ok::<nat, WireError>(n),
        (be_bytes(n, 4) + rest).skip(4) == rest,
        be_bytes(n, 4).len() == 4,
{
    lemma_be_bytes_len(n, 4);
    lemma_radix_values();
    lemma_be_roundtrip(n, 4);
    assert((be_bytes(n, 4) + rest).subrange(0, 4) =~= be_bytes(n, 4));
    assert((be_bytes(n, 4) + rest).skip(4) =~= rest);
}

/// A number that was written is read back, whatever follows it.
pub proof fn lemma_number_roundtrip(kind: NumberKind, width: nat, value: int, rest: Seq<u8>)
    requires
        in_range(kind, width, value),
    ensures
        decode_number(kind, width, be_bytes(to_unsigned(value, width), width) + rest) == Ok::<
            (WireValue, nat),
            WireError,
        >((WireValue::Number { kind, width, value }, width)),
        be_bytes(to_unsigned(value, width), width).len() == width,
{
    let raw = to_unsigned(value, width);
    lemma_be_bytes_len(raw, width);
    lemma_be_roundtrip(raw, width);
    assert((be_bytes(raw, width) + rest).subrange(0, width as int) =~= be_bytes(raw, width));
}

/// Reading takes back the fields of a record that were written, and
/// exactly their bytes.
pub proof fn lemma_fields_roundtrip(items: Seq<WireValue>, fields: Seq<Layout>, rest: Seq<u8>)
    requires
        all_conform(items, fields),
        forall|i: int| 0 <= i < items.len() ==> encodable(#[trigger] items[i]),
    ensures
        decode_fields(fields, encode_all(items) + rest) == Ok::<(Seq<WireValue>, nat), WireError>(
            (items, encode_all(items).len()),
        ),
    decreases items, 0nat,
{
    if items.len() == 0 {
        assert(items =~= Seq::empty());
    } else {
        let tail = items.drop_first();
        let b = encode_all(items) + rest;
        assert(b =~= encode(items[0]) + (encode_all(tail) + rest));
        lemma_roundtrip(items[0], fields[0], encode_all(tail) + rest);
        assert(b.skip(encode(items[0]).len() as int) =~= encode_all(tail) + rest);
        assert(all_conform(tail, fields.drop_first())) by {
            assert forall|i: int| 0 <= i < tail.len() implies conforms(
                #[trigger] tail[i],
                fields.drop_first()[i],
            ) by {
                assert(tail[i] == items[i + 1]);
            }
        }
        assert forall|i: int| 0 <= i < tail.len() implies encodable(#[trigger] tail[i]) by {
            assert(tail[i] == items[i + 1]);
        }
        lemma_fields_roundtrip(tail, fields.drop_first(), rest);
        assert(seq![items[0]] + tail =~= items);
    }
}

/// Reading takes back the elements of a sequence that were written, and
/// exactly their bytes.
pub proof fn lemma_repeat_roundtrip(items: Seq<WireValue>, element: Layout, rest: Seq<u8>)
    requires
        forall|i: int| 0 <= i < items.len() ==> conforms(#[trigger] items[i], element),
        forall|i: int| 0 <= i < items.len() ==> encodable(#[trigger] items[i]),
    ensures
        decode_repeat(element, items.len(), encode_all(items) + rest) == Ok::<
            (Seq<WireValue>, nat),
            WireError,
        >((items, encode_all(items).len())),
    decreases items, 0nat,
{
    if items.len() == 0 {
        assert(items =~= Seq::empty());
    } else {
        let tail = items.drop_first();
        let b = encode_all(items) + rest;
        assert(b =~= encode(items[0]) + (encode_all(tail) + rest));
        lemma_roundtrip(items[0], element, encode_all(tail) + rest);
        assert(b.skip(encode(items[0]).len() as int) =~= encode_all(tail) + rest);
        assert forall|i: int| 0 <= i < tail.len() implies conforms(
            #[trigger] tail[i],
            element,
        ) && encodable(tail[i]) by {
            assert(tail[i] == items[i + 1]);
        }
        lemma_repeat_roundtrip(tail, element, rest);
        assert(seq![items[0]] + tail =~= items);
    }
}

/// Reading takes back the entries of a map that were written, in their
/// order, and exactly their bytes.
pub proof fn lemma_entries_roundtrip(
    entries: Seq<(WireValue, WireValue)>,
    mapping: Layout,
    rest: Seq<u8>,
)
    requires
        mapping is Mapping,
        forall|i: int|
            0 <= i < entries.len() ==> conforms((#[trigger] entries[i]).0, *mapping->Mapping_0)
                && conforms(entries[i].1, *mapping->Mapping_1),
        forall|i: int|
            0 <= i < entries.len() ==> encodable((#[trigger] entries[i]).0) && encodable(
                entries[i].1,
            ),
    ensures
        decode_entries(mapping, entries.len(), encode_entries(entries) + rest) == Ok::<
            (Seq<(WireValue, WireValue)>, nat),
            WireError,
        >((entries, encode_entries(entries).len())),
    decreases entries, 0nat,
{
    if entries.len() == 0 {
        assert(entries =~= Seq::empty());
    } else {
        let tail = entries.drop_first();
        let (k, v) = entries[0];
        let b = encode_entries(entries) + rest;
        let after_key = encode(v) + (encode_entries(tail) + rest);
        assert(b =~= encode(k) + after_key);
        lemma_roundtrip(k, *mapping->Mapping_0, after_key);
        assert(b.skip(encode(k).len() as int) =~= after_key);
        lemma_roundtrip(v, *mapping->Mapping_1, encode_entries(tail) + rest);
        assert(b.skip((encode(k).len() + encode(v).len()) as int) =~= encode_entries(tail)
            + rest);
        assert forall|i: int| 0 <= i < tail.len() implies conforms(
            (#[trigger] tail[i]).0,
            *mapping->Mapping_0,
        ) && conforms(tail[i].1, *mapping->Mapping_1) && encodable(tail[i].0) && encodable(
            tail[i].1,
        ) by {
            assert(tail[i] == entries[i + 1]);
        }
        lemma_entries_roundtrip(tail, mapping, rest);
        assert(seq![(k, v)] + tail =~= entries);
    }
}

/// Reading takes back the value that was written, and exactly its bytes,
/// whatever follows them in the buffer.
pub proof fn lemma_roundtrip(v: WireValue, layout: Layout, rest: Seq<u8>)
    requires
        conforms(v, layout),
        encodable(v),
    ensures
        decode(layout, encode(v) + rest) == Ok::<(WireValue, nat), WireError>(
            (v, encode(v).len()),
        ),
    decreases v, 1nat,
{
    let b = encode(v) + rest;
    match layout {
        Layout::Primitive(p) => {
            match p {
                Primitive::Bool => {},
                Primitive::String => {
                    let s = v->Text_0;
                    let payload = encode_utf8(s);
                    lemma_count_roundtrip(payload.len(), payload + rest);
                    assert(b =~= be_bytes(payload.len(), 4) + (payload + rest));
                    assert(b.subrange(4, 4 + payload.len() as int) =~= payload);
                    encode_utf8_valid_utf8(s);
                    encode_utf8_decode_utf8(s);
                },
                Primitive::Bytes => {
                    let payload = v->Bytes_0;
                    lemma_count_roundtrip(payload.len(), payload + rest);
                    assert(b =~= be_bytes(payload.len(), 4) + (payload + rest));
                    assert(b.subrange(4, 4 + payload.len() as int) =~= payload);
                },
                _ => {
                    lemma_number_roundtrip(p.kind(), p.width(), v->Number_value, rest);
                },
            }
        },
        Layout::Handle => {
            lemma_number_roundtrip(NumberKind::Handle, 8, v->Number_value, rest);
        },
        Layout::Optional(inner) => {
            match v->Optional_0 {
                None => {},
                Some(value) => {
                    lemma_roundtrip(*value, *inner, rest);
                    assert(b =~= seq![1u8] + (encode(*value) + rest));
                    assert(b.skip(1) =~= encode(*value) + rest);
                },
            }
        },
        Layout::Sequence(element) => {
            let items = v->Sequence_0;
            lemma_count_roundtrip(items.len(), encode_all(items) + rest);
            assert(b =~= be_bytes(items.len(), 4) + (encode_all(items) + rest));
            lemma_repeat_roundtrip(items, *element, rest);
        },
        Layout::Mapping(_, _) => {
            let entries = v->Mapping_0;
            lemma_count_roundtrip(entries.len(), encode_entries(entries) + rest);
            assert(b =~= be_bytes(entries.len(), 4) + (encode_entries(entries) + rest));
            lemma_entries_roundtrip(entries, layout, rest);
        },
        Layout::Record(fields) => {
            lemma_fields_roundtrip(v->Record_0, fields@, rest);
        },
        Layout::Enum(variants) => {
            let variant = v->Enum_variant;
            let fields = v->Enum_fields;
            lemma_count_roundtrip(variant + 1, encode_all(fields) + rest);
            assert(b =~= be_bytes(variant + 1, 4) + (encode_all(fields) + rest));
            lemma_fields_roundtrip(fields, variants@[variant as int]@, rest);
        },
    }
}

/// What holds of several values that were read from `b` in `n` bytes.
pub open spec fn read_well(items: Seq<WireValue>, n: nat, b: Seq<u8>) -> bool {
    &&& n <= b.len()
    &&& forall|i: int| 0 <= i < items.len() ==> encodable(#[trigger] items[i])
    &&& encode_all(items) == b.subrange(0, n as int)
}

/// A count that was read is what its four bytes spell, and they are its
/// encoding.
pub proof fn lemma_count_sound(b: Seq<u8>)
    ensures
        decode_count(b) matches Ok(n) ==> n <= max_count() && b.len() >= 4 && be_bytes(n, 4)
            == b.subrange(0, 4),
{
    if b.len() >= 4 {
        lemma_be_canonical(b.subrange(0, 4));
    }
}

/// A number that was read is in range, and its bytes are its encoding.
pub proof fn lemma_number_sound(kind: NumberKind, width: nat, b: Seq<u8>)
    ensures
        decode_number(kind, width, b) matches Ok((v, n)) ==> {
            &&& n == width
            &&& n <= b.len()
            &&& v is Number
            &&& v->Number_kind == kind
            &&& v->Number_width == width
            &&& in_range(kind, width, v->Number_value)
            &&& encode(v) == b.subrange(0, n as int)
        },
{
    if b.len() >= width {
        let chunk = b.subrange(0, width as int);
        lemma_be_value_bound(chunk);
        lemma_be_canonical(chunk);
    }
}

/// The fields that were read are values of their layouts, and the bytes they
/// were read from are their encoding.
pub proof fn lemma_fields_sound(fields: Seq<Layout>, b: Seq<u8>)
    ensures
        decode_fields(fields, b) matches Ok((items, n)) ==> all_conform(items, fields)
            && read_well(items, n, b),
    decreases fields, 0nat, 0nat,
{
    if fields.len() > 0 {
        lemma_sound(fields[0], b);
        if let Ok((v, n)) = decode(fields[0], b) {
            let rest = b.skip(n as int);
            lemma_fields_sound(fields.drop_first(), rest);
            if let Ok((tail, m)) = decode_fields(fields.drop_first(), rest) {
                lemma_prepend(v, n, tail, m, b);
                let items = seq![v] + tail;
                assert forall|i: int| 0 <= i < items.len() implies conforms(
                    #[trigger] items[i],
                    fields[i],
                ) by {
                    if i > 0 {
                        assert(items[i] == tail[i - 1]);
                        assert(fields[i] == fields.drop_first()[i - 1]);
                    }
                }
            }
        }
    } else {
        assert(b.subrange(0, 0) =~= Seq::<u8>::empty());
    }
}

/// The elements that were read are as many as were asked for and values of
/// the element layout, and the bytes they were read from are their encoding.
pub proof fn lemma_repeat_sound(element: Layout, count: nat, b: Seq<u8>)
    ensures
        decode_repeat(element, count, b) matches Ok((items, n)) ==> items.len() == count
            && read_well(items, n, b) && forall|i: int|
            0 <= i < items.len() ==> conforms(#[trigger] items[i], element),
    decreases element, 2nat, count,
{
    if count > 0 {
        lemma_sound(element, b);
        if let Ok((v, n)) = decode(element, b) {
            let rest = b.skip(n as int);
            lemma_repeat_sound(element, (count - 1) as nat, rest);
            if let Ok((tail, m)) = decode_repeat(element, (count - 1) as nat, rest) {
                lemma_prepend(v, n, tail, m, b);
                let items = seq![v] + tail;
                assert forall|i: int| 0 <= i < items.len() implies conforms(
                    #[trigger] items[i],
                    element,
                ) by {
                    if i > 0 {
                        assert(items[i] == tail[i - 1]);
                    }
                }
            }
        }
    } else {
        assert(b.subrange(0, 0) =~= Seq::<u8>::empty());
    }
}

/// A value read from the start of `b`, followed by values read behind it,
/// is read well from `b`.
proof fn lemma_prepend(v: WireValue, n: nat, tail: Seq<WireValue>, m: nat, b: Seq<u8>)
    requires
        n <= b.len(),
        encodable(v),
        encode(v) == b.subrange(0, n as int),
        read_well(tail, m, b.skip(n as int)),
    ensures
        read_well(seq![v] + tail, n + m, b),
{
    let items = seq![v] + tail;
    assert(items.drop_first() =~= tail);
    assert(encode_all(items) =~= b.subrange(0, (n + m) as int)) by {
        assert(b.skip(n as int).subrange(0, m as int) =~= b.subrange(n as int, (n + m) as int));
        assert(b.subrange(0, n as int) + b.subrange(n as int, (n + m) as int) =~= b.subrange(
            0,
            (n + m) as int,
        ));
    }
    assert forall|i: int| 0 <= i < items.len() implies encodable(#[trigger] items[i]) by {
        if i > 0 {
            assert(items[i] == tail[i - 1]);
        }
    }
}

/// The entries that were read are as many as were asked for, their keys
/// and values are of the map's layouts, and the bytes they were read from
/// are their encoding.
pub proof fn lemma_entries_sound(mapping: Layout, count: nat, b: Seq<u8>)
    requires
        mapping is Mapping,
    ensures
        decode_entries(mapping, count, b) matches Ok((entries, n)) ==> {
            &&& entries.len() == count
            &&& n <= b.len()
            &&& encode_entries(entries) == b.subrange(0, n as int)
            &&& forall|i: int|
                0 <= i < entries.len() ==> conforms(
                    (#[trigger] entries[i]).0,
                    *mapping->Mapping_0,
                ) && conforms(entries[i].1, *mapping->Mapping_1) && encodable(entries[i].0)
                    && encodable(entries[i].1)
        },
    decreases mapping, 0nat, count,
{
    if count > 0 {
        let key = *mapping->Mapping_0;
        let value = *mapping->Mapping_1;
        lemma_sound(key, b);
        if let Ok((k, n)) = decode(key, b) {
            lemma_sound(value, b.skip(n as int));
            if let Ok((v, m)) = decode(value, b.skip(n as int)) {
                let rest = b.skip((n + m) as int);
                lemma_entries_sound(mapping, (count - 1) as nat, rest);
                if let Ok((tail, t)) = decode_entries(mapping, (count - 1) as nat, rest) {
                    let entries = seq![(k, v)] + tail;
                    assert(entries.drop_first() =~= tail);
                    assert(encode_entries(entries) =~= b.subrange(0, (n + m + t) as int)) by {
                        assert(b.skip(n as int).subrange(0, m as int) =~= b.subrange(
                            n as int,
                            (n + m) as int,
                        ));
                        assert(rest.subrange(0, t as int) =~= b.subrange(
                            (n + m) as int,
                            (n + m + t) as int,
                        ));
                    }
                    assert forall|i: int| 0 <= i < entries.len() implies conforms(
                        (#[trigger] entries[i]).0,
                        key,
                    ) && conforms(entries[i].1, value) && encodable(entries[i].0) && encodable(
                        entries[i].1,
                    ) by {
                        if i > 0 {
                            assert(entries[i] == tail[i - 1]);
                        }
                    }
                }
            }
        }
    } else {
        assert(b.subrange(0, 0) =~= Seq::<u8>::empty());
    }
}

/// What reading accepts, writing would have put: a value that was read is a
/// value of the layout, it has an encoding, and the bytes it was read from
/// are that encoding.
pub proof fn lemma_sound(layout: Layout, b: Seq<u8>)
    ensures
        decode(layout, b) matches Ok((v, n)) ==> n <= b.len() && conforms(v, layout)
            && encodable(v) && encode(v) == b.subrange(0, n as int),
    decreases layout, 1nat, 0nat,
{
    match layout {
        Layout::Primitive(p) => {
            match p {
                Primitive::Bool => {
                    if b.len() >= 1 {
                        assert(b.subrange(0, 1) =~= seq![b[0]]);
                    }
                },
                Primitive::String => {
                    lemma_count_sound(b);
                    if let Ok((v, n)) = decode(layout, b) {
                        let len = decode_count(b)->Ok_0;
                        let chunk = b.subrange(4, 4 + len as int);
                        decode_utf8_encode_utf8(chunk);
                        assert(b.subrange(0, 4) + chunk =~= b.subrange(0, n as int));
                    }
                },
                Primitive::Bytes => {
                    lemma_count_sound(b);
                    if let Ok((v, n)) = decode(layout, b) {
                        let len = decode_count(b)->Ok_0;
                        let chunk = b.subrange(4, 4 + len as int);
                        assert(b.subrange(0, 4) + chunk =~= b.subrange(0, n as int));
                    }
                },
                _ => {
                    lemma_number_sound(p.kind(), p.width(), b);
                },
            }
        },
        Layout::Handle => {
            lemma_number_sound(NumberKind::Handle, 8, b);
        },
        Layout::Optional(inner) => {
            if b.len() >= 1 {
                if b[0] == 0 {
                    assert(b.subrange(0, 1) =~= seq![0u8]);
                } else if b[0] == 1 {
                    lemma_sound(*inner, b.skip(1));
                    if let Ok((v, n)) = decode(*inner, b.skip(1)) {
                        assert(seq![1u8] + b.skip(1).subrange(0, n as int) =~= b.subrange(
                            0,
                            1 + n as int,
                        ));
                    }
                }
            }
        },
        Layout::Sequence(element) => {
            lemma_count_sound(b);
            if let Ok(count) = decode_count(b) {
                lemma_repeat_sound(*element, count, b.skip(4));
                if let Ok((items, n)) = decode_repeat(*element, count, b.skip(4)) {
                    assert(b.subrange(0, 4) + b.skip(4).subrange(0, n as int) =~= b.subrange(
                        0,
                        4 + n as int,
                    ));
                }
            }
        },
        Layout::Mapping(_, _) => {
            lemma_count_sound(b);
            if let Ok(count) = decode_count(b) {
                lemma_entries_sound(layout, count, b.skip(4));
                if let Ok((entries, n)) = decode_entries(layout, count, b.skip(4)) {
                    assert(b.subrange(0, 4) + b.skip(4).subrange(0, n as int) =~= b.subrange(
                        0,
                        4 + n as int,
                    ));
                }
            }
        },
        Layout::Record(fields) => {
            lemma_fields_sound(fields@, b);
        },
        Layout::Enum(variants) => {
            if b.len() >= 4 {
                let tag = be_value(b.subrange(0, 4));
                lemma_be_canonical(b.subrange(0, 4));
                if 1 <= tag <= variants@.len() && tag <= max_count() {
                    let fields = variants@[tag - 1]@;
                    lemma_fields_sound(fields, b.skip(4));
                    if let Ok((items, n)) = decode_fields(fields, b.skip(4)) {
                        assert(b.subrange(0, 4) + b.skip(4).subrange(0, n as int) =~= b.subrange(
                            0,
                            4 + n as int,
                        ));
                    }
                }
            }
        },
    }
}

} // verus!
