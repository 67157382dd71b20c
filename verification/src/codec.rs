//! Writing values into a buffer and reading them back.

use vstd::prelude::*;
use vstd::utf8::{decode_utf8, valid_utf8};
use crate::bytes::{
    be_bytes,
    get_be,
    lemma_be_bytes_len,
    lemma_radix_values,
    put_be,
    radix,
    to_signed,
};
use crate::layout::{
    after,
    after_entries,
    decode,
    decode_count,
    decode_entries,
    decode_fields,
    decode_repeat,
    Decoded,
    encodable,
    encode,
    encode_all,
    encode_entries,
    max_count,
    WireError,
};
use crate::roundtrip::lemma_sound;
use crate::value::{
    entry_models,
    Layout,
    lemma_entry_models,
    lemma_models,
    model,
    models,
    Primitive,
    Value,
    WireValue,
};

verus! {

/// The encodings of two runs of values, one after the other, are the
/// encoding of the two runs joined.
pub proof fn lemma_encode_all_concat(a: Seq<WireValue>, b: Seq<WireValue>)
    ensures
        encode_all(a + b) == encode_all(a) + encode_all(b),
    decreases a.len(),
{
    if a.len() == 0 {
        assert(a + b =~= b);
        assert(encode_all(a) + encode_all(b) =~= encode_all(b));
    } else {
        lemma_encode_all_concat(a.drop_first(), b);
        assert((a + b).drop_first() =~= a.drop_first() + b);
        assert(encode_all(a + b) =~= encode_all(a) + encode_all(b));
    }
}

/// The encodings of two runs of entries, one after the other, are the
/// encoding of the two runs joined.
pub proof fn lemma_encode_entries_concat(
    a: Seq<(WireValue, WireValue)>,
    b: Seq<(WireValue, WireValue)>,
)
    ensures
        encode_entries(a + b) == encode_entries(a) + encode_entries(b),
    decreases a.len(),
{
    if a.len() == 0 {
        assert(a + b =~= b);
        assert(encode_entries(a) + encode_entries(b) =~= encode_entries(b));
    } else {
        lemma_encode_entries_concat(a.drop_first(), b);
        assert((a + b).drop_first() =~= a.drop_first() + b);
        assert(encode_entries(a + b) =~= encode_entries(a) + encode_entries(b));
    }
}

/// Whether `longer` starts with `shorter`.
pub open spec fn extends(longer: Seq<u8>, shorter: Seq<u8>) -> bool {
    &&& shorter.len() <= longer.len()
    &&& forall|i: int| 0 <= i < shorter.len() ==> longer[i] == shorter[i]
}

proof fn lemma_encode_all_one(x: WireValue)
    ensures
        encode_all(seq![x]) == encode(x),
{
    assert(seq![x].drop_first() =~= Seq::<WireValue>::empty());
    assert(encode_all(seq![x].drop_first()) =~= Seq::<u8>::empty());
    assert(encode_all(seq![x]) =~= encode(x));
}

proof fn lemma_encode_entries_one(k: WireValue, v: WireValue)
    ensures
        encode_entries(seq![(k, v)]) == encode(k) + encode(v),
{
    assert(seq![(k, v)].drop_first() =~= Seq::<(WireValue, WireValue)>::empty());
    assert(encode_entries(seq![(k, v)].drop_first()) =~= Seq::<u8>::empty());
    assert(encode_entries(seq![(k, v)]) =~= encode(k) + encode(v));
}

/// Appends `src` to `buf`.
fn append_bytes(buf: &mut Vec<u8>, src: &[u8])
    ensures
        final(buf)@ == old(buf)@ + src@,
{
    let mut i: usize = 0;
    let ghost start = buf@;
    assert(buf@ =~= start + src@.take(0));
    while i < src.len()
        invariant
            i <= src.len(),
            buf@ == start + src@.take(i as int),
        decreases src.len() - i,
    {
        buf.push(src[i]);
        i = i + 1;
        assert(buf@ =~= start + src@.take(i as int));
    }
    assert(src@.take(src.len() as int) =~= src@);
}

/// Appends a count or length in its four bytes, if it fits them.
fn write_count(buf: &mut Vec<u8>, count: usize) -> (r: Result<(), WireError>)
    ensures
        match r {
            Ok(_) => count <= max_count() && final(buf)@ == old(buf)@ + be_bytes(count as nat, 4),
            Err(e) => e == WireError::TooLong && count > max_count() && final(buf)@ == old(buf)@
                && extends(final(buf)@, old(buf)@),
        },
{
    if count > 0x7fff_ffff {
        Err(WireError::TooLong)
    } else {
        proof {
            lemma_radix_values();
        }
        put_be(buf, count as u64, 4);
        Ok(())
    }
}

/// Appends the encodings of `items`, one after the other.
fn write_all(items: &Vec<Value>, buf: &mut Vec<u8>) -> (r: Result<(), WireError>)
    ensures
        match r {
            Ok(_) => final(buf)@ == old(buf)@ + encode_all(models(items@)) && forall|i: int|
                0 <= i < items@.len() ==> encodable(#[trigger] models(items@)[i]),
            Err(e) => e == WireError::TooLong && extends(final(buf)@, old(buf)@) && exists|i: int|
                0 <= i < items@.len() && !encodable(#[trigger] models(items@)[i]),
        },
    decreases items, 0nat,
{
    let ghost start = buf@;
    let ghost all = models(items@);
    let mut i: usize = 0;
    let mut fits = true;
    assert(buf@ =~= start + encode_all(all.take(0)));
    while fits && i < items.len()
        invariant
            i <= items.len(),
            all == models(items@),
            fits ==> buf@ == start + encode_all(all.take(i as int)),
            fits ==> forall|j: int| 0 <= j < i ==> encodable(#[trigger] all[j]),
            !fits ==> extends(buf@, start),
            !fits ==> exists|j: int| 0 <= j < items@.len() && !encodable(#[trigger] all[j]),
        decreases items.len() - i + if fits { 1nat } else { 0nat },
    {
        match write_into(&items[i], buf) {
            Ok(()) => {
                proof {
                    lemma_encode_all_concat(all.take(i as int), seq![all[i as int]]);
                    assert(all.take(i + 1) =~= all.take(i as int) + seq![all[i as int]]);
                    lemma_encode_all_one(all[i as int]);
                }
                i = i + 1;
            },
            Err(_) => {
                assert(!encodable(all[i as int]));
                fits = false;
            },
        }
    }
    if fits {
        assert(all.take(items.len() as int) =~= all);
        Ok(())
    } else {
        Err(WireError::TooLong)
    }
}

/// Appends the encodings of the keys and values of `entries`, interleaved.
fn write_entries(entries: &Vec<(Value, Value)>, buf: &mut Vec<u8>) -> (r: Result<(), WireError>)
    ensures
        match r {
            Ok(_) => final(buf)@ == old(buf)@ + encode_entries(entry_models(entries@))
                && forall|i: int|
                0 <= i < entries@.len() ==> encodable((#[trigger] entry_models(entries@)[i]).0)
                    && encodable(entry_models(entries@)[i].1),
            Err(e) => e == WireError::TooLong && extends(final(buf)@, old(buf)@) && exists|i: int|
                0 <= i < entries@.len() && !(encodable((#[trigger] entry_models(entries@)[i]).0)
                    && encodable(entry_models(entries@)[i].1)),
        },
    decreases entries, 0nat,
{
    let ghost start = buf@;
    let ghost all = entry_models(entries@);
    let mut i: usize = 0;
    let mut fits = true;
    assert(buf@ =~= start + encode_entries(all.take(0)));
    while fits && i < entries.len()
        invariant
            i <= entries.len(),
            all == entry_models(entries@),
            fits ==> buf@ == start + encode_entries(all.take(i as int)),
            fits ==> forall|j: int|
                0 <= j < i ==> encodable((#[trigger] all[j]).0) && encodable(all[j].1),
            !fits ==> extends(buf@, start),
            !fits ==> exists|j: int|
                0 <= j < entries@.len() && !(encodable((#[trigger] all[j]).0) && encodable(
                    all[j].1,
                )),
        decreases entries.len() - i + if fits { 1nat } else { 0nat },
    {
        match write_into(&entries[i].0, buf) {
            Ok(()) => {
                match write_into(&entries[i].1, buf) {
                    Ok(()) => {
                        proof {
                            lemma_encode_entries_concat(all.take(i as int), seq![all[i as int]]);
                            assert(all.take(i + 1) =~= all.take(i as int) + seq![all[i as int]]);
                            lemma_encode_entries_one(all[i as int].0, all[i as int].1);
                            assert(buf@ =~= start + encode_entries(all.take(i + 1)));
                        }
                        i = i + 1;
                    },
                    Err(_) => {
                        assert(!encodable(all[i as int].1));
                        fits = false;
                    },
                }
            },
            Err(_) => {
                assert(!encodable(all[i as int].0));
                fits = false;
            },
        }
    }
    if fits {
        assert(all.take(entries.len() as int) =~= all);
        Ok(())
    } else {
        Err(WireError::TooLong)
    }
}

/// The unsigned number and the width that a number is written with; `None`
/// for a value that is no number.
fn number_parts(v: &Value) -> (r: Option<(u64, u8)>)
    ensures
        match r {
            Some((raw, width)) => {
                &&& v@ is Number
                &&& 0 < width <= 8
                &&& width == v@->Number_width
                &&& raw == crate::bytes::to_unsigned(v@->Number_value, width as nat)
                &&& raw < radix(width as nat)
            },
            None => !(v@ is Number),
        },
{
    proof {
        lemma_radix_values();
    }
    match v {
        Value::Int8(n) => Some(
            (if *n >= 0 { *n as u64 } else { (*n as i64 + 0x100) as u64 }, 1),
        ),
        Value::UInt8(n) => Some((*n as u64, 1)),
        Value::Int16(n) => Some(
            (if *n >= 0 { *n as u64 } else { (*n as i64 + 0x1_0000) as u64 }, 2),
        ),
        Value::UInt16(n) => Some((*n as u64, 2)),
        Value::Int32(n) => Some(
            (if *n >= 0 { *n as u64 } else { (*n as i64 + 0x1_0000_0000) as u64 }, 4),
        ),
        Value::UInt32(n) => Some((*n as u64, 4)),
        Value::Int64(n) => Some(
            (
                if *n >= 0 {
                    *n as u64
                } else {
                    (*n as i128 + 0x1_0000_0000_0000_0000) as u64
                },
                8,
            ),
        ),
        Value::UInt64(n) => Some((*n, 8)),
        Value::Float32(bits) => Some((*bits as u64, 4)),
        Value::Float64(bits) => Some((*bits, 8)),
        Value::Handle(h) => Some((*h, 8)),
        _ => None,
    }
}

/// Appends a length in its four bytes and then the bytes themselves.
fn write_payload(payload: &[u8], buf: &mut Vec<u8>) -> (r: Result<(), WireError>)
    ensures
        match r {
            Ok(_) => payload@.len() <= max_count() && final(buf)@ == old(buf)@ + (be_bytes(
                payload@.len(),
                4,
            ) + payload@),
            Err(e) => e == WireError::TooLong && payload@.len() > max_count() && extends(
                final(buf)@,
                old(buf)@,
            ),
        },
{
    let ghost start = buf@;
    match write_count(buf, payload.len()) {
        Ok(()) => {},
        Err(e) => {
            return Err(e);
        },
    }
    append_bytes(buf, payload);
    assert(buf@ =~= start + (be_bytes(payload@.len(), 4) + payload@));
    Ok(())
}

/// What `write_into` leaves behind: the encoding of `v` after what `buf`
/// held, or, where `v` has none, at least what `buf` held.
pub open spec fn wrote(r: Result<(), WireError>, v: WireValue, before: Seq<u8>, now: Seq<u8>) -> bool {
    match r {
        Ok(_) => encodable(v) && now == before + encode(v),
        Err(e) => e == WireError::TooLong && !encodable(v) && extends(now, before),
    }
}

/// Appends the encoding of `v`. Where a count or length in `v` does not fit
/// its four bytes, what was appended before it was met stays in `buf`.
fn write_into(v: &Value, buf: &mut Vec<u8>) -> (r: Result<(), WireError>)
    ensures
        wrote(r, v@, old(buf)@, final(buf)@),
    decreases v, 1nat,
{
    let ghost start = buf@;
    if let Some((raw, width)) = number_parts(v) {
        put_be(buf, raw, width);
        return Ok(());
    }
    match v {
        Value::Bool(b) => {
            buf.push(if *b { 1u8 } else { 0u8 });
            assert(buf@ =~= start + encode(v@));
            Ok(())
        },
        Value::String(s) => {
            let r = write_payload(s.as_str().as_bytes(), buf);
            assert(wrote(r, v@, start, buf@));
            r
        },
        Value::Bytes(payload) => {
            let r = write_payload(payload.as_slice(), buf);
            assert(wrote(r, v@, start, buf@));
            r
        },
        Value::Optional(o) => {
            match o {
                None => {
                    buf.push(0u8);
                    assert(buf@ =~= start + encode(v@));
                    Ok(())
                },
                Some(inner) => {
                    buf.push(1u8);
                    let r = write_into(inner, buf);
                    assert(wrote(r, v@, start, buf@)) by {
                        if r is Ok {
                            assert(buf@ =~= start + encode(v@));
                        }
                    }
                    r
                },
            }
        },
        Value::Sequence(items) => {
            proof {
                lemma_models(items@);
            }
            match write_count(buf, items.len()) {
                Ok(()) => {},
                Err(e) => {
                    return Err(e);
                },
            }
            let r = write_all(items, buf);
            assert(wrote(r, v@, start, buf@)) by {
                if r is Ok {
                    assert(buf@ =~= start + encode(v@));
                }
            }
            r
        },
        Value::Mapping(entries) => {
            proof {
                lemma_entry_models(entries@);
            }
            match write_count(buf, entries.len()) {
                Ok(()) => {},
                Err(e) => {
                    return Err(e);
                },
            }
            let r = write_entries(entries, buf);
            assert(wrote(r, v@, start, buf@)) by {
                if r is Ok {
                    assert(buf@ =~= start + encode(v@));
                }
            }
            r
        },
        Value::Record(fields) => {
            proof {
                lemma_models(fields@);
            }
            let r = write_all(fields, buf);
            assert(wrote(r, v@, start, buf@)) by {
                if r is Err {
                    let j = choose|j: int|
                        0 <= j < fields@.len() && !encodable(#[trigger] models(fields@)[j]);
                    assert(!encodable(v@->Record_0[j]));
                }
            }
            r
        },
        Value::Enum(variant, fields) => {
            if *variant >= 0x7fff_ffff {
                return Err(WireError::TooLong);
            }
            proof {
                lemma_radix_values();
                lemma_models(fields@);
            }
            put_be(buf, *variant as u64 + 1, 4);
            let r = write_all(fields, buf);
            assert(wrote(r, v@, start, buf@)) by {
                if r is Ok {
                    assert(buf@ =~= start + encode(v@));
                }
            }
            r
        },
        // Every number was written above.
        _ => Ok(()),
    }
}

/// Appends the encoding of `v` to `buf` and returns the number of bytes
/// written. A value with a count or length that does not fit its four bytes
/// has no encoding: it is refused, and `buf` is left as it was.
pub fn write(v: &Value, buf: &mut Vec<u8>) -> (r: Result<usize, WireError>)
    ensures
        match r {
            Ok(n) => encodable(v@) && final(buf)@ == old(buf)@ + encode(v@) && n == encode(
                v@,
            ).len(),
            Err(e) => e == WireError::TooLong && !encodable(v@) && final(buf)@ == old(buf)@,
        },
{
    let start = buf.len();
    let ghost before = buf@;
    match write_into(v, buf) {
        Ok(()) => Ok(buf.len() - start),
        Err(e) => {
            buf.truncate(start);
            assert(buf@ =~= before);
            Err(e)
        },
    }
}

/// `buf` with `bytes` in place of what it held from `offset` on; `buf`
/// itself where the bytes have no room there.
pub open spec fn overwritten(buf: Seq<u8>, offset: int, bytes: Seq<u8>) -> Seq<u8> {
    if 0 <= offset && offset + bytes.len() <= buf.len() {
        buf.subrange(0, offset) + bytes + buf.subrange(offset + bytes.len(), buf.len() as int)
    } else {
        buf
    }
}

/// Writes the encoding of `v` into `buf` from `offset` on, in place of what
/// stands there, and returns the number of bytes written.
///
/// A value without an encoding is refused, and so is one whose encoding has
/// no room in the buffer from the offset on: `buf` is then left as it was.
pub fn write_at(v: &Value, buf: &mut Vec<u8>, offset: usize) -> (r: Result<usize, WireError>)
    ensures
        match r {
            Ok(n) => encodable(v@) && n == encode(v@).len() && offset + n <= old(buf)@.len()
                && final(buf)@ == overwritten(old(buf)@, offset as int, encode(v@)),
            Err(e) => final(buf)@ == old(buf)@ && if encodable(v@) {
                e == WireError::NoRoom && offset + encode(v@).len() > old(buf)@.len()
            } else {
                e == WireError::TooLong
            },
        },
{
    let mut bytes: Vec<u8> = Vec::new();
    let n = match write(v, &mut bytes) {
        Ok(n) => n,
        Err(e) => {
            return Err(e);
        },
    };
    assert(bytes@ =~= encode(v@));
    let len = buf.len();
    if offset > len || n > len - offset {
        return Err(WireError::NoRoom);
    }
    let ghost before = buf@;
    let mut i: usize = 0;
    while i < n
        invariant
            i <= n == bytes@.len(),
            offset + n <= len == buf@.len() == before.len(),
            forall|k: int| 0 <= k < len ==> buf@[k] == if offset <= k < offset + i {
                bytes@[k - offset]
            } else {
                before[k]
            },
        decreases n - i,
    {
        buf.set(offset + i, bytes[i]);
        i = i + 1;
    }
    assert(buf@ =~= overwritten(before, offset as int, bytes@));
    Ok(n)
}

/// Reading at the offset takes back the value that was written there.
pub proof fn lemma_read_what_was_written(
    v: WireValue,
    layout: Layout,
    buf: Seq<u8>,
    offset: int,
)
    requires
        crate::value::conforms(v, layout),
        encodable(v),
        0 <= offset,
        offset + encode(v).len() <= buf.len(),
    ensures
        decode(layout, tail(overwritten(buf, offset, encode(v)), offset)) == Ok::<
            (WireValue, nat),
            WireError,
        >((v, encode(v).len())),
{
    let rest = buf.subrange(offset + encode(v).len(), buf.len() as int);
    crate::roundtrip::lemma_roundtrip(v, layout, rest);
    assert(tail(overwritten(buf, offset, encode(v)), offset) =~= encode(v) + rest);
}

/// What the result of reading one value stands for.
pub open spec fn read_model(r: Result<(Value, usize), WireError>) -> Decoded {
    match r {
        Ok((v, n)) => Ok((v@, n as nat)),
        Err(e) => Err(e),
    }
}

/// What the result of reading several values stands for.
pub open spec fn read_many_model(r: Result<(Vec<Value>, usize), WireError>) -> Result<
    (Seq<WireValue>, nat),
    WireError,
> {
    match r {
        Ok((items, n)) => Ok((models(items@), n as nat)),
        Err(e) => Err(e),
    }
}

/// What the result of reading the entries of a map stands for.
pub open spec fn read_entries_model(r: Result<(Vec<(Value, Value)>, usize), WireError>) -> Result<
    (Seq<(WireValue, WireValue)>, nat),
    WireError,
> {
    match r {
        Ok((entries, n)) => Ok((entry_models(entries@), n as nat)),
        Err(e) => Err(e),
    }
}

/// The bytes of `b` from `at` on; none where `at` is behind its end.
pub open spec fn tail(b: Seq<u8>, at: int) -> Seq<u8> {
    if 0 <= at <= b.len() {
        b.skip(at)
    } else {
        Seq::empty()
    }
}

proof fn lemma_after_push(
    done: Seq<WireValue>,
    used: nat,
    v: WireValue,
    n: nat,
    more: Result<(Seq<WireValue>, nat), WireError>,
)
    ensures
        after(done, used, after(seq![v], n, more)) == after(done.push(v), used + n, more),
{
    if let Ok((items, m)) = more {
        assert(done + (seq![v] + items) =~= done.push(v) + items);
    }
}

proof fn lemma_after_entries_push(
    done: Seq<(WireValue, WireValue)>,
    used: nat,
    entry: (WireValue, WireValue),
    n: nat,
    more: Result<(Seq<(WireValue, WireValue)>, nat), WireError>,
)
    ensures
        after_entries(done, used, after_entries(seq![entry], n, more)) == after_entries(
            done.push(entry),
            used + n,
            more,
        ),
{
    if let Ok((entries, m)) = more {
        assert(done + (seq![entry] + entries) =~= done.push(entry) + entries);
    }
}

/// The models of a run of values with one more pushed.
proof fn lemma_models_push(items: Seq<Value>, v: Value)
    ensures
        models(items.push(v)) == models(items).push(model(v)),
{
    lemma_models(items);
    lemma_models(items.push(v));
    assert(models(items.push(v)) =~= models(items).push(model(v)));
}

proof fn lemma_entry_models_push(entries: Seq<(Value, Value)>, k: Value, v: Value)
    ensures
        entry_models(entries.push((k, v))) == entry_models(entries).push((model(k), model(v))),
{
    lemma_entry_models(entries);
    lemma_entry_models(entries.push((k, v)));
    assert(entry_models(entries.push((k, v))) =~= entry_models(entries).push(
        (model(k), model(v)),
    ));
}

/// The bytes of `buf` from `from` up to `to`.
fn copy_range(buf: &[u8], from: usize, to: usize) -> (out: Vec<u8>)
    requires
        from <= to <= buf@.len(),
    ensures
        out@ == buf@.subrange(from as int, to as int),
{
    let mut out: Vec<u8> = Vec::new();
    let mut i: usize = from;
    assert(out@ =~= buf@.subrange(from as int, from as int));
    while i < to
        invariant
            from <= i <= to <= buf@.len(),
            out@ == buf@.subrange(from as int, i as int),
        decreases to - i,
    {
        out.push(buf[i]);
        i = i + 1;
        assert(out@ =~= buf@.subrange(from as int, i as int));
    }
    out
}

/// The `width` bytes at `at` as a number, if the buffer holds that many.
fn read_raw(buf: &[u8], at: usize, width: u8) -> (r: Option<u64>)
    requires
        at <= buf@.len(),
        0 < width <= 8,
    ensures
        match r {
            Some(raw) => width <= buf@.skip(at as int).len() && raw == crate::bytes::be_value(
                buf@.skip(at as int).subrange(0, width as int),
            ) && raw < radix(width as nat),
            None => buf@.skip(at as int).len() < width,
        },
{
    if buf.len() - at < width as usize {
        None
    } else {
        let raw = get_be(buf, at, width);
        proof {
            let chunk = buf@.subrange(at as int, at + width);
            assert(chunk =~= buf@.skip(at as int).subrange(0, width as int));
            crate::bytes::lemma_be_value_bound(chunk);
        }
        Some(raw)
    }
}

/// The count or length at `at`.
fn read_count(buf: &[u8], at: usize) -> (r: Result<usize, WireError>)
    requires
        at <= buf@.len(),
    ensures
        match r {
            Ok(n) => decode_count(buf@.skip(at as int)) == Ok::<nat, WireError>(n as nat),
            Err(e) => decode_count(buf@.skip(at as int)) == Err::<nat, WireError>(e),
        },
{
    match read_raw(buf, at, 4) {
        None => Err(WireError::UnexpectedEnd),
        Some(raw) => {
            if raw > 0x7fff_ffff {
                Err(WireError::NegativeLength)
            } else {
                Ok(raw as usize)
            }
        },
    }
}

/// The number that `raw` stands for in the numeric type `p`.
fn number_value(p: Primitive, raw: u64) -> (v: Value)
    requires
        p.is_number(),
        raw < radix(p.width()),
    ensures
        v@ == (WireValue::Number {
            kind: p.kind(),
            width: p.width(),
            value: if p.kind() is Signed {
                to_signed(raw as nat, p.width())
            } else {
                raw as int
            },
        }),
{
    proof {
        lemma_radix_values();
    }
    match p {
        Primitive::Int8 => Value::Int8(
            if raw >= 0x80 {
                (raw as i64 - 0x100) as i8
            } else {
                raw as i8
            },
        ),
        Primitive::UInt8 => Value::UInt8(raw as u8),
        Primitive::Int16 => Value::Int16(
            if raw >= 0x8000 {
                (raw as i64 - 0x1_0000) as i16
            } else {
                raw as i16
            },
        ),
        Primitive::UInt16 => Value::UInt16(raw as u16),
        Primitive::Int32 => Value::Int32(
            if raw >= 0x8000_0000 {
                (raw as i64 - 0x1_0000_0000) as i32
            } else {
                raw as i32
            },
        ),
        Primitive::UInt32 => Value::UInt32(raw as u32),
        Primitive::Int64 => Value::Int64(
            if raw >= 0x8000_0000_0000_0000 {
                (raw as i128 - 0x1_0000_0000_0000_0000) as i64
            } else {
                raw as i64
            },
        ),
        Primitive::UInt64 => Value::UInt64(raw),
        Primitive::Float32 => Value::Float32(raw as u32),
        _ => Value::Float64(raw),
    }
}

/// The number of bytes of the numeric type `p`.
fn width_of(p: Primitive) -> (w: u8)
    requires
        p.is_number(),
    ensures
        w == p.width(),
        0 < w <= 8,
{
    match p {
        Primitive::Int8 | Primitive::UInt8 => 1,
        Primitive::Int16 | Primitive::UInt16 => 2,
        Primitive::Int32 | Primitive::UInt32 | Primitive::Float32 => 4,
        _ => 8,
    }
}

/// The bytes at `at` that follow their own length.
fn read_payload(buf: &[u8], at: usize) -> (r: Result<(Vec<u8>, usize), WireError>)
    requires
        at <= buf@.len(),
    ensures
        match r {
            Ok((bytes, n)) => {
                &&& decode_count(buf@.skip(at as int)) == Ok::<nat, WireError>((n - 4) as nat)
                &&& 4 <= n <= buf@.skip(at as int).len()
                &&& bytes@ == buf@.skip(at as int).subrange(4, n as int)
            },
            Err(e) => {
                ||| decode_count(buf@.skip(at as int)) == Err::<nat, WireError>(e)
                ||| (decode_count(buf@.skip(at as int)) matches Ok(len) && buf@.skip(
                    at as int,
                ).len() < 4 + len && e == WireError::UnexpectedEnd)
            },
        },
{
    match read_count(buf, at) {
        Err(e) => Err(e),
        Ok(len) => {
            if buf.len() - at - 4 < len {
                Err(WireError::UnexpectedEnd)
            } else {
                let bytes = copy_range(buf, at + 4, at + 4 + len);
                assert(bytes@ =~= buf@.skip(at as int).subrange(4, 4 + len as int));
                Ok((bytes, 4 + len))
            }
        },
    }
}

/// `String::from_utf8`: the text that `bytes` spell in UTF-8, where they
/// are valid UTF-8, and nothing where they are not.
#[verifier::external_body]
pub(crate) fn text_from_utf8(bytes: Vec<u8>) -> (r: Option<String>)
    ensures
        r is Some <==> valid_utf8(bytes@),
        r matches Some(s) ==> s@ == decode_utf8(bytes@),
{
    String::from_utf8(bytes).ok()
}

/// One value of each layout of `fields`, read one after the other from `at` on.
fn read_fields(fields: &Vec<Layout>, buf: &[u8], at: usize) -> (r: Result<
    (Vec<Value>, usize),
    WireError,
>)
    requires
        at <= buf@.len(),
    ensures
        read_many_model(r) == decode_fields(fields@, buf@.skip(at as int)),
    decreases fields, 0nat, 0nat,
{
    let ghost whole = decode_fields(fields@, buf@.skip(at as int));
    let mut items: Vec<Value> = Vec::new();
    let mut pos: usize = at;
    let mut i: usize = 0;
    let mut failure: Option<WireError> = None;
    let len = buf.len();
    proof {
        lemma_models(items@);
        assert(fields@.skip(0) =~= fields@);
        assert(models(items@) + decode_fields(fields@, buf@.skip(at as int))->Ok_0.0
            =~= decode_fields(fields@, buf@.skip(at as int))->Ok_0.0);
    }
    while failure.is_none() && i < fields.len()
        invariant
            at <= pos <= buf@.len() == len,
            i <= fields.len(),
            whole == decode_fields(fields@, buf@.skip(at as int)),
            failure is None ==> whole == after(
                models(items@),
                (pos - at) as nat,
                decode_fields(fields@.skip(i as int), buf@.skip(pos as int)),
            ),
            failure matches Some(e) ==> whole == Err::<(Seq<WireValue>, nat), WireError>(e),
        decreases fields.len() - i + if failure is None { 1nat } else { 0nat },
    {
        let ghost rest = fields@.skip(i as int);
        let ghost here = buf@.skip(pos as int);
        proof {
            assert(rest[0] == fields@[i as int]);
            assert(rest.drop_first() =~= fields@.skip(i + 1));
            lemma_sound(fields@[i as int], here);
        }
        match read_at(&fields[i], buf, pos) {
            Ok((v, n)) => {
                proof {
                    assert(here.skip(n as int) =~= buf@.skip(pos + n));
                    lemma_after_push(
                        models(items@),
                        (pos - at) as nat,
                        v@,
                        n as nat,
                        decode_fields(fields@.skip(i + 1), buf@.skip(pos + n)),
                    );
                    lemma_models_push(items@, v);
                }
                items.push(v);
                pos = pos + n;
                i = i + 1;
            },
            Err(e) => {
                failure = Some(e);
            },
        }
    }
    match failure {
        Some(e) => Err(e),
        None => {
            proof {
                assert(fields@.skip(i as int) =~= Seq::<Layout>::empty());
                assert(models(items@) + Seq::<WireValue>::empty() =~= models(items@));
            }
            Ok((items, pos - at))
        },
    }
}

/// `count` values of layout `element`, read one after the other from `at` on.
fn read_repeat(element: &Layout, count: usize, buf: &[u8], at: usize) -> (r: Result<
    (Vec<Value>, usize),
    WireError,
>)
    requires
        at <= buf@.len(),
    ensures
        read_many_model(r) == decode_repeat(*element, count as nat, buf@.skip(at as int)),
    decreases element, 2nat, count,
{
    let ghost whole = decode_repeat(*element, count as nat, buf@.skip(at as int));
    let mut items: Vec<Value> = Vec::new();
    let mut pos: usize = at;
    let mut i: usize = 0;
    let mut failure: Option<WireError> = None;
    let len = buf.len();
    proof {
        lemma_models(items@);
        assert(models(items@) + whole->Ok_0.0 =~= whole->Ok_0.0);
    }
    while failure.is_none() && i < count
        invariant
            at <= pos <= buf@.len() == len,
            i <= count,
            whole == decode_repeat(*element, count as nat, buf@.skip(at as int)),
            failure is None ==> whole == after(
                models(items@),
                (pos - at) as nat,
                decode_repeat(*element, (count - i) as nat, buf@.skip(pos as int)),
            ),
            failure matches Some(e) ==> whole == Err::<(Seq<WireValue>, nat), WireError>(e),
        decreases count - i + if failure is None { 1nat } else { 0nat },
    {
        let ghost here = buf@.skip(pos as int);
        proof {
            lemma_sound(*element, here);
        }
        match read_at(element, buf, pos) {
            Ok((v, n)) => {
                proof {
                    assert(here.skip(n as int) =~= buf@.skip(pos + n));
                    lemma_after_push(
                        models(items@),
                        (pos - at) as nat,
                        v@,
                        n as nat,
                        decode_repeat(*element, (count - i - 1) as nat, buf@.skip(pos + n)),
                    );
                    lemma_models_push(items@, v);
                }
                items.push(v);
                pos = pos + n;
                i = i + 1;
            },
            Err(e) => {
                failure = Some(e);
            },
        }
    }
    match failure {
        Some(e) => Err(e),
        None => {
            proof {
                assert(models(items@) + Seq::<WireValue>::empty() =~= models(items@));
            }
            Ok((items, pos - at))
        },
    }
}

/// `count` entries of the map layout `mapping`, read one after the other
/// from `at` on.
fn read_entries(mapping: &Layout, count: usize, buf: &[u8], at: usize) -> (r: Result<
    (Vec<(Value, Value)>, usize),
    WireError,
>)
    requires
        at <= buf@.len(),
        mapping is Mapping,
    ensures
        read_entries_model(r) == decode_entries(*mapping, count as nat, buf@.skip(at as int)),
    decreases mapping, 0nat, count,
{
    let ghost whole = decode_entries(*mapping, count as nat, buf@.skip(at as int));
    let mut entries: Vec<(Value, Value)> = Vec::new();
    let mut pos: usize = at;
    let mut i: usize = 0;
    let mut failure: Option<WireError> = None;
    let len = buf.len();
    proof {
        lemma_entry_models(entries@);
        assert(entry_models(entries@) + whole->Ok_0.0 =~= whole->Ok_0.0);
    }
    while failure.is_none() && i < count
        invariant
            at <= pos <= buf@.len() == len,
            i <= count,
            mapping is Mapping,
            whole == decode_entries(*mapping, count as nat, buf@.skip(at as int)),
            failure is None ==> whole == after_entries(
                entry_models(entries@),
                (pos - at) as nat,
                decode_entries(*mapping, (count - i) as nat, buf@.skip(pos as int)),
            ),
            failure matches Some(e) ==> whole == Err::<
                (Seq<(WireValue, WireValue)>, nat),
                WireError,
            >(e),
        decreases count - i + if failure is None { 1nat } else { 0nat },
    {
        let ghost here = buf@.skip(pos as int);
        if let Layout::Mapping(key, value) = mapping {
            proof {
                lemma_sound(**key, here);
            }
            match read_at(key, buf, pos) {
                Ok((k, n)) => {
                    proof {
                        assert(here.skip(n as int) =~= buf@.skip(pos + n));
                        lemma_sound(**value, buf@.skip(pos + n));
                    }
                    match read_at(value, buf, pos + n) {
                        Ok((v, m)) => {
                            proof {
                                assert(here.skip((n + m) as int) =~= buf@.skip(pos + n + m));
                                lemma_after_entries_push(
                                    entry_models(entries@),
                                    (pos - at) as nat,
                                    (k@, v@),
                                    (n + m) as nat,
                                    decode_entries(
                                        *mapping,
                                        (count - i - 1) as nat,
                                        buf@.skip(pos + n + m),
                                    ),
                                );
                                lemma_entry_models_push(entries@, k, v);
                            }
                            entries.push((k, v));
                            pos = pos + n + m;
                            i = i + 1;
                        },
                        Err(e) => {
                            failure = Some(e);
                        },
                    }
                },
                Err(e) => {
                    failure = Some(e);
                },
            }
        }
    }
    match failure {
        Some(e) => Err(e),
        None => {
            proof {
                assert(entry_models(entries@) + Seq::<(WireValue, WireValue)>::empty()
                    =~= entry_models(entries@));
            }
            Ok((entries, pos - at))
        },
    }
}

/// The value of the builtin type `p` at `at`, and the number of bytes it takes.
fn read_primitive(p: Primitive, buf: &[u8], at: usize) -> (r: Result<(Value, usize), WireError>)
    requires
        at <= buf@.len(),
    ensures
        read_model(r) == decode(Layout::Primitive(p), buf@.skip(at as int)),
{
    let len = buf.len();
    match p {
        Primitive::Bool => {
            if len - at < 1 {
                Err(WireError::UnexpectedEnd)
            } else if buf[at] == 0 {
                Ok((Value::Bool(false), 1))
            } else if buf[at] == 1 {
                Ok((Value::Bool(true), 1))
            } else {
                Err(WireError::InvalidBool)
            }
        },
        Primitive::String => {
            match read_payload(buf, at) {
                Err(e) => Err(e),
                Ok((bytes, n)) => {
                    match text_from_utf8(bytes) {
                        Some(s) => Ok((Value::String(s), n)),
                        None => Err(WireError::InvalidUtf8),
                    }
                },
            }
        },
        Primitive::Bytes => {
            match read_payload(buf, at) {
                Err(e) => Err(e),
                Ok((bytes, n)) => Ok((Value::Bytes(bytes), n)),
            }
        },
        _ => {
            let width = width_of(p);
            match read_raw(buf, at, width) {
                None => Err(WireError::UnexpectedEnd),
                Some(raw) => Ok((number_value(p, raw), width as usize)),
            }
        },
    }
}

/// The value of an enum with the variants `variants` at `at`, and the
/// number of bytes it takes.
fn read_enum(variants: &Vec<Vec<Layout>>, buf: &[u8], at: usize) -> (r: Result<
    (Value, usize),
    WireError,
>)
    requires
        at <= buf@.len(),
    ensures
        read_model(r) == decode(Layout::Enum(*variants), buf@.skip(at as int)),
    decreases variants, 0nat, 0nat,
{
    let len = buf.len();
    let ghost here = buf@.skip(at as int);
    match read_raw(buf, at, 4) {
        None => Err(WireError::UnexpectedEnd),
        Some(tag) => {
            if tag < 1 || tag > 0x7fff_ffff || tag as usize > variants.len() {
                Err(WireError::UnknownVariant)
            } else {
                let index = (tag - 1) as usize;
                proof {
                    assert(here.skip(4) =~= buf@.skip(at + 4));
                    crate::roundtrip::lemma_fields_sound(
                        variants@[index as int]@,
                        buf@.skip(at + 4),
                    );
                }
                match read_fields(&variants[index], buf, at + 4) {
                    Err(e) => Err(e),
                    Ok((fields, n)) => Ok((Value::Enum(index as u32, fields), 4 + n)),
                }
            }
        },
    }
}

/// The sequence with elements of layout `element` at `at`, and the number
/// of bytes it takes.
fn read_sequence(element: &Layout, buf: &[u8], at: usize) -> (r: Result<(Value, usize), WireError>)
    requires
        at <= buf@.len(),
    ensures
        read_model(r) == decode(Layout::Sequence(Box::new(*element)), buf@.skip(at as int)),
    decreases element, 3nat, 0nat,
{
    let len = buf.len();
    let ghost here = buf@.skip(at as int);
    match read_count(buf, at) {
        Err(e) => Err(e),
        Ok(count) => {
            proof {
                assert(here.skip(4) =~= buf@.skip(at + 4));
                crate::roundtrip::lemma_repeat_sound(*element, count as nat, buf@.skip(at + 4));
            }
            match read_repeat(element, count, buf, at + 4) {
                Err(e) => Err(e),
                Ok((items, n)) => Ok((Value::Sequence(items), 4 + n)),
            }
        },
    }
}

/// The map of layout `mapping` at `at`, and the number of bytes it takes.
fn read_mapping(mapping: &Layout, buf: &[u8], at: usize) -> (r: Result<(Value, usize), WireError>)
    requires
        at <= buf@.len(),
        mapping is Mapping,
    ensures
        read_model(r) == decode(*mapping, buf@.skip(at as int)),
    decreases mapping, 0nat, usize::MAX + 1,
{
    let len = buf.len();
    let ghost here = buf@.skip(at as int);
    match read_count(buf, at) {
        Err(e) => Err(e),
        Ok(count) => {
            proof {
                assert(here.skip(4) =~= buf@.skip(at + 4));
                crate::roundtrip::lemma_entries_sound(*mapping, count as nat, buf@.skip(at + 4));
            }
            match read_entries(mapping, count, buf, at + 4) {
                Err(e) => Err(e),
                Ok((entries, n)) => Ok((Value::Mapping(entries), 4 + n)),
            }
        },
    }
}

/// The value of layout `layout` at `at`, and the number of bytes it takes.
fn read_at(layout: &Layout, buf: &[u8], at: usize) -> (r: Result<(Value, usize), WireError>)
    requires
        at <= buf@.len(),
    ensures
        read_model(r) == decode(*layout, buf@.skip(at as int)),
    decreases layout, 1nat, 0nat,
{
    let len = buf.len();
    let ghost here = buf@.skip(at as int);
    match layout {
        Layout::Primitive(p) => read_primitive(*p, buf, at),
        Layout::Handle => {
            match read_raw(buf, at, 8) {
                None => Err(WireError::UnexpectedEnd),
                Some(raw) => Ok((Value::Handle(raw), 8)),
            }
        },
        Layout::Optional(inner) => {
            if len - at < 1 {
                Err(WireError::UnexpectedEnd)
            } else if buf[at] == 0 {
                Ok((Value::Optional(None), 1))
            } else if buf[at] == 1 {
                proof {
                    assert(here.skip(1) =~= buf@.skip(at + 1));
                    lemma_sound(**inner, buf@.skip(at + 1));
                }
                match read_at(inner, buf, at + 1) {
                    Err(e) => Err(e),
                    Ok((v, n)) => Ok((Value::Optional(Some(Box::new(v))), 1 + n)),
                }
            } else {
                Err(WireError::InvalidFlag)
            }
        },
        Layout::Sequence(element) => read_sequence(element, buf, at),
        Layout::Mapping(_, _) => read_mapping(layout, buf, at),
        Layout::Record(fields) => {
            match read_fields(fields, buf, at) {
                Err(e) => Err(e),
                Ok((items, n)) => Ok((Value::Record(items), n)),
            }
        },
        Layout::Enum(variants) => read_enum(variants, buf, at),
    }
}

/// Reads the value of layout `layout` that starts at `offset` in `buf`, and
/// says how many bytes it takes. An offset behind the end of the buffer
/// leaves nothing to read.
pub fn read(layout: &Layout, buf: &[u8], offset: usize) -> (r: Result<(Value, usize), WireError>)
    ensures
        read_model(r) == decode(*layout, tail(buf@, offset as int)),
{
    if offset > buf.len() {
        assert(buf@.skip(buf@.len() as int) =~= Seq::<u8>::empty());
        read_at(layout, buf, buf.len())
    } else {
        read_at(layout, buf, offset)
    }
}

/// `n`, as far as a machine word counts.
pub open spec fn saturated(n: int) -> int {
    if n <= usize::MAX {
        n
    } else {
        usize::MAX as int
    }
}

/// The sum of `a` and `b`, as far as a machine word counts.
fn saturating_sum(a: usize, b: usize) -> (sum: usize)
    ensures
        sum == saturated(a + b),
{
    if a > usize::MAX - b {
        usize::MAX
    } else {
        a + b
    }
}

/// The number of bytes that the encodings of `items` take together, as far
/// as a machine word counts.
fn size_of_all(items: &Vec<Value>) -> (n: usize)
    ensures
        n == saturated(encode_all(models(items@)).len() as int),
    decreases items, 0nat,
{
    let ghost all = models(items@);
    let mut total: usize = 0;
    let mut i: usize = 0;
    assert(encode_all(all.take(0)) =~= Seq::<u8>::empty());
    while i < items.len()
        invariant
            i <= items.len(),
            all == models(items@),
            total == saturated(encode_all(all.take(i as int)).len() as int),
        decreases items.len() - i,
    {
        let one = allocation_size(&items[i]);
        proof {
            lemma_models(items@);
            lemma_encode_all_concat(all.take(i as int), seq![all[i as int]]);
            assert(all.take(i + 1) =~= all.take(i as int) + seq![all[i as int]]);
            lemma_encode_all_one(all[i as int]);
        }
        total = saturating_sum(total, one);
        i = i + 1;
    }
    assert(all.take(items.len() as int) =~= all);
    total
}

/// The number of bytes that the encodings of the keys and values of
/// `entries` take together, as far as a machine word counts.
fn size_of_entries(entries: &Vec<(Value, Value)>) -> (n: usize)
    ensures
        n == saturated(encode_entries(entry_models(entries@)).len() as int),
    decreases entries, 0nat,
{
    let ghost all = entry_models(entries@);
    let mut total: usize = 0;
    let mut i: usize = 0;
    assert(encode_entries(all.take(0)) =~= Seq::<u8>::empty());
    while i < entries.len()
        invariant
            i <= entries.len(),
            all == entry_models(entries@),
            total == saturated(encode_entries(all.take(i as int)).len() as int),
        decreases entries.len() - i,
    {
        let key = allocation_size(&entries[i].0);
        let value = allocation_size(&entries[i].1);
        proof {
            lemma_entry_models(entries@);
            lemma_encode_entries_concat(all.take(i as int), seq![all[i as int]]);
            assert(all.take(i + 1) =~= all.take(i as int) + seq![all[i as int]]);
            lemma_encode_entries_one(all[i as int].0, all[i as int].1);
        }
        total = saturating_sum(saturating_sum(total, key), value);
        i = i + 1;
    }
    assert(all.take(entries.len() as int) =~= all);
    total
}

/// The number of bytes that a buffer needs to take the encoding of `v`, as
/// far as a machine word counts.
pub fn allocation_size(v: &Value) -> (n: usize)
    ensures
        n == saturated(encode(v@).len() as int),
    decreases v, 1nat,
{
    if let Some((raw, width)) = number_parts(v) {
        proof {
            lemma_be_bytes_len(raw as nat, width as nat);
        }
        return width as usize;
    }
    match v {
        Value::Bool(_) => 1,
        Value::String(s) => {
            let payload = s.as_str().as_bytes();
            proof {
                lemma_be_bytes_len(payload@.len(), 4);
            }
            saturating_sum(4, payload.len())
        },
        Value::Bytes(payload) => {
            proof {
                lemma_be_bytes_len(payload@.len(), 4);
            }
            saturating_sum(4, payload.len())
        },
        Value::Optional(o) => match o {
            None => 1,
            Some(inner) => saturating_sum(1, allocation_size(inner)),
        },
        Value::Sequence(items) => {
            proof {
                lemma_models(items@);
                lemma_be_bytes_len(models(items@).len(), 4);
            }
            saturating_sum(4, size_of_all(items))
        },
        Value::Mapping(entries) => {
            proof {
                lemma_entry_models(entries@);
                lemma_be_bytes_len(entry_models(entries@).len(), 4);
            }
            saturating_sum(4, size_of_entries(entries))
        },
        Value::Record(fields) => size_of_all(fields),
        Value::Enum(variant, fields) => {
            proof {
                lemma_be_bytes_len((*variant + 1) as nat, 4);
            }
            saturating_sum(4, size_of_all(fields))
        },
        // Every number was sized above.
        _ => 0,
    }
}

} // verus!
