//! The descriptors of the compound types: each is made of the converters of
//! its parts.

use vstd::prelude::*;
use crate::gen::oracle::{converter, converter_name, label, type_label};
use crate::interface::Type;
use crate::template::{
    balanced,
    expand,
    expanded,
    lemma_balanced_concat,
    lemma_expanded_balanced,
    slot_texts,
    TemplateLine,
};
use crate::tokens::{Token, token_models, TokenModel};

verus! {

/// The head of a converter: `$0` is the name of the converter.
pub const CONVERTER_HEAD: [TemplateLine; 1] = [(0, "class $0 {")];

/// Lifting and lowering of a type that crosses in a buffer of its
/// encoding: `$1` is the name of the type.
pub const VIA_BUFFER: [TemplateLine; 10] = [
    (1, "static $1 lift(RustBuffer buf) {"),
    (2, "return read(buf.asUint8List()).value;"),
    (1, "}"),
    (1, ""),
    (1, "static RustBuffer lower($1 value) {"),
    (2, "final buf = Uint8List(allocationSize(value));"),
    (2, "write(value, buf);"),
    (2, "return toRustBuffer(buf);"),
    (1, "}"),
    (1, ""),
];

/// Reading and writing of an optional value, a flag byte before it: `$1` is
/// the name of the type and `$2` the converter of the value.
pub const OPTIONAL_BODY: [TemplateLine; 26] = [
    (1, "static LiftRetVal<$1> read(Uint8List buf) {"),
    (2, "if (buf.first == 0) {"),
    (3, "return LiftRetVal(null, 1);"),
    (2, "}"),
    (2, "final inner = $2.read(Uint8List.view(buf.buffer, buf.offsetInBytes + 1));"),
    (2, "return LiftRetVal(inner.value, inner.bytesRead + 1);"),
    (1, "}"),
    (1, ""),
    (1, "static int allocationSize([$1 value]) {"),
    (2, "if (value == null) {"),
    (3, "return 1;"),
    (2, "}"),
    (2, "return $2.allocationSize(value) + 1;"),
    (1, "}"),
    (1, ""),
    (1, "static int write($1 value, Uint8List buf) {"),
    (2, "if (value == null) {"),
    (3, "buf.setAll(0, [0]);"),
    (3, "return 1;"),
    (2, "}"),
    (2, "buf.setAll(0, [1]);"),
    (2, "return $2.write(value, Uint8List.view(buf.buffer, buf.offsetInBytes + 1)) + 1;"),
    (1, "}"),
    (0, "}"),
    (0, ""),
    (0, ""),
];

/// Reading and writing of a sequence, its count before its elements: `$1`
/// is the name of the type, `$2` the converter of an element and `$3` the
/// name of its type.
pub const SEQUENCE_BODY: [TemplateLine; 31] = [
    (1, "static LiftRetVal<$1> read(Uint8List buf) {"),
    (2, "final items = <$3>[
];"),
    (2, "final length = buf.buffer.asByteData(buf.offsetInBytes).getInt32(0);"),
    (2, "int offset = 4;"),
    (2, "for (var i = 0; i < length; i++) {"),
    (3, "final item = $2.read(Uint8List.view(buf.buffer, buf.offsetInBytes + offset));"),
    (3, "offset += item.bytesRead;"),
    (3, "items.add(item.value);"),
    (2, "}"),
    (2, "return LiftRetVal(items, offset);"),
    (1, "}"),
    (1, ""),
    (1, "static int allocationSize([$1? value]) {"),
    (2, "int size = 4;"),
    (2, "for (final item in value ?? const []) {"),
    (3, "size += $2.allocationSize(item);"),
    (2, "}"),
    (2, "return size;"),
    (1, "}"),
    (1, ""),
    (1, "static int write($1 value, Uint8List buf) {"),
    (2, "buf.buffer.asByteData(buf.offsetInBytes).setInt32(0, value.length);"),
    (2, "int offset = 4;"),
    (2, "for (final item in value) {"),
    (3, "offset += $2.write(item, Uint8List.view(buf.buffer, buf.offsetInBytes + offset));"),
    (2, "}"),
    (2, "return offset;"),
    (1, "}"),
    (0, "}"),
    (0, ""),
    (0, ""),
];

/// Reading and writing of a map, its count before its entries, each a key
/// and then a value, in insertion order: `$1` is the name of the type, `$2`
/// the converter of a key, `$3` that of a value, `$4` and `$5` the names of
/// their types.
pub const MAP_BODY: [TemplateLine; 36] = [
    (1, "static LiftRetVal<$1> read(Uint8List buf) {"),
    (2, "final entries = <$4, $5>{};"),
    (2, "final length = buf.buffer.asByteData(buf.offsetInBytes).getInt32(0);"),
    (2, "int offset = 4;"),
    (2, "for (var i = 0; i < length; i++) {"),
    (3, "final key = $2.read(Uint8List.view(buf.buffer, buf.offsetInBytes + offset));"),
    (3, "offset += key.bytesRead;"),
    (3, "final value = $3.read(Uint8List.view(buf.buffer, buf.offsetInBytes + offset));"),
    (3, "offset += value.bytesRead;"),
    (3, "entries[key.value] = value.value;"),
    (2, "}"),
    (2, "return LiftRetVal(entries, offset);"),
    (1, "}"),
    (1, ""),
    (1, "static int allocationSize([$1? value]) {"),
    (2, "int size = 4;"),
    (2, "for (final entry in (value ?? const {}).entries) {"),
    (3, "size += $2.allocationSize(entry.key);"),
    (3, "size += $3.allocationSize(entry.value);"),
    (2, "}"),
    (2, "return size;"),
    (1, "}"),
    (1, ""),
    (1, "static int write($1 value, Uint8List buf) {"),
    (2, "buf.buffer.asByteData(buf.offsetInBytes).setInt32(0, value.length);"),
    (2, "int offset = 4;"),
    (2, "for (final entry in value.entries) {"),
    (3, "offset += $2.write(entry.key, Uint8List.view(buf.buffer, buf.offsetInBytes + offset));"),
    (3, "offset += $3.write(entry.value, Uint8List.view(buf.buffer, buf.offsetInBytes + offset));"),
    (2, "}"),
    (2, "return offset;"),
    (1, "}"),
    (0, "}"),
    (0, ""),
    (0, ""),
    (0, ""),
];

/// The texts of the converter of a compound type: its name, the name of
/// the type, and the converters and names of its parts.
pub open spec fn compound_slots(ty: Type) -> Seq<Seq<char>> {
    match ty {
        Type::Optional(inner) => seq![converter(ty), label(ty), converter(*inner)],
        Type::Sequence(element) => seq![
            converter(ty),
            label(ty),
            converter(*element),
            label(*element),
        ],
        Type::Mapping(key, value) => seq![
            converter(ty),
            label(ty),
            converter(*key),
            converter(*value),
            label(*key),
            label(*value),
        ],
        _ => Seq::empty(),
    }
}

/// The tokens of the converter of a compound type; none for another type.
pub open spec fn compound_helper(ty: Type) -> Seq<TokenModel> {
    match ty {
        Type::Optional(_) => expanded(CONVERTER_HEAD@, compound_slots(ty)) + expanded(
            VIA_BUFFER@,
            compound_slots(ty),
        ) + expanded(OPTIONAL_BODY@, compound_slots(ty)),
        Type::Sequence(_) => expanded(CONVERTER_HEAD@, compound_slots(ty)) + expanded(
            VIA_BUFFER@,
            compound_slots(ty),
        ) + expanded(SEQUENCE_BODY@, compound_slots(ty)),
        Type::Mapping(_, _) => expanded(CONVERTER_HEAD@, compound_slots(ty)) + expanded(
            VIA_BUFFER@,
            compound_slots(ty),
        ) + expanded(MAP_BODY@, compound_slots(ty)),
        _ => Seq::empty(),
    }
}

/// Appends the converter of a compound type; nothing for another type.
pub fn render_compound(ty: &Type, out: &mut Vec<Token>)
    ensures
        token_models(final(out)@) == token_models(old(out)@) + compound_helper(*ty),
{
    let ghost start = token_models(out@);
    let mut slots: Vec<String> = Vec::new();
    match ty {
        Type::Optional(inner) => {
            slots.push(converter_name(ty));
            slots.push(type_label(ty));
            slots.push(converter_name(inner));
            assert(slot_texts(slots@) =~= compound_slots(*ty));
            expand(&CONVERTER_HEAD, &slots, out);
            expand(&VIA_BUFFER, &slots, out);
            expand(&OPTIONAL_BODY, &slots, out);
        },
        Type::Sequence(element) => {
            slots.push(converter_name(ty));
            slots.push(type_label(ty));
            slots.push(converter_name(element));
            slots.push(type_label(element));
            assert(slot_texts(slots@) =~= compound_slots(*ty));
            expand(&CONVERTER_HEAD, &slots, out);
            expand(&VIA_BUFFER, &slots, out);
            expand(&SEQUENCE_BODY, &slots, out);
        },
        Type::Mapping(key, value) => {
            slots.push(converter_name(ty));
            slots.push(type_label(ty));
            slots.push(converter_name(key));
            slots.push(converter_name(value));
            slots.push(type_label(key));
            slots.push(type_label(value));
            assert(slot_texts(slots@) =~= compound_slots(*ty));
            expand(&CONVERTER_HEAD, &slots, out);
            expand(&VIA_BUFFER, &slots, out);
            expand(&MAP_BODY, &slots, out);
        },
        _ => {},
    }
    assert(token_models(out@) =~= start + compound_helper(*ty));
}

/// The tokens of the converter of a compound type are balanced.
pub proof fn lemma_compound_balanced(ty: Type)
    ensures
        balanced(compound_helper(ty)),
{
    let slots = compound_slots(ty);
    match ty {
        Type::Optional(_) => {
            let part0 = expanded(CONVERTER_HEAD@, slots);
            lemma_expanded_balanced(CONVERTER_HEAD@, slots);
            let part1 = expanded(VIA_BUFFER@, slots);
            lemma_expanded_balanced(VIA_BUFFER@, slots);
            let part2 = expanded(OPTIONAL_BODY@, slots);
            lemma_expanded_balanced(OPTIONAL_BODY@, slots);
            let upto0 = part0;
            lemma_balanced_concat(upto0, part1);
            let upto1 = upto0 + part1;
            lemma_balanced_concat(upto1, part2);
            let upto2 = upto1 + part2;
            assert(compound_helper(ty) =~= upto2);
        },
        Type::Sequence(_) => {
            let part0 = expanded(CONVERTER_HEAD@, slots);
            lemma_expanded_balanced(CONVERTER_HEAD@, slots);
            let part1 = expanded(VIA_BUFFER@, slots);
            lemma_expanded_balanced(VIA_BUFFER@, slots);
            let part2 = expanded(SEQUENCE_BODY@, slots);
            lemma_expanded_balanced(SEQUENCE_BODY@, slots);
            let upto0 = part0;
            lemma_balanced_concat(upto0, part1);
            let upto1 = upto0 + part1;
            lemma_balanced_concat(upto1, part2);
            let upto2 = upto1 + part2;
            assert(compound_helper(ty) =~= upto2);
        },
        Type::Mapping(_, _) => {
            let part0 = expanded(CONVERTER_HEAD@, slots);
            lemma_expanded_balanced(CONVERTER_HEAD@, slots);
            let part1 = expanded(VIA_BUFFER@, slots);
            lemma_expanded_balanced(VIA_BUFFER@, slots);
            let part2 = expanded(MAP_BODY@, slots);
            lemma_expanded_balanced(MAP_BODY@, slots);
            let upto0 = part0;
            lemma_balanced_concat(upto0, part1);
            let upto1 = upto0 + part1;
            lemma_balanced_concat(upto1, part2);
            let upto2 = upto1 + part2;
            assert(compound_helper(ty) =~= upto2);
        },
        _ => {},
    }
}

} // verus!
