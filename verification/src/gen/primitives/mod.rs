//! The descriptors of the builtin types.

pub mod string;

use vstd::prelude::*;
use crate::gen::code_type::Renderable;
use crate::gen::oracle::{
    primitive_canonical_name,
    primitive_label,
    primitive_name,
    primitive_type_label,
};
use crate::gen::primitives::string::StringCodeType;
use crate::template::{
    balanced,
    expand,
    expanded,
    lemma_balanced_concat,
    lemma_expanded_balanced,
    slot_texts,
    TemplateLine,
};
use crate::text::join2;
use crate::tokens::{Token, token_models, TokenModel};
use crate::value::Primitive;

verus! {

/// The converter of booleans: a byte that is 0 or 1.
pub const BOOL_HELPER: [TemplateLine; 15] = [
    (0, "class FfiConverterBool {"),
    (1, "static bool lift(int value) => value == 1;"),
    (1, "static int lower(bool value) => value ? 1 : 0;"),
    (1, ""),
    (1, "static LiftRetVal<bool> read(Uint8List buf) {"),
    (2, "return LiftRetVal(lift(buf.first), 1);"),
    (1, "}"),
    (1, ""),
    (1, "static int allocationSize([bool value = false]) => 1;"),
    (1, ""),
    (1, "static int write(bool value, Uint8List buf) {"),
    (2, "buf.setAll(0, [lower(value)]);"),
    (2, "return 1;"),
    (1, "}"),
    (0, "}"),
];

/// The converter of a fixed-width number: `$0` is the name of the converter,
/// `$1` the type, `$2` the accessor of the byte view and `$3` the number of
/// bytes.
pub const NUMBER_HELPER: [TemplateLine; 15] = [
    (0, "class $0 {"),
    (1, "static $1 lift($1 value) => value;"),
    (1, "static $1 lower($1 value) => value;"),
    (1, ""),
    (1, "static LiftRetVal<$1> read(Uint8List buf) {"),
    (2, "return LiftRetVal(buf.buffer.asByteData(buf.offsetInBytes).get$2(0), $3);"),
    (1, "}"),
    (1, ""),
    (1, "static int allocationSize([$1 value = 0]) => $3;"),
    (1, ""),
    (1, "static int write($1 value, Uint8List buf) {"),
    (2, "buf.buffer.asByteData(buf.offsetInBytes).set$2(0, value);"),
    (2, "return $3;"),
    (1, "}"),
    (0, "}"),
];

/// The converter of bytes: the bytes behind their number.
pub const BYTES_HELPER: [TemplateLine; 22] = [
    (0, "class FfiConverterUint8List {"),
    (1, "static Uint8List lift(RustBuffer buf) {"),
    (2, "return read(buf.asUint8List()).value;"),
    (1, "}"),
    (1, ""),
    (1, "static RustBuffer lower(Uint8List value) {"),
    (2, "final buf = Uint8List(allocationSize(value));"),
    (2, "write(value, buf);"),
    (2, "return toRustBuffer(buf);"),
    (1, "}"),
    (1, ""),
    (1, "static LiftRetVal<Uint8List> read(Uint8List buf) {"),
    (2, "final end = buf.buffer.asByteData(buf.offsetInBytes).getInt32(0) + 4;"),
    (2, "return LiftRetVal(Uint8List.fromList(buf.sublist(4, end)), end);"),
    (1, "}"),
    (1, ""),
    (1, "static int allocationSize([Uint8List? value]) => (value?.length ?? 0) + 4;"),
    (1, ""),
    (1, "static int write(Uint8List value, Uint8List buf) {"),
    (2, "buf.buffer.asByteData(buf.offsetInBytes).setInt32(0, value.length);"),
    (2, "buf.setAll(4, value);"),
    (2, "return value.length + 4;"),
];

/// The end of a converter whose last method is still open.
pub const METHOD_END: [TemplateLine; 3] = [(1, "}"), (0, "}"), (0, "")];

/// An empty line.
pub const BLANK: [TemplateLine; 1] = [(0, "")];

/// The accessor of the byte view for a number type.
pub open spec fn accessor(p: Primitive) -> Seq<char> {
    match p {
        Primitive::Int8 => "Int8"@,
        Primitive::UInt8 => "Uint8"@,
        Primitive::Int16 => "Int16"@,
        Primitive::UInt16 => "Uint16"@,
        Primitive::Int32 => "Int32"@,
        Primitive::UInt32 => "Uint32"@,
        Primitive::Int64 => "Int64"@,
        Primitive::UInt64 => "Uint64"@,
        Primitive::Float32 => "Float32"@,
        _ => "Float64"@,
    }
}

/// The number of bytes of a number type, in digits.
pub open spec fn width_text(p: Primitive) -> Seq<char> {
    match p {
        Primitive::Int8 | Primitive::UInt8 => "1"@,
        Primitive::Int16 | Primitive::UInt16 => "2"@,
        Primitive::Int32 | Primitive::UInt32 | Primitive::Float32 => "4"@,
        _ => "8"@,
    }
}

/// The tokens of the converter of a builtin type.
pub open spec fn primitive_helper(p: Primitive) -> Seq<TokenModel> {
    match p {
        Primitive::Bool => expanded(BOOL_HELPER@, Seq::empty()) + expanded(BLANK@, Seq::empty()),
        Primitive::String => StringCodeType.helper(),
        Primitive::Bytes => expanded(BYTES_HELPER@, Seq::empty()) + expanded(
            METHOD_END@,
            Seq::empty(),
        ),
        _ => expanded(
            NUMBER_HELPER@,
            seq![
                "FfiConverter"@ + primitive_name(p),
                primitive_label(p),
                accessor(p),
                width_text(p),
            ],
        ) + expanded(BLANK@, Seq::empty()),
    }
}

/// The accessor of the byte view for a number type.
fn accessor_of(p: Primitive) -> (out: &'static str)
    ensures
        out@ == accessor(p),
{
    match p {
        Primitive::Int8 => "Int8",
        Primitive::UInt8 => "Uint8",
        Primitive::Int16 => "Int16",
        Primitive::UInt16 => "Uint16",
        Primitive::Int32 => "Int32",
        Primitive::UInt32 => "Uint32",
        Primitive::Int64 => "Int64",
        Primitive::UInt64 => "Uint64",
        Primitive::Float32 => "Float32",
        _ => "Float64",
    }
}

/// The number of bytes of a number type, in digits.
fn width_text_of(p: Primitive) -> (out: &'static str)
    ensures
        out@ == width_text(p),
{
    match p {
        Primitive::Int8 | Primitive::UInt8 => "1",
        Primitive::Int16 | Primitive::UInt16 => "2",
        Primitive::Int32 | Primitive::UInt32 | Primitive::Float32 => "4",
        _ => "8",
    }
}

/// Appends the converter of a builtin type.
pub fn render_primitive(p: Primitive, out: &mut Vec<Token>)
    ensures
        token_models(final(out)@) == token_models(old(out)@) + primitive_helper(p),
{
    let ghost start = token_models(out@);
    let none: Vec<String> = Vec::new();
    assert(slot_texts(none@) =~= Seq::<Seq<char>>::empty());
    match p {
        Primitive::Bool => {
            expand(&BOOL_HELPER, &none, out);
            expand(&BLANK, &none, out);
        },
        Primitive::String => {
            let mut tokens = StringCodeType.render_type_helper();
            proof {
                crate::template::lemma_models_concat(out@, tokens@);
            }
            out.append(&mut tokens);
        },
        Primitive::Bytes => {
            expand(&BYTES_HELPER, &none, out);
            expand(&METHOD_END, &none, out);
        },
        _ => {
            let mut slots: Vec<String> = Vec::new();
            slots.push(join2("FfiConverter", primitive_canonical_name(p)));
            slots.push(primitive_type_label(p).to_owned());
            slots.push(accessor_of(p).to_owned());
            slots.push(width_text_of(p).to_owned());
            assert(slot_texts(slots@) =~= seq![
                "FfiConverter"@ + primitive_name(p),
                primitive_label(p),
                accessor(p),
                width_text(p),
            ]);
            expand(&NUMBER_HELPER, &slots, out);
            expand(&BLANK, &none, out);
        },
    }
    assert(token_models(out@) =~= start + primitive_helper(p));
}

/// The tokens of the converter of a builtin type are balanced.
pub proof fn lemma_primitive_balanced(p: Primitive)
    ensures
        balanced(primitive_helper(p)),
{
    let none = Seq::<Seq<char>>::empty();
    match p {
        Primitive::Bool => {
            lemma_expanded_balanced(BOOL_HELPER@, none);
            lemma_expanded_balanced(BLANK@, none);
            lemma_balanced_concat(expanded(BOOL_HELPER@, none), expanded(BLANK@, none));
        },
        Primitive::String => {
            lemma_expanded_balanced(crate::gen::primitives::string::STRING_HELPER@, none);
        },
        Primitive::Bytes => {
            lemma_expanded_balanced(BYTES_HELPER@, none);
            lemma_expanded_balanced(METHOD_END@, none);
            lemma_balanced_concat(expanded(BYTES_HELPER@, none), expanded(METHOD_END@, none));
        },
        _ => {
            let slots = seq![
                "FfiConverter"@ + primitive_name(p),
                primitive_label(p),
                accessor(p),
                width_text(p),
            ];
            lemma_expanded_balanced(NUMBER_HELPER@, slots);
            lemma_expanded_balanced(BLANK@, none);
            lemma_balanced_concat(expanded(NUMBER_HELPER@, slots), expanded(BLANK@, none));
        },
    }
}

} // verus!
