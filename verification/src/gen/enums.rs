//! The descriptors of enums: a class for the enum and one for each
//! variant, and a converter that writes the discriminant of a variant,
//! counted from 1 in declaration order, before its fields.

use vstd::prelude::*;
use crate::gen::compounds::{CONVERTER_HEAD, VIA_BUFFER};
use crate::gen::records::{declared_slots, SIZE_END, slots_of_declared, WRITE_END};
use crate::gen::slots::{field_sets, field_slot_sets};
use crate::interface::{Enum, Variant};
use crate::naming::{class_name, upper_camel};
use crate::template::{
    balanced,
    expand,
    expand_groups,
    expanded,
    expanded_groups,
    Group,
    group_texts,
    GroupTexts,
    lemma_balanced_concat,
    lemma_expanded_balanced,
    lemma_expanded_groups_balanced,
    slot_sets,
    slot_texts,
    TemplateLine,
};
use crate::text::{decimal, decimal_text, join2};
use crate::tokens::{Token, token_models, TokenModel};

verus! {

/// The class of an enum: `$1` is its name.
pub const ENUM_HEAD: [TemplateLine; 2] = [(0, "abstract class $1 {}"), (0, "")];

/// The head of the class of a variant: `$0` is the name of the enum and
/// `$1` that of the class.
pub const VARIANT_HEAD: [TemplateLine; 1] = [(0, "class $1 extends $0 {")];

/// A field of a variant: `$0` is the name of its type and `$1` its own.
pub const VARIANT_FIELD: [TemplateLine; 1] = [(1, "late final $0 $1;")];

/// The end of the class of a variant.
pub const VARIANT_END: [TemplateLine; 2] = [(0, "}"), (0, "")];

/// The head of reading: the discriminant comes first.
pub const ENUM_READ_HEAD: [TemplateLine; 4] = [
    (1, "static LiftRetVal<$1> read(Uint8List buf) {"),
    (2, "final index = buf.buffer.asByteData(buf.offsetInBytes).getInt32(0);"),
    (2, "int offset = 4;"),
    (2, "switch (index) {"),
];

/// The head of the case of a variant: `$2` is its discriminant.
pub const CASE_HEAD: [TemplateLine; 2] = [(3, "case $2:"), (4, "final value = $1();")];

/// Reading one field of a variant.
pub const CASE_FIELD: [TemplateLine; 3] = [
    (4, "final $1 = $2.read(Uint8List.view(buf.buffer, buf.offsetInBytes + offset));"),
    (4, "offset += $1.bytesRead;"),
    (4, "value.$1 = $1.value;"),
];

/// The end of the case of a variant.
pub const CASE_END: [TemplateLine; 1] = [(4, "return LiftRetVal(value, offset);")];

/// The end of reading: a discriminant that names no variant is a fault.
pub const ENUM_READ_END: [TemplateLine; 5] = [
    (3, "default:"),
    (4, "throw UniffiInternalError.unexpectedCall(\"unknown variant of $1\");"),
    (2, "}"),
    (1, "}"),
    (1, ""),
];

/// The head of sizing: the discriminant takes four bytes.
pub const ENUM_SIZE_HEAD: [TemplateLine; 2] = [
    (1, "static int allocationSize($1 value) {"),
    (2, "int size = 4;"),
];

/// The head of what is done for a value of one variant.
pub const IS_VARIANT: [TemplateLine; 1] = [(2, "if (value is $1) {")];

/// Sizing one field of a variant.
pub const VARIANT_FIELD_SIZE: [TemplateLine; 1] = [(3, "size += $2.allocationSize(value.$1);")];

/// The end of what is done for a value of one variant.
pub const IS_VARIANT_END: [TemplateLine; 1] = [(2, "}")];

/// The head of writing.
pub const ENUM_WRITE_HEAD: [TemplateLine; 2] = [
    (1, "static int write($1 value, Uint8List buf) {"),
    (2, "int offset = 4;"),
];

/// Writing the discriminant of a variant: `$2`, its place counted from 1.
pub const WRITE_VARIANT: [TemplateLine; 2] = [
    (2, "if (value is $1) {"),
    (3, "buf.buffer.asByteData(buf.offsetInBytes).setInt32(0, $2);"),
];

/// Writing one field of a variant.
pub const VARIANT_FIELD_WRITE: [TemplateLine; 1] = [
    (3, "offset += $2.write(value.$1, Uint8List.view(buf.buffer, buf.offsetInBytes + offset));"),
];

/// The texts of the variant at `place` of an enum: the name of the enum,
/// the name of the class of the variant, and its discriminant, which is its
/// place counted from 1.
pub open spec fn variant_slots(name: Seq<char>, variant: Variant, place: int) -> Seq<Seq<char>> {
    seq![
        upper_camel(name),
        upper_camel(name) + upper_camel(variant.name@),
        decimal((place + 1) as nat),
    ]
}

/// The texts of the variants of an enum, in declaration order, each with
/// the texts of its fields.
pub open spec fn variant_groups(e: Enum) -> Seq<GroupTexts> {
    Seq::new(
        e.variants@.len(),
        |i: int| (variant_slots(e.name@, e.variants@[i], i), field_slot_sets(e.variants@[i].fields@)),
    )
}

/// The texts of the variants of an enum, in declaration order.
fn groups_of(e: &Enum) -> (groups: Vec<Group>)
    ensures
        group_texts(groups@) == variant_groups(*e),
        groups@.len() == e.variants@.len(),
{
    let enum_name = class_name(e.name.as_str());
    let mut groups: Vec<Group> = Vec::new();
    let mut i: usize = 0;
    while i < e.variants.len()
        invariant
            i <= e.variants.len(),
            enum_name@ == upper_camel(e.name@),
            groups@.len() == i,
            forall|k: int|
                0 <= k < i ==> slot_texts((#[trigger] groups@[k]).slots@) == variant_slots(
                    e.name@,
                    e.variants@[k],
                    k,
                ) && slot_sets(groups@[k].sets@) == field_slot_sets(e.variants@[k].fields@),
        decreases e.variants.len() - i,
    {
        let variant = &e.variants[i];
        let mut slots: Vec<String> = Vec::new();
        slots.push(enum_name.clone());
        slots.push(join2(enum_name.as_str(), class_name(variant.name.as_str()).as_str()));
        slots.push(decimal_text(i as u64 + 1));
        assert(slot_texts(slots@) =~= variant_slots(e.name@, *variant, i as int));
        let sets = field_sets(&variant.fields);
        groups.push(Group { slots, sets });
        i = i + 1;
    }
    assert(group_texts(groups@) =~= variant_groups(*e));
    groups
}

/// The tokens of an enum: its class, the class of each variant, and its
/// converter.
#[verifier::opaque]
pub open spec fn enum_tokens(e: Enum) -> Seq<TokenModel> {
    let own = declared_slots(e.name@);
    let groups = variant_groups(e);
    let n = e.variants@.len() as int;
    expanded(ENUM_HEAD@, own) + expanded_groups(
        VARIANT_HEAD@,
        VARIANT_FIELD@,
        VARIANT_END@,
        groups,
        n,
    ) + expanded(CONVERTER_HEAD@, own) + expanded(VIA_BUFFER@, own) + expanded(
        ENUM_READ_HEAD@,
        own,
    ) + expanded_groups(CASE_HEAD@, CASE_FIELD@, CASE_END@, groups, n) + expanded(
        ENUM_READ_END@,
        own,
    ) + expanded(ENUM_SIZE_HEAD@, own) + expanded_groups(
        IS_VARIANT@,
        VARIANT_FIELD_SIZE@,
        IS_VARIANT_END@,
        groups,
        n,
    ) + expanded(SIZE_END@, own) + expanded(ENUM_WRITE_HEAD@, own) + expanded_groups(
        WRITE_VARIANT@,
        VARIANT_FIELD_WRITE@,
        IS_VARIANT_END@,
        groups,
        n,
    ) + expanded(WRITE_END@, own)
}

/// Appends the classes and the converter of an enum.
#[verifier::rlimit(60)]
pub fn render_enum(e: &Enum, out: &mut Vec<Token>)
    ensures
        token_models(final(out)@) == token_models(old(out)@) + enum_tokens(*e),
{
    proof {
        reveal(enum_tokens);
    }
    let ghost start = token_models(out@);
    let own = slots_of_declared(e.name.as_str());
    let groups = groups_of(e);
    expand(&ENUM_HEAD, &own, out);
    expand_groups(&VARIANT_HEAD, &VARIANT_FIELD, &VARIANT_END, &groups, out);
    expand(&CONVERTER_HEAD, &own, out);
    expand(&VIA_BUFFER, &own, out);
    expand(&ENUM_READ_HEAD, &own, out);
    expand_groups(&CASE_HEAD, &CASE_FIELD, &CASE_END, &groups, out);
    expand(&ENUM_READ_END, &own, out);
    expand(&ENUM_SIZE_HEAD, &own, out);
    expand_groups(&IS_VARIANT, &VARIANT_FIELD_SIZE, &IS_VARIANT_END, &groups, out);
    expand(&SIZE_END, &own, out);
    expand(&ENUM_WRITE_HEAD, &own, out);
    expand_groups(&WRITE_VARIANT, &VARIANT_FIELD_WRITE, &IS_VARIANT_END, &groups, out);
    expand(&WRITE_END, &own, out);
    assert(token_models(out@) =~= start + enum_tokens(*e));
}

/// The tokens of the first `end` of `enums`, in the order of the description.
pub open spec fn enums_tokens(enums: Seq<Enum>, end: int) -> Seq<TokenModel>
    decreases end,
{
    if end <= 0 {
        Seq::empty()
    } else {
        enums_tokens(enums, end - 1) + enum_tokens(enums[end - 1])
    }
}

/// Appends the classes and converters of `enums`, in the order of the
/// description.
pub fn render_enums(enums: &Vec<Enum>, out: &mut Vec<Token>)
    ensures
        token_models(final(out)@) == token_models(old(out)@) + enums_tokens(
            enums@,
            enums@.len() as int,
        ),
{
    let ghost start = token_models(out@);
    let mut i: usize = 0;
    assert(start + enums_tokens(enums@, 0) =~= start);
    while i < enums.len()
        invariant
            i <= enums.len(),
            token_models(out@) == start + enums_tokens(enums@, i as int),
        decreases enums.len() - i,
    {
        render_enum(&enums[i], out);
        i = i + 1;
        assert(token_models(out@) =~= start + enums_tokens(enums@, i as int));
    }
}

/// The tokens of an enum are balanced.
#[verifier::rlimit(60)]
pub proof fn lemma_enum_balanced(e: Enum)
    ensures
        balanced(enum_tokens(e)),
{
    reveal(enum_tokens);
    let own = declared_slots(e.name@);
    let groups = variant_groups(e);
    let n = e.variants@.len() as int;
    let part0 = expanded(ENUM_HEAD@, own);
    lemma_expanded_balanced(ENUM_HEAD@, own);
    let part1 = expanded_groups(VARIANT_HEAD@, VARIANT_FIELD@, VARIANT_END@, groups, n);
    lemma_expanded_groups_balanced(VARIANT_HEAD@, VARIANT_FIELD@, VARIANT_END@, groups, n);
    let part2 = expanded(CONVERTER_HEAD@, own);
    lemma_expanded_balanced(CONVERTER_HEAD@, own);
    let part3 = expanded(VIA_BUFFER@, own);
    lemma_expanded_balanced(VIA_BUFFER@, own);
    let part4 = expanded(ENUM_READ_HEAD@, own);
    lemma_expanded_balanced(ENUM_READ_HEAD@, own);
    let part5 = expanded_groups(CASE_HEAD@, CASE_FIELD@, CASE_END@, groups, n);
    lemma_expanded_groups_balanced(CASE_HEAD@, CASE_FIELD@, CASE_END@, groups, n);
    let part6 = expanded(ENUM_READ_END@, own);
    lemma_expanded_balanced(ENUM_READ_END@, own);
    let part7 = expanded(ENUM_SIZE_HEAD@, own);
    lemma_expanded_balanced(ENUM_SIZE_HEAD@, own);
    let part8 = expanded_groups(IS_VARIANT@, VARIANT_FIELD_SIZE@, IS_VARIANT_END@, groups, n);
    lemma_expanded_groups_balanced(IS_VARIANT@, VARIANT_FIELD_SIZE@, IS_VARIANT_END@, groups, n);
    let part9 = expanded(SIZE_END@, own);
    lemma_expanded_balanced(SIZE_END@, own);
    let part10 = expanded(ENUM_WRITE_HEAD@, own);
    lemma_expanded_balanced(ENUM_WRITE_HEAD@, own);
    let part11 = expanded_groups(WRITE_VARIANT@, VARIANT_FIELD_WRITE@, IS_VARIANT_END@, groups, n);
    lemma_expanded_groups_balanced(WRITE_VARIANT@, VARIANT_FIELD_WRITE@, IS_VARIANT_END@, groups, n);
    let part12 = expanded(WRITE_END@, own);
    lemma_expanded_balanced(WRITE_END@, own);
    let upto0 = part0;
    lemma_balanced_concat(upto0, part1);
    let upto1 = upto0 + part1;
    lemma_balanced_concat(upto1, part2);
    let upto2 = upto1 + part2;
    lemma_balanced_concat(upto2, part3);
    let upto3 = upto2 + part3;
    lemma_balanced_concat(upto3, part4);
    let upto4 = upto3 + part4;
    lemma_balanced_concat(upto4, part5);
    let upto5 = upto4 + part5;
    lemma_balanced_concat(upto5, part6);
    let upto6 = upto5 + part6;
    lemma_balanced_concat(upto6, part7);
    let upto7 = upto6 + part7;
    lemma_balanced_concat(upto7, part8);
    let upto8 = upto7 + part8;
    lemma_balanced_concat(upto8, part9);
    let upto9 = upto8 + part9;
    lemma_balanced_concat(upto9, part10);
    let upto10 = upto9 + part10;
    lemma_balanced_concat(upto10, part11);
    let upto11 = upto10 + part11;
    lemma_balanced_concat(upto11, part12);
    let upto12 = upto11 + part12;
    assert(enum_tokens(e) =~= upto12);
}

/// The tokens of enums are balanced.
pub proof fn lemma_enums_balanced(items: Seq<Enum>, end: int)
    ensures
        balanced(enums_tokens(items, end)),
    decreases end,
{
    if end > 0 {
        lemma_enums_balanced(items, end - 1);
        lemma_enum_balanced(items[end - 1]);
        lemma_balanced_concat(enums_tokens(items, end - 1), enum_tokens(items[end - 1]));
    }
}

} // verus!
