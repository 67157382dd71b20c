//! The descriptors of custom types: the converter of the builtin type, with
//! the declared conversions round it.

use vstd::prelude::*;
use crate::gen::oracle::{converter, converter_name};
use crate::gen::records::{declared_slots, slots_of_declared};
use crate::interface::CustomType;
use crate::template::{
    balanced,
    expand,
    expanded,
    lemma_balanced_concat,
    lemma_expanded_balanced,
    slot_texts,
    TemplateLine,
};
use crate::tokens::{Token, token_models, TokenModel};

verus! {

/// The converter of a custom type: `$2` is the converter of its builtin
/// type, `$3` the conversion after lifting and `$4` the one before lowering.
pub const CUSTOM_CONVERTER: [TemplateLine; 15] = [
    (0, "class $0 {"),
    (1, "static $1 lift(dynamic value) => $3($2.lift(value));"),
    (1, "static dynamic lower($1 value) => $2.lower($4(value));"),
    (1, ""),
    (1, "static LiftRetVal<$1> read(Uint8List buf) {"),
    (2, "final inner = $2.read(buf);"),
    (2, "return LiftRetVal($3(inner.value), inner.bytesRead);"),
    (1, "}"),
    (1, ""),
    (1, "static int allocationSize($1 value) => $2.allocationSize($4(value));"),
    (1, ""),
    (1, "static int write($1 value, Uint8List buf) => $2.write($4(value), buf);"),
    (0, "}"),
    (0, ""),
    (0, ""),
];

/// The texts of a custom type: the name of its converter, its own name,
/// the converter of its builtin type, and its two conversions.
pub open spec fn custom_slots(custom: CustomType) -> Seq<Seq<char>> {
    declared_slots(custom.name@).push(converter(custom.builtin)).push(custom.lift_fn@).push(
        custom.lower_fn@,
    )
}

/// The tokens of the converter of a custom type.
#[verifier::opaque]
pub open spec fn custom_tokens(custom: CustomType) -> Seq<TokenModel> {
    expanded(CUSTOM_CONVERTER@, custom_slots(custom))
}

/// Appends the converter of a custom type.
pub fn render_custom(custom: &CustomType, out: &mut Vec<Token>)
    ensures
        token_models(final(out)@) == token_models(old(out)@) + custom_tokens(*custom),
{
    proof {
        reveal(custom_tokens);
    }
    let mut slots = slots_of_declared(custom.name.as_str());
    let ghost own = slot_texts(slots@);
    slots.push(converter_name(&custom.builtin));
    slots.push(custom.lift_fn.clone());
    slots.push(custom.lower_fn.clone());
    assert(slot_texts(slots@) =~= own.push(converter(custom.builtin)).push(custom.lift_fn@).push(
        custom.lower_fn@,
    ));
    expand(&CUSTOM_CONVERTER, &slots, out);
}

/// The tokens of the first `end` of `customs`, in the order of the description.
pub open spec fn customs_tokens(customs: Seq<CustomType>, end: int) -> Seq<TokenModel>
    decreases end,
{
    if end <= 0 {
        Seq::empty()
    } else {
        customs_tokens(customs, end - 1) + custom_tokens(customs[end - 1])
    }
}

/// Appends the converters of `customs`, in the order of the description.
pub fn render_customs(customs: &Vec<CustomType>, out: &mut Vec<Token>)
    ensures
        token_models(final(out)@) == token_models(old(out)@) + customs_tokens(
            customs@,
            customs@.len() as int,
        ),
{
    let ghost start = token_models(out@);
    let mut i: usize = 0;
    assert(start + customs_tokens(customs@, 0) =~= start);
    while i < customs.len()
        invariant
            i <= customs.len(),
            token_models(out@) == start + customs_tokens(customs@, i as int),
        decreases customs.len() - i,
    {
        render_custom(&customs[i], out);
        i = i + 1;
        assert(token_models(out@) =~= start + customs_tokens(customs@, i as int));
    }
}

/// The tokens of a custom type are balanced.
pub proof fn lemma_custom_balanced(custom: CustomType)
    ensures
        balanced(custom_tokens(custom)),
{
    reveal(custom_tokens);
    lemma_expanded_balanced(CUSTOM_CONVERTER@, custom_slots(custom));
}

/// The tokens of custom types are balanced.
pub proof fn lemma_customs_balanced(items: Seq<CustomType>, end: int)
    ensures
        balanced(customs_tokens(items, end)),
    decreases end,
{
    if end > 0 {
        lemma_customs_balanced(items, end - 1);
        lemma_custom_balanced(items[end - 1]);
        lemma_balanced_concat(customs_tokens(items, end - 1), custom_tokens(items[end - 1]));
    }
}

} // verus!
