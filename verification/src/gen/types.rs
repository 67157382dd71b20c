//! The types that an interface description refers to, and the converters
//! of the builtin and compound types among them: one for each, however
//! often it is referred to.

use vstd::prelude::*;
use crate::dedup::{declared, first_places, lemma_declared_all, lemma_declared_once};
use crate::gen::compounds::{compound_helper, render_compound};
use crate::gen::oracle::{canonical, canonical_name};
use crate::gen::primitives::{primitive_helper, render_primitive};
use crate::interface::{
    ComponentInterface,
    CustomType,
    Enum,
    Field,
    Function,
    Object,
    Record,
    Type,
    Variant,
};
use crate::template::{balanced, slot_texts};
use crate::tokens::{Token, token_models, TokenModel};
use crate::value::Primitive;

verus! {

/// The types that `refs` point to, in order.
pub open spec fn targets(refs: Seq<&Type>) -> Seq<Type> {
    Seq::new(refs.len(), |i: int| *refs[i])
}

/// The types of the first `end` of `fields`, in order.
pub open spec fn field_refs(fields: Seq<Field>, end: int) -> Seq<Type>
    decreases end,
{
    if end <= 0 {
        Seq::empty()
    } else {
        field_refs(fields, end - 1).push(fields[end - 1].ty)
    }
}

/// The type, if there is one.
pub open spec fn optional_ref(ty: Option<Type>) -> Seq<Type> {
    match ty {
        Some(ty) => seq![ty],
        None => Seq::empty(),
    }
}

/// The types that a function refers to: those of its arguments, of its
/// result and of its errors.
pub open spec fn function_refs(function: Function) -> Seq<Type> {
    field_refs(function.arguments@, function.arguments@.len() as int) + optional_ref(
        function.return_type,
    ) + optional_ref(function.throws)
}

/// The types that the first `end` of `functions` refer to.
pub open spec fn functions_refs(functions: Seq<Function>, end: int) -> Seq<Type>
    decreases end,
{
    if end <= 0 {
        Seq::empty()
    } else {
        functions_refs(functions, end - 1) + function_refs(functions[end - 1])
    }
}

/// The types that the first `end` of `records` refer to.
pub open spec fn records_refs(records: Seq<Record>, end: int) -> Seq<Type>
    decreases end,
{
    if end <= 0 {
        Seq::empty()
    } else {
        records_refs(records, end - 1) + field_refs(
            records[end - 1].fields@,
            records[end - 1].fields@.len() as int,
        )
    }
}

/// The types that the first `end` of `variants` refer to.
pub open spec fn variants_refs(variants: Seq<Variant>, end: int) -> Seq<Type>
    decreases end,
{
    if end <= 0 {
        Seq::empty()
    } else {
        variants_refs(variants, end - 1) + field_refs(
            variants[end - 1].fields@,
            variants[end - 1].fields@.len() as int,
        )
    }
}

/// The types that the first `end` of `enums` refer to.
pub open spec fn enums_refs(enums: Seq<Enum>, end: int) -> Seq<Type>
    decreases end,
{
    if end <= 0 {
        Seq::empty()
    } else {
        enums_refs(enums, end - 1) + variants_refs(
            enums[end - 1].variants@,
            enums[end - 1].variants@.len() as int,
        )
    }
}

/// The types that the first `end` of `objects` refer to.
pub open spec fn objects_refs(objects: Seq<Object>, end: int) -> Seq<Type>
    decreases end,
{
    if end <= 0 {
        Seq::empty()
    } else {
        objects_refs(objects, end - 1) + functions_refs(
            objects[end - 1].constructors@,
            objects[end - 1].constructors@.len() as int,
        ) + functions_refs(objects[end - 1].methods@, objects[end - 1].methods@.len() as int)
    }
}

/// The builtin types of the first `end` of `customs`.
pub open spec fn customs_refs(customs: Seq<CustomType>, end: int) -> Seq<Type>
    decreases end,
{
    if end <= 0 {
        Seq::empty()
    } else {
        customs_refs(customs, end - 1).push(customs[end - 1].builtin)
    }
}

/// Every type reference of the description, in its order: those of the
/// records, the enums, the objects, the callback interfaces, the custom
/// types and the functions.
pub open spec fn references(ci: ComponentInterface) -> Seq<Type> {
    records_refs(ci.records@, ci.records@.len() as int) + enums_refs(
        ci.enums@,
        ci.enums@.len() as int,
    ) + objects_refs(ci.objects@, ci.objects@.len() as int) + objects_refs(
        ci.callback_interfaces@,
        ci.callback_interfaces@.len() as int,
    ) + customs_refs(ci.custom_types@, ci.custom_types@.len() as int) + functions_refs(
        ci.functions@,
        ci.functions@.len() as int,
    )
}

proof fn lemma_targets_push(refs: Seq<&Type>, ty: &Type)
    ensures
        targets(refs.push(ty)) == targets(refs).push(*ty),
{
    assert(targets(refs.push(ty)) =~= targets(refs).push(*ty));
}

/// Appends the types of `fields`.
fn push_field_refs<'a>(fields: &'a Vec<Field>, out: &mut Vec<&'a Type>)
    ensures
        targets(final(out)@) == targets(old(out)@) + field_refs(fields@, fields@.len() as int),
{
    let ghost start = targets(out@);
    let mut i: usize = 0;
    assert(start + field_refs(fields@, 0) =~= start);
    while i < fields.len()
        invariant
            i <= fields.len(),
            targets(out@) == start + field_refs(fields@, i as int),
        decreases fields.len() - i,
    {
        proof {
            lemma_targets_push(out@, &fields@[i as int].ty);
        }
        out.push(&fields[i].ty);
        i = i + 1;
        assert(targets(out@) =~= start + field_refs(fields@, i as int));
    }
}

/// Appends the types that `functions` refer to.
fn push_function_refs<'a>(functions: &'a Vec<Function>, out: &mut Vec<&'a Type>)
    ensures
        targets(final(out)@) == targets(old(out)@) + functions_refs(
            functions@,
            functions@.len() as int,
        ),
{
    let ghost start = targets(out@);
    let mut i: usize = 0;
    assert(start + functions_refs(functions@, 0) =~= start);
    while i < functions.len()
        invariant
            i <= functions.len(),
            targets(out@) == start + functions_refs(functions@, i as int),
        decreases functions.len() - i,
    {
        let ghost before = targets(out@);
        let function = &functions[i];
        push_field_refs(&function.arguments, out);
        let ghost with_arguments = targets(out@);
        if let Some(ty) = &function.return_type {
            proof {
                lemma_targets_push(out@, ty);
            }
            out.push(ty);
        }
        assert(targets(out@) =~= with_arguments + optional_ref(function.return_type));
        let ghost with_result = targets(out@);
        if let Some(ty) = &function.throws {
            proof {
                lemma_targets_push(out@, ty);
            }
            out.push(ty);
        }
        assert(targets(out@) =~= with_result + optional_ref(function.throws));
        i = i + 1;
        assert(targets(out@) =~= start + functions_refs(functions@, i as int));
    }
}

/// Appends the types that `records` refer to.
fn push_record_refs<'a>(records: &'a Vec<Record>, out: &mut Vec<&'a Type>)
    ensures
        targets(final(out)@) == targets(old(out)@) + records_refs(
            records@,
            records@.len() as int,
        ),
{
    let ghost start = targets(out@);
    let mut i: usize = 0;
    assert(start + records_refs(records@, 0) =~= start);
    while i < records.len()
        invariant
            i <= records.len(),
            targets(out@) == start + records_refs(records@, i as int),
        decreases records.len() - i,
    {
        push_field_refs(&records[i].fields, out);
        i = i + 1;
        assert(targets(out@) =~= start + records_refs(records@, i as int));
    }
}

/// Appends the types that `variants` refer to.
fn push_variant_refs<'a>(variants: &'a Vec<Variant>, out: &mut Vec<&'a Type>)
    ensures
        targets(final(out)@) == targets(old(out)@) + variants_refs(
            variants@,
            variants@.len() as int,
        ),
{
    let ghost start = targets(out@);
    let mut i: usize = 0;
    assert(start + variants_refs(variants@, 0) =~= start);
    while i < variants.len()
        invariant
            i <= variants.len(),
            targets(out@) == start + variants_refs(variants@, i as int),
        decreases variants.len() - i,
    {
        push_field_refs(&variants[i].fields, out);
        i = i + 1;
        assert(targets(out@) =~= start + variants_refs(variants@, i as int));
    }
}

/// Appends the types that `enums` refer to.
fn push_enum_refs<'a>(enums: &'a Vec<Enum>, out: &mut Vec<&'a Type>)
    ensures
        targets(final(out)@) == targets(old(out)@) + enums_refs(enums@, enums@.len() as int),
{
    let ghost start = targets(out@);
    let mut i: usize = 0;
    assert(start + enums_refs(enums@, 0) =~= start);
    while i < enums.len()
        invariant
            i <= enums.len(),
            targets(out@) == start + enums_refs(enums@, i as int),
        decreases enums.len() - i,
    {
        push_variant_refs(&enums[i].variants, out);
        i = i + 1;
        assert(targets(out@) =~= start + enums_refs(enums@, i as int));
    }
}

/// Appends the types that `objects` refer to.
fn push_object_refs<'a>(objects: &'a Vec<Object>, out: &mut Vec<&'a Type>)
    ensures
        targets(final(out)@) == targets(old(out)@) + objects_refs(
            objects@,
            objects@.len() as int,
        ),
{
    let ghost start = targets(out@);
    let mut i: usize = 0;
    assert(start + objects_refs(objects@, 0) =~= start);
    while i < objects.len()
        invariant
            i <= objects.len(),
            targets(out@) == start + objects_refs(objects@, i as int),
        decreases objects.len() - i,
    {
        push_function_refs(&objects[i].constructors, out);
        push_function_refs(&objects[i].methods, out);
        i = i + 1;
        assert(targets(out@) =~= start + objects_refs(objects@, i as int));
    }
}

/// Appends the builtin types of `customs`.
fn push_custom_refs<'a>(customs: &'a Vec<CustomType>, out: &mut Vec<&'a Type>)
    ensures
        targets(final(out)@) == targets(old(out)@) + customs_refs(
            customs@,
            customs@.len() as int,
        ),
{
    let ghost start = targets(out@);
    let mut i: usize = 0;
    assert(start + customs_refs(customs@, 0) =~= start);
    while i < customs.len()
        invariant
            i <= customs.len(),
            targets(out@) == start + customs_refs(customs@, i as int),
        decreases customs.len() - i,
    {
        proof {
            lemma_targets_push(out@, &customs@[i as int].builtin);
        }
        out.push(&customs[i].builtin);
        i = i + 1;
        assert(targets(out@) =~= start + customs_refs(customs@, i as int));
    }
}

/// Every type reference of the description, in its order.
pub fn collect_references<'a>(ci: &'a ComponentInterface) -> (refs: Vec<&'a Type>)
    ensures
        targets(refs@) == references(*ci),
{
    let mut refs: Vec<&'a Type> = Vec::new();
    assert(targets(refs@) =~= Seq::<Type>::empty());
    push_record_refs(&ci.records, &mut refs);
    push_enum_refs(&ci.enums, &mut refs);
    push_object_refs(&ci.objects, &mut refs);
    push_object_refs(&ci.callback_interfaces, &mut refs);
    push_custom_refs(&ci.custom_types, &mut refs);
    push_function_refs(&ci.functions, &mut refs);
    assert(targets(refs@) =~= references(*ci));
    refs
}

/// The builtin and compound types that `ty` is made of, each part before
/// what it is part of. A declared type has none: its converter comes with
/// its declaration.
pub open spec fn parts(ty: Type) -> Seq<Type>
    decreases ty,
{
    match ty {
        Type::Primitive(_) => seq![ty],
        Type::Optional(inner) => parts(*inner).push(ty),
        Type::Sequence(element) => parts(*element).push(ty),
        Type::Mapping(key, value) => (parts(*key) + parts(*value)).push(ty),
        _ => Seq::empty(),
    }
}

/// The parts of the first `end` of `types`, in order.
pub open spec fn all_parts(types: Seq<Type>, end: int) -> Seq<Type>
    decreases end,
{
    if end <= 0 {
        Seq::empty()
    } else {
        all_parts(types, end - 1) + parts(types[end - 1])
    }
}

/// Appends the parts of `ty`.
fn push_parts<'a>(ty: &'a Type, out: &mut Vec<&'a Type>)
    ensures
        targets(final(out)@) == targets(old(out)@) + parts(*ty),
    decreases ty,
{
    let ghost start = targets(out@);
    match ty {
        Type::Primitive(_) => {},
        Type::Optional(inner) => {
            push_parts(inner, out);
        },
        Type::Sequence(element) => {
            push_parts(element, out);
        },
        Type::Mapping(key, value) => {
            push_parts(key, out);
            push_parts(value, out);
        },
        _ => {
            assert(start + parts(*ty) =~= start);
            return ;
        },
    }
    proof {
        lemma_targets_push(out@, ty);
    }
    out.push(ty);
    assert(targets(out@) =~= start + parts(*ty));
}

/// The builtin and compound types that the module needs converters for:
/// text, which every module needs for the messages of panics, and the
/// parts of every type that the description refers to.
pub open spec fn needed(ci: ComponentInterface) -> Seq<Type> {
    seq![Type::Primitive(Primitive::String)] + all_parts(
        references(ci),
        references(ci).len() as int,
    )
}

/// The names of `types` in the names of converters.
pub open spec fn canonicals(types: Seq<Type>) -> Seq<Seq<char>> {
    Seq::new(types.len(), |i: int| canonical(types[i]))
}

/// The tokens of the converter of a builtin or compound type.
pub open spec fn builtin_helper(ty: Type) -> Seq<TokenModel> {
    match ty {
        Type::Primitive(p) => primitive_helper(p),
        _ => compound_helper(ty),
    }
}

/// The tokens of the converters of the types at `places`, in order.
pub open spec fn helpers_at(types: Seq<Type>, places: Seq<int>) -> Seq<TokenModel>
    decreases places.len(),
{
    if places.len() == 0 {
        Seq::empty()
    } else {
        helpers_at(types, places.drop_last()) + builtin_helper(types[places.last()])
    }
}

/// The tokens of the converters of the builtin and compound types of the
/// module: one for each name of a converter, in the order in which the
/// types are first needed.
pub open spec fn builtin_helpers(ci: ComponentInterface) -> Seq<TokenModel> {
    helpers_at(needed(ci), declared(canonicals(needed(ci))))
}

/// Every type that is needed has exactly one converter: no two converters
/// have the same name, and for each needed type there is one of its name.
pub proof fn lemma_one_converter_each(ci: ComponentInterface)
    ensures
        forall|a: int, b: int|
            0 <= a < b < declared(canonicals(needed(ci))).len() ==> canonical(
                needed(ci)[declared(canonicals(needed(ci)))[a]],
            ) != canonical(needed(ci)[declared(canonicals(needed(ci)))[b]]),
        forall|i: int|
            0 <= i < needed(ci).len() ==> exists|k: int|
                0 <= k < declared(canonicals(needed(ci))).len() && canonical(
                    needed(ci)[#[trigger] declared(canonicals(needed(ci)))[k]],
                ) == canonical(#[trigger] needed(ci)[i]),
{
    let names = canonicals(needed(ci));
    let places = declared(names);
    lemma_declared_once(names);
    crate::dedup::lemma_firsts(names, names.len() as int);
    assert forall|a: int, b: int| 0 <= a < b < places.len() implies canonical(
        needed(ci)[places[a]],
    ) != canonical(needed(ci)[places[b]]) by {
        assert(names[places[a]] != names[places[b]]);
    }
    assert forall|i: int| 0 <= i < needed(ci).len() implies exists|k: int|
        0 <= k < places.len() && canonical(needed(ci)[#[trigger] places[k]]) == canonical(
            #[trigger] needed(ci)[i],
        ) by {
        lemma_declared_all(names, i);
        let k = choose|k: int|
            0 <= k < places.len() && names[#[trigger] places[k]] == names[i] && places[k] <= i;
        assert(canonical(needed(ci)[places[k]]) == names[places[k]]);
    }
}

/// Appends the converter of a builtin or compound type.
fn render_builtin(ty: &Type, out: &mut Vec<Token>)
    ensures
        token_models(final(out)@) == token_models(old(out)@) + builtin_helper(*ty),
{
    match ty {
        Type::Primitive(p) => render_primitive(*p, out),
        _ => render_compound(ty, out),
    }
}

/// Appends the converters of the builtin and compound types of the module.
pub fn render_builtin_helpers(ci: &ComponentInterface, out: &mut Vec<Token>)
    ensures
        token_models(final(out)@) == token_models(old(out)@) + builtin_helpers(*ci),
{
    let ghost start = token_models(out@);
    let text = Type::Primitive(Primitive::String);
    let refs = collect_references(ci);
    let mut types: Vec<&Type> = Vec::new();
    proof {
        lemma_targets_push(types@, &text);
    }
    types.push(&text);
    let ghost first = targets(types@);
    assert(first =~= seq![Type::Primitive(Primitive::String)]);
    let mut i: usize = 0;
    assert(first + all_parts(references(*ci), 0) =~= first);
    while i < refs.len()
        invariant
            i <= refs.len(),
            targets(refs@) == references(*ci),
            targets(types@) == first + all_parts(references(*ci), i as int),
        decreases refs.len() - i,
    {
        push_parts(refs[i], &mut types);
        i = i + 1;
        assert(targets(types@) =~= first + all_parts(references(*ci), i as int));
    }
    assert(targets(types@) == needed(*ci));
    let mut names: Vec<String> = Vec::new();
    let mut k: usize = 0;
    while k < types.len()
        invariant
            k <= types.len(),
            names@.len() == k,
            forall|m: int| 0 <= m < k ==> (#[trigger] names@[m])@ == canonical(*types@[m]),
        decreases types.len() - k,
    {
        names.push(canonical_name(types[k]));
        k = k + 1;
    }
    assert(slot_texts(names@) =~= canonicals(targets(types@)));
    let places = first_places(&names);
    let ghost all = declared(canonicals(needed(*ci)));
    let mut p: usize = 0;
    assert(all.take(0) =~= Seq::<int>::empty());
    assert(start + helpers_at(needed(*ci), all.take(0)) =~= start);
    while p < places.len()
        invariant
            p <= places@.len() == all.len(),
            all == declared(canonicals(needed(*ci))),
            targets(types@) == needed(*ci),
            forall|m: int| 0 <= m < places@.len() ==> (#[trigger] places@[m]) as int == all[m],
            forall|m: int| 0 <= m < places@.len() ==> (#[trigger] places@[m]) < types@.len(),
            token_models(out@) == start + helpers_at(needed(*ci), all.take(p as int)),
        decreases places.len() - p,
    {
        render_builtin(types[places[p]], out);
        proof {
            assert(all.take(p + 1).drop_last() =~= all.take(p as int));
            assert(all.take(p + 1).last() == places@[p as int] as int);
            assert(*types@[places@[p as int] as int] == needed(*ci)[places@[p as int] as int]);
            assert(token_models(out@) =~= start + helpers_at(needed(*ci), all.take(p + 1)));
        }
        p = p + 1;
    }
    assert(all.take(places@.len() as int) =~= all);
}

/// The tokens of the converters of builtin and compound types are balanced.
pub proof fn lemma_helpers_at_balanced(types: Seq<Type>, places: Seq<int>)
    ensures
        balanced(helpers_at(types, places)),
    decreases places.len(),
{
    if places.len() > 0 {
        lemma_helpers_at_balanced(types, places.drop_last());
        let ty = types[places.last()];
        match ty {
            Type::Primitive(p) => crate::gen::primitives::lemma_primitive_balanced(p),
            _ => crate::gen::compounds::lemma_compound_balanced(ty),
        }
        crate::template::lemma_balanced_concat(
            helpers_at(types, places.drop_last()),
            builtin_helper(ty),
        );
    }
}

} // verus!
