//! The type descriptor registry: every type reference of an interface
//! description is resolved, through the declarations that it names, to the
//! layout of its values.

use vstd::prelude::*;
use crate::interface::{
    ComponentInterface,
    CustomType,
    Enum,
    FfiType,
    Field,
    Object,
    Record,
    Type,
    Variant,
};
use crate::value::{Layout, Primitive};

verus! {

/// Why a type reference has no layout.
#[derive(Clone, Copy, Debug, PartialEq, Eq, Structural)]
pub enum ResolveError {
    /// It names a type that the description does not declare.
    Undeclared,
    /// A declaration contains itself.
    Cyclic,
    /// It names a type of another package: its layout is that package's.
    External,
}

/// The model of a layout.
pub enum LayoutModel {
    Primitive(Primitive),
    Handle,
    Optional(Box<LayoutModel>),
    Sequence(Box<LayoutModel>),
    Mapping(Box<LayoutModel>, Box<LayoutModel>),
    Record(Seq<LayoutModel>),
    Enum(Seq<Seq<LayoutModel>>),
}

/// The model of each layout of `layouts`, in order.
pub open spec fn layout_models(layouts: Seq<Layout>) -> Seq<LayoutModel>
    decreases layouts,
{
    Seq::new(
        layouts.len(),
        |i: int|
            if 0 <= i < layouts.len() {
                layout_model(layouts[i])
            } else {
                LayoutModel::Handle
            },
    )
}

/// The models of the field layouts of each variant, in order.
pub open spec fn variant_models(variants: Seq<Vec<Layout>>) -> Seq<Seq<LayoutModel>>
    decreases variants,
{
    Seq::new(
        variants.len(),
        |i: int|
            if 0 <= i < variants.len() {
                layout_models(variants[i]@)
            } else {
                Seq::empty()
            },
    )
}

/// The model of a layout.
pub open spec fn layout_model(layout: Layout) -> LayoutModel
    decreases layout,
{
    match layout {
        Layout::Primitive(p) => LayoutModel::Primitive(p),
        Layout::Handle => LayoutModel::Handle,
        Layout::Optional(inner) => LayoutModel::Optional(Box::new(layout_model(*inner))),
        Layout::Sequence(element) => LayoutModel::Sequence(Box::new(layout_model(*element))),
        Layout::Mapping(key, value) => LayoutModel::Mapping(
            Box::new(layout_model(*key)),
            Box::new(layout_model(*value)),
        ),
        Layout::Record(fields) => LayoutModel::Record(layout_models(fields@)),
        Layout::Enum(variants) => LayoutModel::Enum(variant_models(variants@)),
    }
}

/// The place of the first record of `records` with the name `name`.
pub open spec fn record_place(records: Seq<Record>, name: Seq<char>) -> Option<int> {
    if exists|i: int| 0 <= i < records.len() && (#[trigger] records[i]).name@ == name {
        Some(
            choose|i: int|
                0 <= i < records.len() && (#[trigger] records[i]).name@ == name && forall|j: int|
                    0 <= j < i ==> (#[trigger] records[j]).name@ != name,
        )
    } else {
        None
    }
}

/// The place of the first enum of `enums` with the name `name`.
pub open spec fn enum_place(enums: Seq<Enum>, name: Seq<char>) -> Option<int> {
    if exists|i: int| 0 <= i < enums.len() && (#[trigger] enums[i]).name@ == name {
        Some(
            choose|i: int|
                0 <= i < enums.len() && (#[trigger] enums[i]).name@ == name && forall|j: int|
                    0 <= j < i ==> (#[trigger] enums[j]).name@ != name,
        )
    } else {
        None
    }
}

/// The place of the first custom type of `customs` with the name `name`.
pub open spec fn custom_place(customs: Seq<CustomType>, name: Seq<char>) -> Option<int> {
    if exists|i: int| 0 <= i < customs.len() && (#[trigger] customs[i]).name@ == name {
        Some(
            choose|i: int|
                0 <= i < customs.len() && (#[trigger] customs[i]).name@ == name && forall|j: int|
                    0 <= j < i ==> (#[trigger] customs[j]).name@ != name,
        )
    } else {
        None
    }
}

/// Whether one of `objects` has the name `name`.
pub open spec fn object_declared(objects: Seq<Object>, name: Seq<char>) -> bool {
    exists|i: int| 0 <= i < objects.len() && (#[trigger] objects[i]).name@ == name
}

/// The number of declarations that a type reference can pass through
/// without meeting one of them twice, as far as a machine word counts.
pub open spec fn declarations(ci: ComponentInterface) -> nat {
    let count = ci.records@.len() + ci.enums@.len() + ci.custom_types@.len();
    if count <= usize::MAX {
        count
    } else {
        usize::MAX as nat
    }
}

/// The size of a type reference: the number of its parts.
pub open spec fn type_size(ty: Type) -> nat
    decreases ty,
{
    match ty {
        Type::Optional(inner) => 1 + type_size(*inner),
        Type::Sequence(element) => 1 + type_size(*element),
        Type::Mapping(key, value) => 1 + type_size(*key) + type_size(*value),
        _ => 1,
    }
}

/// The size of the types of `fields`, and one for each field.
pub open spec fn fields_size(fields: Seq<Field>) -> nat
    decreases fields.len(),
{
    if fields.len() == 0 {
        0
    } else {
        fields_size(fields.drop_last()) + 1 + type_size(fields.last().ty)
    }
}

/// The size of the fields of `variants`, and one for each variant.
pub open spec fn variants_size(variants: Seq<Variant>) -> nat
    decreases variants.len(),
{
    if variants.len() == 0 {
        0
    } else {
        variants_size(variants.drop_last()) + 1 + fields_size(variants.last().fields@)
    }
}

/// The type of each field is smaller than the fields together.
proof fn lemma_field_smaller(fields: Seq<Field>, i: int)
    requires
        0 <= i < fields.len(),
    ensures
        type_size(fields[i].ty) < fields_size(fields),
    decreases fields.len(),
{
    if i < fields.len() - 1 {
        lemma_field_smaller(fields.drop_last(), i);
    }
}

/// The fields of each variant are smaller than the variants together.
proof fn lemma_variant_smaller(variants: Seq<Variant>, i: int)
    requires
        0 <= i < variants.len(),
    ensures
        fields_size(variants[i].fields@) < variants_size(variants),
    decreases variants.len(),
{
    if i < variants.len() - 1 {
        lemma_variant_smaller(variants.drop_last(), i);
    }
}

/// The layouts of the types of `fields`, in order: the first failure, if
/// one of them has none.
pub open spec fn resolved_fields(ci: ComponentInterface, fields: Seq<Field>, budget: nat) -> Result<
    Seq<LayoutModel>,
    ResolveError,
>
    decreases budget, fields_size(fields),
{
    if fields.len() == 0 {
        Ok(Seq::empty())
    } else {
        match resolved_fields(ci, fields.drop_last(), budget) {
            Err(e) => Err(e),
            Ok(layouts) => match resolved(ci, fields.last().ty, budget) {
                Err(e) => Err(e),
                Ok(layout) => Ok(layouts.push(layout)),
            },
        }
    }
}

/// The field layouts of each of `variants`, in order: the first failure, if
/// a field has none.
pub open spec fn resolved_variants(
    ci: ComponentInterface,
    variants: Seq<Variant>,
    budget: nat,
) -> Result<Seq<Seq<LayoutModel>>, ResolveError>
    decreases budget, variants_size(variants),
{
    if variants.len() == 0 {
        Ok(Seq::empty())
    } else {
        match resolved_variants(ci, variants.drop_last(), budget) {
            Err(e) => Err(e),
            Ok(layouts) => match resolved_fields(ci, variants.last().fields@, budget) {
                Err(e) => Err(e),
                Ok(fields) => Ok(layouts.push(fields)),
            },
        }
    }
}

/// The layout of the values of `ty`, passing through at most `budget`
/// declarations one inside the other.
///
/// A builtin type has its own layout and a compound type that of its parts.
/// A record has the layouts of its fields in declaration order, an enum
/// those of the fields of its variants, a custom type that of its builtin
/// type. An object or callback interface is a handle.
pub open spec fn resolved(ci: ComponentInterface, ty: Type, budget: nat) -> Result<
    LayoutModel,
    ResolveError,
>
    decreases budget, type_size(ty),
{
    match ty {
        Type::Primitive(p) => Ok(LayoutModel::Primitive(p)),
        Type::Optional(inner) => match resolved(ci, *inner, budget) {
            Err(e) => Err(e),
            Ok(layout) => Ok(LayoutModel::Optional(Box::new(layout))),
        },
        Type::Sequence(element) => match resolved(ci, *element, budget) {
            Err(e) => Err(e),
            Ok(layout) => Ok(LayoutModel::Sequence(Box::new(layout))),
        },
        Type::Mapping(key, value) => match resolved(ci, *key, budget) {
            Err(e) => Err(e),
            Ok(k) => match resolved(ci, *value, budget) {
                Err(e) => Err(e),
                Ok(v) => Ok(LayoutModel::Mapping(Box::new(k), Box::new(v))),
            },
        },
        Type::Record(name) => match record_place(ci.records@, name@) {
            None => Err(ResolveError::Undeclared),
            Some(i) => if budget == 0 {
                Err(ResolveError::Cyclic)
            } else {
                match resolved_fields(ci, ci.records@[i].fields@, (budget - 1) as nat) {
                    Err(e) => Err(e),
                    Ok(fields) => Ok(LayoutModel::Record(fields)),
                }
            },
        },
        Type::Enum(name) => match enum_place(ci.enums@, name@) {
            None => Err(ResolveError::Undeclared),
            Some(i) => if budget == 0 {
                Err(ResolveError::Cyclic)
            } else {
                match resolved_variants(ci, ci.enums@[i].variants@, (budget - 1) as nat) {
                    Err(e) => Err(e),
                    Ok(variants) => Ok(LayoutModel::Enum(variants)),
                }
            },
        },
        Type::Object(name) => if object_declared(ci.objects@, name@) {
            Ok(LayoutModel::Handle)
        } else {
            Err(ResolveError::Undeclared)
        },
        Type::CallbackInterface(name) => if object_declared(ci.callback_interfaces@, name@) {
            Ok(LayoutModel::Handle)
        } else {
            Err(ResolveError::Undeclared)
        },
        Type::Custom(name) => match custom_place(ci.custom_types@, name@) {
            None => Err(ResolveError::Undeclared),
            Some(i) => if budget == 0 {
                Err(ResolveError::Cyclic)
            } else {
                resolved(ci, ci.custom_types@[i].builtin, (budget - 1) as nat)
            },
        },
        Type::External(_, _) => Err(ResolveError::External),
    }
}

/// The layout of the values of `ty` in the description `ci`.
pub open spec fn layout_of(ci: ComponentInterface, ty: Type) -> Result<LayoutModel, ResolveError> {
    resolved(ci, ty, declarations(ci))
}

/// What the result of resolving one type stands for.
pub open spec fn resolve_model(r: Result<Layout, ResolveError>) -> Result<
    LayoutModel,
    ResolveError,
> {
    match r {
        Ok(layout) => Ok(layout_model(layout)),
        Err(e) => Err(e),
    }
}

/// What the result of resolving the fields of a declaration stands for.
pub open spec fn resolve_fields_model(r: Result<Vec<Layout>, ResolveError>) -> Result<
    Seq<LayoutModel>,
    ResolveError,
> {
    match r {
        Ok(layouts) => Ok(layout_models(layouts@)),
        Err(e) => Err(e),
    }
}

proof fn lemma_layout_models_push(layouts: Seq<Layout>, layout: Layout)
    ensures
        layout_models(layouts.push(layout)) == layout_models(layouts).push(layout_model(layout)),
        layout_models(Seq::<Layout>::empty()) == Seq::<LayoutModel>::empty(),
{
    assert(layout_models(layouts.push(layout)) =~= layout_models(layouts).push(
        layout_model(layout),
    ));
    assert(layout_models(Seq::<Layout>::empty()) =~= Seq::<LayoutModel>::empty());
}

proof fn lemma_variant_models_push(variants: Seq<Vec<Layout>>, fields: Vec<Layout>)
    ensures
        variant_models(variants.push(fields)) == variant_models(variants).push(
            layout_models(fields@),
        ),
        variant_models(Seq::<Vec<Layout>>::empty()) == Seq::<Seq<LayoutModel>>::empty(),
{
    assert(variant_models(variants.push(fields)) =~= variant_models(variants).push(
        layout_models(fields@),
    ));
    assert(variant_models(Seq::<Vec<Layout>>::empty()) =~= Seq::<Seq<LayoutModel>>::empty());
}

/// The place of the first record with the name `name`.
fn find_record(records: &Vec<Record>, name: &String) -> (r: Option<usize>)
    ensures
        match r {
            Some(i) => record_place(records@, name@) == Some(i as int) && i < records@.len(),
            None => record_place(records@, name@) is None,
        },
{
    let mut i: usize = 0;
    while i < records.len()
        invariant
            i <= records.len(),
            forall|j: int| 0 <= j < i ==> (#[trigger] records@[j]).name@ != name@,
        decreases records.len() - i,
    {
        if records[i].name == *name {
            proof {
                let found = i as int;
                let chosen = record_place(records@, name@)->Some_0;
                assert(records@[found].name@ == name@);
                if chosen < found {
                    assert(records@[chosen].name@ != name@);
                } else if chosen > found {
                    assert(records@[found].name@ != name@);
                }
            }
            return Some(i);
        }
        i = i + 1;
    }
    None
}

/// The place of the first enum with the name `name`.
fn find_enum(enums: &Vec<Enum>, name: &String) -> (r: Option<usize>)
    ensures
        match r {
            Some(i) => enum_place(enums@, name@) == Some(i as int) && i < enums@.len(),
            None => enum_place(enums@, name@) is None,
        },
{
    let mut i: usize = 0;
    while i < enums.len()
        invariant
            i <= enums.len(),
            forall|j: int| 0 <= j < i ==> (#[trigger] enums@[j]).name@ != name@,
        decreases enums.len() - i,
    {
        if enums[i].name == *name {
            proof {
                let found = i as int;
                let chosen = enum_place(enums@, name@)->Some_0;
                assert(enums@[found].name@ == name@);
                if chosen < found {
                    assert(enums@[chosen].name@ != name@);
                } else if chosen > found {
                    assert(enums@[found].name@ != name@);
                }
            }
            return Some(i);
        }
        i = i + 1;
    }
    None
}

/// The place of the first custom type with the name `name`.
fn find_custom(customs: &Vec<CustomType>, name: &String) -> (r: Option<usize>)
    ensures
        match r {
            Some(i) => custom_place(customs@, name@) == Some(i as int) && i < customs@.len(),
            None => custom_place(customs@, name@) is None,
        },
{
    let mut i: usize = 0;
    while i < customs.len()
        invariant
            i <= customs.len(),
            forall|j: int| 0 <= j < i ==> (#[trigger] customs@[j]).name@ != name@,
        decreases customs.len() - i,
    {
        if customs[i].name == *name {
            proof {
                let found = i as int;
                let chosen = custom_place(customs@, name@)->Some_0;
                assert(customs@[found].name@ == name@);
                if chosen < found {
                    assert(customs@[chosen].name@ != name@);
                } else if chosen > found {
                    assert(customs@[found].name@ != name@);
                }
            }
            return Some(i);
        }
        i = i + 1;
    }
    None
}

/// Whether one of `objects` has the name `name`.
fn has_object(objects: &Vec<Object>, name: &String) -> (r: bool)
    ensures
        r == object_declared(objects@, name@),
{
    let mut i: usize = 0;
    while i < objects.len()
        invariant
            i <= objects.len(),
            forall|j: int| 0 <= j < i ==> (#[trigger] objects@[j]).name@ != name@,
        decreases objects.len() - i,
    {
        if objects[i].name == *name {
            assert(objects@[i as int].name@ == name@);
            return true;
        }
        i = i + 1;
    }
    false
}

/// The layouts of the types of `fields`, in order.
fn resolve_fields(ci: &ComponentInterface, fields: &Vec<Field>, budget: usize) -> (r: Result<
    Vec<Layout>,
    ResolveError,
>)
    ensures
        resolve_fields_model(r) == resolved_fields(*ci, fields@, budget as nat),
    decreases budget, fields_size(fields@),
{
    let mut layouts: Vec<Layout> = Vec::new();
    let mut i: usize = 0;
    proof {
        lemma_layout_models_push(Seq::empty(), Layout::Handle);
        assert(fields@.take(0) =~= Seq::<Field>::empty());
    }
    while i < fields.len()
        invariant
            i <= fields.len(),
            resolved_fields(*ci, fields@.take(i as int), budget as nat) == Ok::<
                Seq<LayoutModel>,
                ResolveError,
            >(layout_models(layouts@)),
        decreases fields.len() - i,
    {
        proof {
            assert(fields@.take(i + 1).drop_last() =~= fields@.take(i as int));
            assert(fields@.take(i + 1).last() == fields@[i as int]);
            lemma_field_smaller(fields@, i as int);
        }
        match resolve_in(ci, &fields[i].ty, budget) {
            Err(e) => {
                proof {
                    lemma_fields_failure(*ci, fields@, i + 1, budget as nat);
                }
                return Err(e);
            },
            Ok(layout) => {
                proof {
                    lemma_layout_models_push(layouts@, layout);
                }
                layouts.push(layout);
            },
        }
        i = i + 1;
    }
    assert(fields@.take(fields.len() as int) =~= fields@);
    Ok(layouts)
}

/// A failure among the first fields is the failure of all of them.
proof fn lemma_fields_failure(ci: ComponentInterface, fields: Seq<Field>, end: int, budget: nat)
    requires
        0 <= end <= fields.len(),
        resolved_fields(ci, fields.take(end), budget) is Err,
    ensures
        resolved_fields(ci, fields, budget) == resolved_fields(ci, fields.take(end), budget),
    decreases fields.len() - end,
{
    if end < fields.len() {
        assert(fields.take(end + 1).drop_last() =~= fields.take(end));
        lemma_fields_failure(ci, fields, end + 1, budget);
    } else {
        assert(fields.take(end) =~= fields);
    }
}

/// A failure among the first variants is the failure of all of them.
proof fn lemma_variants_failure(
    ci: ComponentInterface,
    variants: Seq<Variant>,
    end: int,
    budget: nat,
)
    requires
        0 <= end <= variants.len(),
        resolved_variants(ci, variants.take(end), budget) is Err,
    ensures
        resolved_variants(ci, variants, budget) == resolved_variants(
            ci,
            variants.take(end),
            budget,
        ),
    decreases variants.len() - end,
{
    if end < variants.len() {
        assert(variants.take(end + 1).drop_last() =~= variants.take(end));
        lemma_variants_failure(ci, variants, end + 1, budget);
    } else {
        assert(variants.take(end) =~= variants);
    }
}

/// The field layouts of each of `variants`, in order.
fn resolve_variants(ci: &ComponentInterface, variants: &Vec<Variant>, budget: usize) -> (r: Result<
    Vec<Vec<Layout>>,
    ResolveError,
>)
    ensures
        match r {
            Ok(layouts) => resolved_variants(*ci, variants@, budget as nat) == Ok::<
                Seq<Seq<LayoutModel>>,
                ResolveError,
            >(variant_models(layouts@)),
            Err(e) => resolved_variants(*ci, variants@, budget as nat) == Err::<
                Seq<Seq<LayoutModel>>,
                ResolveError,
            >(e),
        },
    decreases budget, variants_size(variants@),
{
    let mut layouts: Vec<Vec<Layout>> = Vec::new();
    let mut i: usize = 0;
    proof {
        assert(variant_models(Seq::<Vec<Layout>>::empty()) =~= Seq::<Seq<LayoutModel>>::empty());
        assert(variants@.take(0) =~= Seq::<Variant>::empty());
    }
    while i < variants.len()
        invariant
            i <= variants.len(),
            resolved_variants(*ci, variants@.take(i as int), budget as nat) == Ok::<
                Seq<Seq<LayoutModel>>,
                ResolveError,
            >(variant_models(layouts@)),
        decreases variants.len() - i,
    {
        proof {
            assert(variants@.take(i + 1).drop_last() =~= variants@.take(i as int));
            assert(variants@.take(i + 1).last() == variants@[i as int]);
            lemma_variant_smaller(variants@, i as int);
        }
        match resolve_fields(ci, &variants[i].fields, budget) {
            Err(e) => {
                proof {
                    lemma_variants_failure(*ci, variants@, i + 1, budget as nat);
                }
                return Err(e);
            },
            Ok(fields) => {
                proof {
                    lemma_variant_models_push(layouts@, fields);
                }
                layouts.push(fields);
            },
        }
        i = i + 1;
    }
    assert(variants@.take(variants.len() as int) =~= variants@);
    Ok(layouts)
}

/// The layout of the values of `ty`, passing through at most `budget`
/// declarations one inside the other.
fn resolve_in(ci: &ComponentInterface, ty: &Type, budget: usize) -> (r: Result<
    Layout,
    ResolveError,
>)
    ensures
        resolve_model(r) == resolved(*ci, *ty, budget as nat),
    decreases budget, type_size(*ty),
{
    match ty {
        Type::Primitive(p) => Ok(Layout::Primitive(*p)),
        Type::Optional(inner) => match resolve_in(ci, inner, budget) {
            Err(e) => Err(e),
            Ok(layout) => Ok(Layout::Optional(Box::new(layout))),
        },
        Type::Sequence(element) => match resolve_in(ci, element, budget) {
            Err(e) => Err(e),
            Ok(layout) => Ok(Layout::Sequence(Box::new(layout))),
        },
        Type::Mapping(key, value) => match resolve_in(ci, key, budget) {
            Err(e) => Err(e),
            Ok(k) => match resolve_in(ci, value, budget) {
                Err(e) => Err(e),
                Ok(v) => Ok(Layout::Mapping(Box::new(k), Box::new(v))),
            },
        },
        Type::Record(name) => match find_record(&ci.records, name) {
            None => Err(ResolveError::Undeclared),
            Some(i) => if budget == 0 {
                Err(ResolveError::Cyclic)
            } else {
                match resolve_fields(ci, &ci.records[i].fields, budget - 1) {
                    Err(e) => Err(e),
                    Ok(fields) => Ok(Layout::Record(fields)),
                }
            },
        },
        Type::Enum(name) => match find_enum(&ci.enums, name) {
            None => Err(ResolveError::Undeclared),
            Some(i) => if budget == 0 {
                Err(ResolveError::Cyclic)
            } else {
                match resolve_variants(ci, &ci.enums[i].variants, budget - 1) {
                    Err(e) => Err(e),
                    Ok(variants) => Ok(Layout::Enum(variants)),
                }
            },
        },
        Type::Object(name) => if has_object(&ci.objects, name) {
            Ok(Layout::Handle)
        } else {
            Err(ResolveError::Undeclared)
        },
        Type::CallbackInterface(name) => if has_object(&ci.callback_interfaces, name) {
            Ok(Layout::Handle)
        } else {
            Err(ResolveError::Undeclared)
        },
        Type::Custom(name) => match find_custom(&ci.custom_types, name) {
            None => Err(ResolveError::Undeclared),
            Some(i) => if budget == 0 {
                Err(ResolveError::Cyclic)
            } else {
                resolve_in(ci, &ci.custom_types[i].builtin, budget - 1)
            },
        },
        Type::External(_, _) => Err(ResolveError::External),
    }
}

/// The number of declarations that a type reference can pass through.
fn budget_of(ci: &ComponentInterface) -> (budget: usize)
    ensures
        budget == declarations(*ci),
{
    let a = ci.records.len();
    let b = ci.enums.len();
    let c = ci.custom_types.len();
    if a > usize::MAX - b {
        usize::MAX
    } else if a + b > usize::MAX - c {
        usize::MAX
    } else {
        a + b + c
    }
}

/// Resolves the type reference `ty` of the description `ci` to the layout
/// of its values.
///
/// A reference to a type that is not declared, one that leads into a
/// declaration that contains itself, and one to a type of another package
/// have no layout.
pub fn resolve(ci: &ComponentInterface, ty: &Type) -> (r: Result<Layout, ResolveError>)
    ensures
        resolve_model(r) == layout_of(*ci, *ty),
{
    resolve_in(ci, ty, budget_of(ci))
}

/// The native representation that values of layout `layout` are passed in:
/// a number as it is, a boolean as a byte, an object as a handle, and
/// anything else in a buffer.
pub open spec fn passed_as(layout: Layout) -> FfiType {
    match layout {
        Layout::Primitive(Primitive::Bool) | Layout::Primitive(Primitive::Int8) => FfiType::Int8,
        Layout::Primitive(Primitive::UInt8) => FfiType::UInt8,
        Layout::Primitive(Primitive::Int16) => FfiType::Int16,
        Layout::Primitive(Primitive::UInt16) => FfiType::UInt16,
        Layout::Primitive(Primitive::Int32) => FfiType::Int32,
        Layout::Primitive(Primitive::UInt32) => FfiType::UInt32,
        Layout::Primitive(Primitive::Int64) => FfiType::Int64,
        Layout::Primitive(Primitive::UInt64) => FfiType::UInt64,
        Layout::Primitive(Primitive::Float32) => FfiType::Float32,
        Layout::Primitive(Primitive::Float64) => FfiType::Float64,
        Layout::Handle => FfiType::Handle,
        _ => FfiType::RustBuffer,
    }
}

/// The native representation that values of layout `layout` are passed in.
pub fn ffi_type_of(layout: &Layout) -> (ty: FfiType)
    ensures
        ty == passed_as(*layout),
{
    match layout {
        Layout::Primitive(Primitive::Bool) | Layout::Primitive(Primitive::Int8) => FfiType::Int8,
        Layout::Primitive(Primitive::UInt8) => FfiType::UInt8,
        Layout::Primitive(Primitive::Int16) => FfiType::Int16,
        Layout::Primitive(Primitive::UInt16) => FfiType::UInt16,
        Layout::Primitive(Primitive::Int32) => FfiType::Int32,
        Layout::Primitive(Primitive::UInt32) => FfiType::UInt32,
        Layout::Primitive(Primitive::Int64) => FfiType::Int64,
        Layout::Primitive(Primitive::UInt64) => FfiType::UInt64,
        Layout::Primitive(Primitive::Float32) => FfiType::Float32,
        Layout::Primitive(Primitive::Float64) => FfiType::Float64,
        Layout::Handle => FfiType::Handle,
        _ => FfiType::RustBuffer,
    }
}

} // verus!
