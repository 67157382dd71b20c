//! The scopes of an interface description: the sets of identifiers that
//! must not end up with the same name.

use vstd::prelude::*;
use crate::interface::{
    ComponentInterface,
    CustomType,
    Enum,
    Field,
    Function,
    Object,
    Record,
    Variant,
};
use crate::naming::{
    camel,
    collision_free,
    convert_scope,
    converted,
    repeats,
    upper,
    upper_camel,
    Clash,
    Style,
};
use crate::template::slot_texts;
use crate::text::join3;

verus! {

/// A declaration with a name.
pub trait Named {
    /// The identifier that the declaration is written with.
    spec fn declared_name(&self) -> String;

    fn name(&self) -> (name: &String)
        ensures
            *name == self.declared_name(),
    ;
}

impl Named for Field {
    open spec fn declared_name(&self) -> String {
        self.name
    }

    fn name(&self) -> (name: &String) {
        &self.name
    }
}

impl Named for Function {
    open spec fn declared_name(&self) -> String {
        self.name
    }

    fn name(&self) -> (name: &String) {
        &self.name
    }
}

impl Named for Record {
    open spec fn declared_name(&self) -> String {
        self.name
    }

    fn name(&self) -> (name: &String) {
        &self.name
    }
}

impl Named for Variant {
    open spec fn declared_name(&self) -> String {
        self.name
    }

    fn name(&self) -> (name: &String) {
        &self.name
    }
}

impl Named for Enum {
    open spec fn declared_name(&self) -> String {
        self.name
    }

    fn name(&self) -> (name: &String) {
        &self.name
    }
}

impl Named for Object {
    open spec fn declared_name(&self) -> String {
        self.name
    }

    fn name(&self) -> (name: &String) {
        &self.name
    }
}

impl Named for CustomType {
    open spec fn declared_name(&self) -> String {
        self.name
    }

    fn name(&self) -> (name: &String) {
        &self.name
    }
}

/// The identifiers of `items`, in order.
pub open spec fn names<T: Named>(items: Seq<T>) -> Seq<Seq<char>> {
    Seq::new(items.len(), |i: int| items[i].declared_name()@)
}

/// Appends the identifiers of `items`.
fn push_names<T: Named>(items: &Vec<T>, out: &mut Vec<String>)
    ensures
        slot_texts(final(out)@) == slot_texts(old(out)@) + names(items@),
{
    let ghost start = slot_texts(out@);
    let mut i: usize = 0;
    assert(slot_texts(out@) =~= start + names(items@).take(0));
    while i < items.len()
        invariant
            i <= items.len(),
            slot_texts(out@) == start + names(items@).take(i as int),
        decreases items.len() - i,
    {
        let ghost before = slot_texts(out@);
        let name = items[i].name().clone();
        out.push(name);
        proof {
            assert(slot_texts(out@) =~= before.push(name@));
            assert(names(items@).take(i + 1) =~= names(items@).take(i as int).push(
                items@[i as int].declared_name()@,
            ));
        }
        i = i + 1;
        assert(slot_texts(out@) =~= start + names(items@).take(i as int));
    }
    assert(names(items@).take(items.len() as int) =~= names(items@));
}

/// One scope: its identifiers and the convention of their names.
pub struct Scope {
    pub idents: Vec<String>,
    pub style: Style,
}

/// What a scope holds.
pub type ScopeModel = (Seq<Seq<char>>, Style);

/// What each of `scopes` holds, in order.
pub open spec fn scope_models(scopes: Seq<Scope>) -> Seq<ScopeModel> {
    Seq::new(scopes.len(), |i: int| (slot_texts(scopes[i].idents@), scopes[i].style))
}

/// The identifier that stands for the class of a variant: that of its
/// enum, an underscore, and its own. Its name in the convention of types is
/// the name of the class.
pub open spec fn variant_ident(enum_name: Seq<char>, variant_name: Seq<char>) -> Seq<char> {
    enum_name + "_"@ + variant_name
}

/// The identifiers that stand for the classes of the variants of `e`.
pub open spec fn variant_idents(e: Enum) -> Seq<Seq<char>> {
    Seq::new(e.variants@.len(), |i: int| variant_ident(e.name@, e.variants@[i].name@))
}

/// The identifiers that stand for the classes of the variants of the first
/// `end` of `enums`.
pub open spec fn all_variant_idents(enums: Seq<Enum>, end: int) -> Seq<Seq<char>>
    decreases end,
{
    if end <= 0 {
        Seq::empty()
    } else {
        all_variant_idents(enums, end - 1) + variant_idents(enums[end - 1])
    }
}

/// The scope of the classes: the declared types, and the classes of the
/// variants of the enums.
pub open spec fn type_scope(ci: ComponentInterface) -> ScopeModel {
    (
        names(ci.records@) + names(ci.enums@) + names(ci.objects@) + names(
            ci.callback_interfaces@,
        ) + names(ci.custom_types@) + all_variant_idents(ci.enums@, ci.enums@.len() as int),
        Style::Type,
    )
}

/// The name of the class of a variant is the name of its enum and then its
/// own, both in the convention of types.
pub proof fn lemma_variant_class_name(enum_name: Seq<char>, variant_name: Seq<char>)
    ensures
        upper_camel(variant_ident(enum_name, variant_name)) == upper_camel(enum_name)
            + upper_camel(variant_name),
{
    lemma_camel_joined(enum_name, variant_name, true);
}

/// The camel case of two texts with an underscore between them.
proof fn lemma_camel_joined(a: Seq<char>, b: Seq<char>, capital: bool)
    ensures
        camel(a + "_"@ + b, capital) == camel(a, capital) + camel(b, true),
    decreases a.len(),
{
    reveal_strlit("_");
    let whole = a + "_"@ + b;
    if a.len() == 0 {
        assert(whole.drop_first() =~= b);
        assert(camel(a, capital) + camel(b, true) =~= camel(b, true));
    } else {
        assert(whole.drop_first() =~= a.drop_first() + "_"@ + b);
        assert(whole[0] == a[0]);
        if a[0] == '_' {
            lemma_camel_joined(a.drop_first(), b, true);
        } else {
            lemma_camel_joined(a.drop_first(), b, false);
            let head = seq![if capital { upper(a[0]) } else { a[0] }];
            assert(head + (camel(a.drop_first(), false) + camel(b, true)) =~= (head + camel(
                a.drop_first(),
                false,
            )) + camel(b, true));
        }
    }
}

/// The scope of the fields of each variant.
pub open spec fn variant_scopes(variants: Seq<Variant>) -> Seq<ScopeModel> {
    Seq::new(variants.len(), |i: int| (names(variants[i].fields@), Style::Member))
}

/// The scope of the fields of each variant of the first `end` of `enums`.
pub open spec fn variant_field_scopes(enums: Seq<Enum>, end: int) -> Seq<ScopeModel>
    decreases end,
{
    if end <= 0 {
        Seq::empty()
    } else {
        variant_field_scopes(enums, end - 1) + variant_scopes(enums[end - 1].variants@)
    }
}

/// The scope of the arguments of each constructor and each method of the
/// first `end` of `objects`.
pub open spec fn member_argument_scopes(objects: Seq<Object>, end: int) -> Seq<ScopeModel>
    decreases end,
{
    if end <= 0 {
        Seq::empty()
    } else {
        member_argument_scopes(objects, end - 1) + argument_scopes(objects[end - 1].constructors@)
            + argument_scopes(objects[end - 1].methods@)
    }
}

/// The scope of the fields of each record.
pub open spec fn record_scopes(records: Seq<Record>) -> Seq<ScopeModel> {
    Seq::new(records.len(), |i: int| (names(records[i].fields@), Style::Member))
}

/// The scope of the variants of each enum.
pub open spec fn enum_scopes(enums: Seq<Enum>) -> Seq<ScopeModel> {
    Seq::new(enums.len(), |i: int| (names(enums[i].variants@), Style::Type))
}

/// The scope of the constructors and methods of each object.
pub open spec fn object_scopes(objects: Seq<Object>) -> Seq<ScopeModel> {
    Seq::new(
        objects.len(),
        |i: int| (names(objects[i].constructors@) + names(objects[i].methods@), Style::Member),
    )
}

/// The scope of the arguments of each function.
pub open spec fn argument_scopes(functions: Seq<Function>) -> Seq<ScopeModel> {
    Seq::new(functions.len(), |i: int| (names(functions[i].arguments@), Style::Member))
}

/// The scopes of the description: the classes, the exported functions,
/// the fields of each record, the variants of each enum, the members of
/// each object and callback interface, the arguments of each exported
/// function, the fields of each variant, and the arguments of each
/// constructor and method.
pub open spec fn scopes_of(ci: ComponentInterface) -> Seq<ScopeModel> {
    seq![type_scope(ci), (names(ci.functions@), Style::Member)] + record_scopes(ci.records@)
        + enum_scopes(ci.enums@) + object_scopes(ci.objects@) + object_scopes(
        ci.callback_interfaces@,
    ) + argument_scopes(ci.functions@) + variant_field_scopes(
        ci.enums@,
        ci.enums@.len() as int,
    ) + member_argument_scopes(ci.objects@, ci.objects@.len() as int) + member_argument_scopes(
        ci.callback_interfaces@,
        ci.callback_interfaces@.len() as int,
    )
}

proof fn lemma_scope_models_push(scopes: Seq<Scope>, scope: Scope)
    ensures
        scope_models(scopes.push(scope)) == scope_models(scopes).push(
            (slot_texts(scope.idents@), scope.style),
        ),
{
    assert(scope_models(scopes.push(scope)) =~= scope_models(scopes).push(
        (slot_texts(scope.idents@), scope.style),
    ));
}

/// Appends the scope of the fields of each record.
fn push_record_scopes(records: &Vec<Record>, out: &mut Vec<Scope>)
    ensures
        scope_models(final(out)@) == scope_models(old(out)@) + record_scopes(records@),
{
    let ghost start = scope_models(out@);
    let mut i: usize = 0;
    assert(scope_models(out@) =~= start + record_scopes(records@).take(0));
    while i < records.len()
        invariant
            i <= records.len(),
            scope_models(out@) == start + record_scopes(records@).take(i as int),
        decreases records.len() - i,
    {
        let mut idents: Vec<String> = Vec::new();
        assert(slot_texts(idents@) =~= Seq::<Seq<char>>::empty());
        push_names(&records[i].fields, &mut idents);
        assert(slot_texts(idents@) =~= names(records@[i as int].fields@));
        let scope = Scope { idents, style: Style::Member };
        proof {
            lemma_scope_models_push(out@, scope);
        }
        out.push(scope);
        i = i + 1;
        assert(scope_models(out@) =~= start + record_scopes(records@).take(i as int));
    }
    assert(record_scopes(records@).take(records.len() as int) =~= record_scopes(records@));
}

/// Appends the scope of the variants of each enum.
fn push_enum_scopes(enums: &Vec<Enum>, out: &mut Vec<Scope>)
    ensures
        scope_models(final(out)@) == scope_models(old(out)@) + enum_scopes(enums@),
{
    let ghost start = scope_models(out@);
    let mut i: usize = 0;
    assert(scope_models(out@) =~= start + enum_scopes(enums@).take(0));
    while i < enums.len()
        invariant
            i <= enums.len(),
            scope_models(out@) == start + enum_scopes(enums@).take(i as int),
        decreases enums.len() - i,
    {
        let mut idents: Vec<String> = Vec::new();
        assert(slot_texts(idents@) =~= Seq::<Seq<char>>::empty());
        push_names(&enums[i].variants, &mut idents);
        assert(slot_texts(idents@) =~= names(enums@[i as int].variants@));
        let scope = Scope { idents, style: Style::Type };
        proof {
            lemma_scope_models_push(out@, scope);
        }
        out.push(scope);
        i = i + 1;
        assert(scope_models(out@) =~= start + enum_scopes(enums@).take(i as int));
    }
    assert(enum_scopes(enums@).take(enums.len() as int) =~= enum_scopes(enums@));
}

/// Appends the scope of the constructors and methods of each object.
fn push_object_scopes(objects: &Vec<Object>, out: &mut Vec<Scope>)
    ensures
        scope_models(final(out)@) == scope_models(old(out)@) + object_scopes(objects@),
{
    let ghost start = scope_models(out@);
    let mut i: usize = 0;
    assert(scope_models(out@) =~= start + object_scopes(objects@).take(0));
    while i < objects.len()
        invariant
            i <= objects.len(),
            scope_models(out@) == start + object_scopes(objects@).take(i as int),
        decreases objects.len() - i,
    {
        let mut idents: Vec<String> = Vec::new();
        assert(slot_texts(idents@) =~= Seq::<Seq<char>>::empty());
        push_names(&objects[i].constructors, &mut idents);
        push_names(&objects[i].methods, &mut idents);
        assert(slot_texts(idents@) =~= names(objects@[i as int].constructors@) + names(
            objects@[i as int].methods@,
        ));
        let scope = Scope { idents, style: Style::Member };
        proof {
            lemma_scope_models_push(out@, scope);
        }
        out.push(scope);
        i = i + 1;
        assert(scope_models(out@) =~= start + object_scopes(objects@).take(i as int));
    }
    assert(object_scopes(objects@).take(objects.len() as int) =~= object_scopes(objects@));
}

/// Appends the scope of the arguments of each function.
fn push_argument_scopes(functions: &Vec<Function>, out: &mut Vec<Scope>)
    ensures
        scope_models(final(out)@) == scope_models(old(out)@) + argument_scopes(functions@),
{
    let ghost start = scope_models(out@);
    let mut i: usize = 0;
    assert(scope_models(out@) =~= start + argument_scopes(functions@).take(0));
    while i < functions.len()
        invariant
            i <= functions.len(),
            scope_models(out@) == start + argument_scopes(functions@).take(i as int),
        decreases functions.len() - i,
    {
        let mut idents: Vec<String> = Vec::new();
        assert(slot_texts(idents@) =~= Seq::<Seq<char>>::empty());
        push_names(&functions[i].arguments, &mut idents);
        assert(slot_texts(idents@) =~= names(functions@[i as int].arguments@));
        let scope = Scope { idents, style: Style::Member };
        proof {
            lemma_scope_models_push(out@, scope);
        }
        out.push(scope);
        i = i + 1;
        assert(scope_models(out@) =~= start + argument_scopes(functions@).take(i as int));
    }
    assert(argument_scopes(functions@).take(functions.len() as int) =~= argument_scopes(
        functions@,
    ));
}

/// Appends the scope of the fields of each variant.
fn push_variant_scopes(variants: &Vec<Variant>, out: &mut Vec<Scope>)
    ensures
        scope_models(final(out)@) == scope_models(old(out)@) + variant_scopes(variants@),
{
    let ghost start = scope_models(out@);
    let mut i: usize = 0;
    assert(scope_models(out@) =~= start + variant_scopes(variants@).take(0));
    while i < variants.len()
        invariant
            i <= variants.len(),
            scope_models(out@) == start + variant_scopes(variants@).take(i as int),
        decreases variants.len() - i,
    {
        let mut idents: Vec<String> = Vec::new();
        assert(slot_texts(idents@) =~= Seq::<Seq<char>>::empty());
        push_names(&variants[i].fields, &mut idents);
        assert(slot_texts(idents@) =~= names(variants@[i as int].fields@));
        let scope = Scope { idents, style: Style::Member };
        proof {
            lemma_scope_models_push(out@, scope);
        }
        out.push(scope);
        i = i + 1;
        assert(scope_models(out@) =~= start + variant_scopes(variants@).take(i as int));
    }
    assert(variant_scopes(variants@).take(variants.len() as int) =~= variant_scopes(variants@));
}

/// Appends the scope of the fields of each variant of each enum.
fn push_variant_field_scopes(enums: &Vec<Enum>, out: &mut Vec<Scope>)
    ensures
        scope_models(final(out)@) == scope_models(old(out)@) + variant_field_scopes(
            enums@,
            enums@.len() as int,
        ),
{
    let ghost start = scope_models(out@);
    let mut i: usize = 0;
    assert(start + variant_field_scopes(enums@, 0) =~= start);
    while i < enums.len()
        invariant
            i <= enums.len(),
            scope_models(out@) == start + variant_field_scopes(enums@, i as int),
        decreases enums.len() - i,
    {
        push_variant_scopes(&enums[i].variants, out);
        i = i + 1;
        assert(scope_models(out@) =~= start + variant_field_scopes(enums@, i as int));
    }
}

/// Appends the scope of the arguments of each constructor and method of
/// each object.
fn push_member_argument_scopes(objects: &Vec<Object>, out: &mut Vec<Scope>)
    ensures
        scope_models(final(out)@) == scope_models(old(out)@) + member_argument_scopes(
            objects@,
            objects@.len() as int,
        ),
{
    let ghost start = scope_models(out@);
    let mut i: usize = 0;
    assert(start + member_argument_scopes(objects@, 0) =~= start);
    while i < objects.len()
        invariant
            i <= objects.len(),
            scope_models(out@) == start + member_argument_scopes(objects@, i as int),
        decreases objects.len() - i,
    {
        push_argument_scopes(&objects[i].constructors, out);
        push_argument_scopes(&objects[i].methods, out);
        i = i + 1;
        assert(scope_models(out@) =~= start + member_argument_scopes(objects@, i as int));
    }
}

/// Appends the identifiers that stand for the classes of the variants of
/// each enum.
fn push_variant_idents(enums: &Vec<Enum>, out: &mut Vec<String>)
    ensures
        slot_texts(final(out)@) == slot_texts(old(out)@) + all_variant_idents(
            enums@,
            enums@.len() as int,
        ),
{
    let ghost start = slot_texts(out@);
    let mut i: usize = 0;
    assert(start + all_variant_idents(enums@, 0) =~= start);
    while i < enums.len()
        invariant
            i <= enums.len(),
            slot_texts(out@) == start + all_variant_idents(enums@, i as int),
        decreases enums.len() - i,
    {
        let e = &enums[i];
        let ghost before = slot_texts(out@);
        let mut k: usize = 0;
        assert(slot_texts(out@) =~= before + variant_idents(*e).take(0));
        while k < e.variants.len()
            invariant
                k <= e.variants.len(),
                slot_texts(out@) == before + variant_idents(*e).take(k as int),
            decreases e.variants.len() - k,
        {
            let ghost so_far = slot_texts(out@);
            let ident = join3(e.name.as_str(), "_", e.variants[k].name.as_str());
            out.push(ident);
            proof {
                assert(slot_texts(out@) =~= so_far.push(ident@));
                assert(variant_idents(*e).take(k + 1) =~= variant_idents(*e).take(k as int).push(
                    variant_ident(e.name@, e.variants@[k as int].name@),
                ));
            }
            k = k + 1;
            assert(slot_texts(out@) =~= before + variant_idents(*e).take(k as int));
        }
        assert(variant_idents(*e).take(e.variants.len() as int) =~= variant_idents(*e));
        i = i + 1;
        assert(slot_texts(out@) =~= start + all_variant_idents(enums@, i as int));
    }
}

/// The scopes of the description.
pub fn collect_scopes(ci: &ComponentInterface) -> (scopes: Vec<Scope>)
    ensures
        scope_models(scopes@) == scopes_of(*ci),
{
    let mut types: Vec<String> = Vec::new();
    assert(slot_texts(types@) =~= Seq::<Seq<char>>::empty());
    push_names(&ci.records, &mut types);
    push_names(&ci.enums, &mut types);
    push_names(&ci.objects, &mut types);
    push_names(&ci.callback_interfaces, &mut types);
    push_names(&ci.custom_types, &mut types);
    push_variant_idents(&ci.enums, &mut types);
    assert(slot_texts(types@) =~= type_scope(*ci).0);
    let mut functions: Vec<String> = Vec::new();
    assert(slot_texts(functions@) =~= Seq::<Seq<char>>::empty());
    push_names(&ci.functions, &mut functions);
    assert(slot_texts(functions@) =~= names(ci.functions@));
    let mut scopes: Vec<Scope> = Vec::new();
    scopes.push(Scope { idents: types, style: Style::Type });
    scopes.push(Scope { idents: functions, style: Style::Member });
    assert(scope_models(scopes@) =~= seq![type_scope(*ci), (names(ci.functions@), Style::Member)]);
    push_record_scopes(&ci.records, &mut scopes);
    push_enum_scopes(&ci.enums, &mut scopes);
    push_object_scopes(&ci.objects, &mut scopes);
    push_object_scopes(&ci.callback_interfaces, &mut scopes);
    push_argument_scopes(&ci.functions, &mut scopes);
    push_variant_field_scopes(&ci.enums, &mut scopes);
    push_member_argument_scopes(&ci.objects, &mut scopes);
    push_member_argument_scopes(&ci.callback_interfaces, &mut scopes);
    assert(scope_models(scopes@) =~= scopes_of(*ci));
    scopes
}

/// Two places of one scope of a description whose identifiers end up with
/// the same name.
#[derive(Clone, Copy, Debug, PartialEq, Eq, Structural)]
pub struct ScopeClash {
    /// The place of the scope among the scopes of the description.
    pub scope: usize,
    pub clash: Clash,
}

/// Whether every scope of `scopes` is free of collisions.
pub open spec fn all_collision_free(scopes: Seq<ScopeModel>) -> bool {
    forall|k: int| 0 <= k < scopes.len() ==> collision_free((#[trigger] scopes[k]).0, scopes[k].1)
}

/// Whether `found` is the first clash of `scopes`: every scope before its
/// own is free of collisions, and in its own scope it is the first place
/// whose name an earlier one has, with the earliest that has it.
pub open spec fn is_first_clash(scopes: Seq<ScopeModel>, found: ScopeClash) -> bool {
    let idents = scopes[found.scope as int].0;
    let style = scopes[found.scope as int].1;
    &&& found.scope < scopes.len()
    &&& forall|k: int|
        0 <= k < found.scope ==> collision_free((#[trigger] scopes[k]).0, scopes[k].1)
    &&& found.clash.first < found.clash.second < idents.len()
    &&& converted(idents[found.clash.first as int], style) == converted(
        idents[found.clash.second as int],
        style,
    )
    &&& forall|j: int| 0 <= j < found.clash.second ==> !#[trigger] repeats(idents, style, j)
    &&& forall|i: int|
        0 <= i < found.clash.first ==> converted(#[trigger] idents[i], style) != converted(
            idents[found.clash.second as int],
            style,
        )
}

/// Checks that no two identifiers of one scope end up with the same name.
pub fn check_scopes(scopes: &Vec<Scope>) -> (r: Result<(), ScopeClash>)
    ensures
        match r {
            Ok(_) => all_collision_free(scope_models(scopes@)),
            Err(found) => is_first_clash(scope_models(scopes@), found),
        },
{
    let mut k: usize = 0;
    while k < scopes.len()
        invariant
            k <= scopes.len(),
            forall|m: int|
                0 <= m < k ==> collision_free(
                    (#[trigger] scope_models(scopes@)[m]).0,
                    scope_models(scopes@)[m].1,
                ),
        decreases scopes.len() - k,
    {
        match convert_scope(&scopes[k].idents, scopes[k].style) {
            Ok(_) => {},
            Err(clash) => {
                return Err(ScopeClash { scope: k, clash });
            },
        }
        k = k + 1;
    }
    Ok(())
}

/// A description with a first clash is not free of collisions.
pub proof fn lemma_clash_excludes_freedom(scopes: Seq<ScopeModel>, found: ScopeClash)
    requires
        is_first_clash(scopes, found),
    ensures
        !all_collision_free(scopes),
{
    let scope = scopes[found.scope as int];
    assert(!collision_free(scope.0, scope.1));
}

} // verus!
