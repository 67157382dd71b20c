//! The imports of a module for the types that other packages declare: one
//! for each package, however many of its types the description refers to.

use vstd::prelude::*;
use crate::dedup::{declared, first_places};
use crate::gen::runtime::{IMPORT, IMPORTS_END};
use crate::gen::types::{collect_references, references, targets};
use crate::gen::Config;
use crate::interface::{ComponentInterface, Type};
use crate::template::{
    balanced,
    expand,
    expanded,
    lemma_balanced_concat,
    lemma_expanded_balanced,
    slot_texts,
};
use crate::tokens::{token_models, Token, TokenModel};

verus! {

/// The packages of the types of other packages in `ty`, in order.
pub open spec fn origins(ty: Type) -> Seq<Seq<char>>
    decreases ty,
{
    match ty {
        Type::External(_, package) => seq![package@],
        Type::Optional(inner) => origins(*inner),
        Type::Sequence(element) => origins(*element),
        Type::Mapping(key, value) => origins(*key) + origins(*value),
        _ => Seq::empty(),
    }
}

/// The packages of the types of other packages in the first `end` of
/// `types`, in order.
pub open spec fn all_origins(types: Seq<Type>, end: int) -> Seq<Seq<char>>
    decreases end,
{
    if end <= 0 {
        Seq::empty()
    } else {
        all_origins(types, end - 1) + origins(types[end - 1])
    }
}

/// The packages that the description refers to types of, in the order of
/// the references.
pub open spec fn packages(ci: ComponentInterface) -> Seq<Seq<char>> {
    all_origins(references(ci), references(ci).len() as int)
}

/// The tokens of the imports of the packages at `places`, each under the
/// name that the settings redirect it to.
pub open spec fn imports_at(config: Config, all: Seq<Seq<char>>, places: Seq<int>) -> Seq<
    TokenModel,
>
    decreases places.len(),
{
    if places.len() == 0 {
        Seq::empty()
    } else {
        imports_at(config, all, places.drop_last()) + expanded(
            IMPORT@,
            seq![config.imported(all[places.last()])],
        )
    }
}

/// The tokens of the imports for the types of other packages: one for
/// each package, in the order in which the packages are first referred to,
/// and an empty line behind them.
pub open spec fn external_imports(ci: ComponentInterface, config: Config) -> Seq<TokenModel> {
    imports_at(config, packages(ci), declared(packages(ci))) + expanded(
        IMPORTS_END@,
        Seq::empty(),
    )
}

/// Appends the packages of the types of other packages in `ty`.
fn push_origins(ty: &Type, out: &mut Vec<String>)
    ensures
        slot_texts(final(out)@) == slot_texts(old(out)@) + origins(*ty),
    decreases ty,
{
    let ghost start = slot_texts(out@);
    match ty {
        Type::External(_, package) => {
            out.push(package.clone());
        },
        Type::Optional(inner) => {
            push_origins(inner, out);
        },
        Type::Sequence(element) => {
            push_origins(element, out);
        },
        Type::Mapping(key, value) => {
            push_origins(key, out);
            push_origins(value, out);
        },
        _ => {},
    }
    assert(slot_texts(out@) =~= start + origins(*ty));
}

/// Appends the imports for the types of other packages.
pub fn render_external_imports(ci: &ComponentInterface, config: &Config, out: &mut Vec<Token>)
    ensures
        token_models(final(out)@) == token_models(old(out)@) + external_imports(*ci, *config),
{
    let ghost start = token_models(out@);
    let refs = collect_references(ci);
    let mut names: Vec<String> = Vec::new();
    let mut i: usize = 0;
    assert(slot_texts(names@) =~= all_origins(references(*ci), 0));
    while i < refs.len()
        invariant
            i <= refs.len(),
            targets(refs@) == references(*ci),
            slot_texts(names@) == all_origins(references(*ci), i as int),
        decreases refs.len() - i,
    {
        assert(*refs@[i as int] == references(*ci)[i as int]);
        push_origins(refs[i], &mut names);
        i = i + 1;
    }
    let places = first_places(&names);
    let ghost all = declared(packages(*ci));
    let mut p: usize = 0;
    assert(all.take(0) =~= Seq::<int>::empty());
    assert(start + imports_at(*config, packages(*ci), all.take(0)) =~= start);
    while p < places.len()
        invariant
            p <= places@.len() == all.len(),
            all == declared(packages(*ci)),
            slot_texts(names@) == packages(*ci),
            forall|m: int| 0 <= m < places@.len() ==> (#[trigger] places@[m]) as int == all[m],
            forall|m: int| 0 <= m < places@.len() ==> (#[trigger] places@[m]) < names@.len(),
            token_models(out@) == start + imports_at(*config, packages(*ci), all.take(p as int)),
        decreases places.len() - p,
    {
        let name = &names[places[p]];
        let mut slots: Vec<String> = Vec::new();
        slots.push(config.import_of(name.as_str()));
        proof {
            assert(name@ == packages(*ci)[places@[p as int] as int]);
            assert(slot_texts(slots@) =~= seq![config.imported(name@)]);
            assert(all.take(p + 1).drop_last() =~= all.take(p as int));
            assert(all.take(p + 1).last() == places@[p as int] as int);
        }
        expand(&IMPORT, &slots, out);
        assert(token_models(out@) =~= start + imports_at(
            *config,
            packages(*ci),
            all.take(p + 1),
        ));
        p = p + 1;
    }
    assert(all.take(places@.len() as int) =~= all);
    let none: Vec<String> = Vec::new();
    assert(slot_texts(none@) =~= Seq::<Seq<char>>::empty());
    expand(&IMPORTS_END, &none, out);
    assert(token_models(out@) =~= start + external_imports(*ci, *config));
}

/// The tokens of imports are balanced.
pub proof fn lemma_imports_at_balanced(config: Config, all: Seq<Seq<char>>, places: Seq<int>)
    ensures
        balanced(imports_at(config, all, places)),
    decreases places.len(),
{
    if places.len() > 0 {
        let slots = seq![config.imported(all[places.last()])];
        lemma_imports_at_balanced(config, all, places.drop_last());
        lemma_expanded_balanced(IMPORT@, slots);
        lemma_balanced_concat(imports_at(config, all, places.drop_last()), expanded(IMPORT@, slots));
    }
}

/// The tokens of the imports of a module are balanced.
pub proof fn lemma_external_imports_balanced(ci: ComponentInterface, config: Config)
    ensures
        balanced(external_imports(ci, config)),
{
    lemma_imports_at_balanced(config, packages(ci), declared(packages(ci)));
    lemma_expanded_balanced(IMPORTS_END@, Seq::empty());
    lemma_balanced_concat(
        imports_at(config, packages(ci), declared(packages(ci))),
        expanded(IMPORTS_END@, Seq::empty()),
    );
}

} // verus!
