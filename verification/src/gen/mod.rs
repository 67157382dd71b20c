//! The render engine: from an interface description to the text of the
//! generated module.

pub mod bindings;
pub mod code_type;
pub mod compounds;
pub mod custom;
pub mod enums;
pub mod externals;
pub mod functions;
pub mod literals;
pub mod objects;
pub mod oracle;
pub mod primitives;
pub mod records;
pub mod runtime;
pub mod scopes;
pub mod slots;
pub mod types;

pub use code_type::CodeType;

use vstd::prelude::*;
use vstd::string::StringExecFns;
use crate::ffi::{LibraryLoading, native_declarations, uniffi_function_definitions};
use crate::gen::custom::{customs_tokens, render_customs};
use crate::gen::enums::{enums_tokens, render_enums};
use crate::gen::externals::{external_imports, render_external_imports};
use crate::gen::functions::{functions_tokens, render_functions};
use crate::gen::objects::{callbacks_tokens, objects_tokens, render_callbacks, render_objects};
use crate::gen::records::{records_tokens, render_records};
use crate::gen::runtime::{HEADER, LOADER, RUNTIME};
use crate::gen::scopes::{
    all_collision_free,
    check_scopes,
    collect_scopes,
    is_first_clash,
    ScopeClash,
    scopes_of,
};
use crate::gen::types::{
    builtin_helpers,
    collect_references,
    references,
    render_builtin_helpers,
    targets,
};
use crate::guard::{guard_tokens, render_guard};
use crate::interface::{ComponentInterface, Type};
use crate::registry::{layout_of, resolve, ResolveError};
use crate::template::{
    balanced,
    expand,
    expanded,
    lemma_balanced_concat,
    lemma_expanded_balanced,
    lemma_models_push,
    slot_texts,
};
use crate::text::{join2, join3};
use crate::tokens::{Token, token_models, TokenModel, within_depth};

verus! {

/// The settings of one namespace.
#[derive(Debug, PartialEq, Eq)]
pub struct Config {
    package_name: Option<String>,
    cdylib_name: Option<String>,
    external_packages: Vec<(String, String)>,
    asset_id: Option<String>,
    loading: LibraryLoading,
}

/// The package that the first of `pairs` with the name `name` redirects
/// to. Where no name occurs twice that is the only one.
pub open spec fn redirection(pairs: Seq<(String, String)>, name: Seq<char>) -> Option<Seq<char>>
    decreases pairs.len(),
{
    if pairs.len() == 0 {
        None
    } else if pairs[0].0@ == name {
        Some(pairs[0].1@)
    } else {
        redirection(pairs.drop_first(), name)
    }
}

/// Whether no name is redirected twice by `pairs`.
pub open spec fn distinct_names(pairs: Seq<(String, String)>) -> bool {
    forall|i: int, j: int| 0 <= i < j < pairs.len() ==> pairs[i].0@ != pairs[j].0@
}

/// The name of the package and of the library where none is set.
pub open spec fn default_name() -> Seq<char> {
    "uniffi"@
}

impl Config {
    /// No name is redirected twice.
    #[verifier::type_invariant]
    spec fn names_once(self) -> bool {
        distinct_names(self.external_packages@)
    }

    /// The name of the package that is set, if one is.
    pub closed spec fn package_setting(&self) -> Option<Seq<char>> {
        match self.package_name {
            Some(name) => Some(name@),
            None => None,
        }
    }

    /// The name of the compiled library that is set, if one is.
    pub closed spec fn library_setting(&self) -> Option<Seq<char>> {
        match self.cdylib_name {
            Some(name) => Some(name@),
            None => None,
        }
    }

    /// The identifier of the asset that is set, if one is.
    pub closed spec fn asset_setting(&self) -> Option<Seq<char>> {
        match self.asset_id {
            Some(id) => Some(id@),
            None => None,
        }
    }

    /// The packages that the names of other packages are redirected to.
    pub closed spec fn redirections(&self) -> Seq<(String, String)> {
        self.external_packages@
    }

    /// How the module finds the compiled library.
    pub closed spec fn loading(&self) -> LibraryLoading {
        self.loading
    }

    /// The package that the module imports for the types of the package `name`.
    pub open spec fn imported(&self, name: Seq<char>) -> Seq<char> {
        match redirection(self.redirections(), name) {
            Some(package) => package,
            None => name,
        }
    }

    /// The name of the package of the module.
    pub open spec fn package(&self) -> Seq<char> {
        match self.package_setting() {
            Some(name) => name,
            None => default_name(),
        }
    }

    /// The name of the compiled library.
    pub open spec fn library(&self) -> Seq<char> {
        match self.library_setting() {
            Some(name) => name,
            None => default_name(),
        }
    }

    /// The identifier under which the library is registered as an asset:
    /// the one that is set, or `uniffi:` and the name of the library.
    pub open spec fn asset(&self) -> Seq<char> {
        match self.asset_setting() {
            Some(id) => id,
            None => "uniffi:"@ + self.library(),
        }
    }

    /// Settings with what is given set and nothing else; the library is
    /// left to the registered assets. The redirections are those of a map:
    /// no name is redirected twice.
    pub fn new(
        package_name: Option<String>,
        cdylib_name: Option<String>,
        external_packages: Vec<(String, String)>,
        asset_id: Option<String>,
    ) -> (config: Config)
        requires
            distinct_names(external_packages@),
        ensures
            config.package_setting() == match package_name {
                Some(name) => Some(name@),
                None => None,
            },
            config.library_setting() == match cdylib_name {
                Some(name) => Some(name@),
                None => None,
            },
            config.asset_setting() == match asset_id {
                Some(id) => Some(id@),
                None => None,
            },
            config.redirections() == external_packages@,
            config.loading() == LibraryLoading::RegisteredAssets,
    {
        Config {
            package_name,
            cdylib_name,
            external_packages,
            asset_id,
            loading: LibraryLoading::RegisteredAssets,
        }
    }

    /// The settings that a description has where none are given: package
    /// and library are named after its namespace.
    pub fn from_interface(ci: &ComponentInterface) -> (config: Config)
        ensures
            config.package_setting() == Some(ci.namespace@),
            config.library_setting() == Some(ci.namespace@),
            config.asset_setting() is None,
            config.redirections().len() == 0,
            config.loading() == LibraryLoading::RegisteredAssets,
    {
        Config {
            package_name: Some(ci.namespace.clone()),
            cdylib_name: Some(ci.namespace.clone()),
            external_packages: Vec::new(),
            asset_id: None,
            loading: LibraryLoading::RegisteredAssets,
        }
    }

    /// The same settings with another way of finding the library.
    pub fn with_loading(self, loading: LibraryLoading) -> (config: Config)
        ensures
            config.package_setting() == self.package_setting(),
            config.library_setting() == self.library_setting(),
            config.asset_setting() == self.asset_setting(),
            config.redirections() == self.redirections(),
            config.loading() == loading,
    {
        proof {
            use_type_invariant(&self);
        }
        Config {
            package_name: self.package_name,
            cdylib_name: self.cdylib_name,
            external_packages: self.external_packages,
            asset_id: self.asset_id,
            loading,
        }
    }

    /// The same settings with the library named `name`, where it has no
    /// name yet.
    pub fn with_library_default(self, name: String) -> (config: Config)
        ensures
            config.package_setting() == self.package_setting(),
            config.library_setting() == match self.library_setting() {
                Some(set) => Some(set),
                None => Some(name@),
            },
            config.asset_setting() == self.asset_setting(),
            config.redirections() == self.redirections(),
            config.loading() == self.loading(),
    {
        proof {
            use_type_invariant(&self);
        }
        let cdylib_name = match self.cdylib_name {
            Some(set) => Some(set),
            None => Some(name),
        };
        Config {
            package_name: self.package_name,
            cdylib_name,
            external_packages: self.external_packages,
            asset_id: self.asset_id,
            loading: self.loading,
        }
    }

    pub fn package_name(&self) -> (name: String)
        ensures
            name@ == self.package(),
    {
        match &self.package_name {
            Some(name) => name.clone(),
            None => "uniffi".to_owned(),
        }
    }

    pub fn cdylib_name(&self) -> (name: String)
        ensures
            name@ == self.library(),
    {
        match &self.cdylib_name {
            Some(name) => name.clone(),
            None => "uniffi".to_owned(),
        }
    }

    pub fn asset_id(&self) -> (id: String)
        ensures
            id@ == self.asset(),
    {
        match &self.asset_id {
            Some(id) => id.clone(),
            None => join2("uniffi:", self.cdylib_name().as_str()),
        }
    }

    /// How the module finds the compiled library.
    pub fn library_loading(&self) -> (loading: LibraryLoading)
        ensures
            loading == self.loading(),
    {
        self.loading
    }

    /// The package that the name `name` of another package is redirected
    /// to: that of the one redirection of the name, if there is one.
    pub fn external_package(&self, name: &str) -> (package: Option<String>)
        ensures
            match package {
                Some(found) => redirection(self.redirections(), name@) == Some(found@),
                None => redirection(self.redirections(), name@) is None,
            },
            distinct_names(self.redirections()),
    {
        proof {
            use_type_invariant(self);
        }
        let wanted = name.to_owned();
        let mut i: usize = 0;
        assert(self.external_packages@.skip(0) =~= self.external_packages@);
        while i < self.external_packages.len()
            invariant
                i <= self.external_packages.len(),
                wanted@ == name@,
                distinct_names(self.external_packages@),
                redirection(self.external_packages@, name@) == redirection(
                    self.external_packages@.skip(i as int),
                    name@,
                ),
            decreases self.external_packages.len() - i,
        {
            proof {
                assert(self.external_packages@.skip(i as int).drop_first()
                    =~= self.external_packages@.skip(i + 1));
            }
            if self.external_packages[i].0 == wanted {
                return Some(self.external_packages[i].1.clone());
            }
            i = i + 1;
        }
        None
    }

    /// The package that the module imports for the types of the package
    /// `name`: the one that the name is redirected to, or else the package
    /// itself.
    pub fn import_of(&self, name: &str) -> (package: String)
        ensures
            package@ == self.imported(name@),
    {
        match self.external_package(name) {
            Some(found) => found,
            None => name.to_owned(),
        }
    }
}

impl Default for Config {
    fn default() -> (config: Config)
        ensures
            config.package_setting() is None,
            config.library_setting() is None,
            config.asset_setting() is None,
            config.redirections().len() == 0,
            config.loading() == LibraryLoading::RegisteredAssets,
    {
        Config {
            package_name: None,
            cdylib_name: None,
            external_packages: Vec::new(),
            asset_id: None,
            loading: LibraryLoading::RegisteredAssets,
        }
    }
}

/// A type reference without a layout.
#[derive(Clone, Copy, Debug, PartialEq, Eq, Structural)]
pub struct Unresolved {
    /// The place of the reference among the references of the description.
    pub reference: usize,
    pub why: ResolveError,
}

/// Why no module is generated for a description.
#[derive(Clone, Copy, Debug, PartialEq, Eq, Structural)]
pub enum GenerationError {
    /// Two identifiers of one scope end up with the same name.
    NameClash(ScopeClash),
    /// A type reference names no declaration, or leads into a declaration
    /// that contains itself.
    Unresolved(Unresolved),
}

/// Whether the reference `ty` can stand in the description: it has a
/// layout, or it is left to the package that declares the type.
#[verifier::opaque]
pub open spec fn resolvable(ci: ComponentInterface, ty: Type) -> bool {
    layout_of(ci, ty) is Ok || layout_of(ci, ty) == Err::<
        crate::registry::LayoutModel,
        ResolveError,
    >(ResolveError::External)
}

/// Whether every reference of `types` can stand in the description.
pub open spec fn all_resolvable(ci: ComponentInterface, types: Seq<Type>) -> bool {
    forall|i: int| 0 <= i < types.len() ==> resolvable(ci, #[trigger] types[i])
}

/// Whether `found` is the first reference of `types` that cannot stand.
pub open spec fn is_first_unresolved(
    ci: ComponentInterface,
    types: Seq<Type>,
    found: Unresolved,
) -> bool {
    &&& found.reference < types.len()
    &&& forall|i: int| 0 <= i < found.reference ==> resolvable(ci, #[trigger] types[i])
    &&& !resolvable(ci, types[found.reference as int])
    &&& layout_of(ci, types[found.reference as int]) == Err::<
        crate::registry::LayoutModel,
        ResolveError,
    >(found.why)
}

/// Whether a module can be generated for the description: no scope has a
/// collision, and every type reference can stand.
pub open spec fn well_formed(ci: ComponentInterface) -> bool {
    all_collision_free(scopes_of(ci)) && all_resolvable(ci, references(ci))
}

/// Whether the reference `ty` can stand in the description, and why not.
fn check_reference(ci: &ComponentInterface, ty: &Type) -> (r: Result<(), ResolveError>)
    ensures
        match r {
            Ok(_) => resolvable(*ci, *ty),
            Err(why) => !resolvable(*ci, *ty) && layout_of(*ci, *ty) == Err::<
                crate::registry::LayoutModel,
                ResolveError,
            >(why),
        },
{
    proof {
        reveal(resolvable);
    }
    match resolve(ci, ty) {
        Ok(_) => Ok(()),
        Err(ResolveError::External) => Ok(()),
        Err(why) => Err(why),
    }
}

/// Checks that every one of `refs` can stand in the description.
fn check_all(ci: &ComponentInterface, refs: &Vec<&Type>) -> (r: Result<(), Unresolved>)
    ensures
        match r {
            Ok(_) => all_resolvable(*ci, targets(refs@)),
            Err(found) => is_first_unresolved(*ci, targets(refs@), found),
        },
{
    let ghost all = targets(refs@);
    let mut i: usize = 0;
    while i < refs.len()
        invariant
            i <= refs.len(),
            all == targets(refs@),
            forall|k: int| 0 <= k < i ==> resolvable(*ci, #[trigger] all[k]),
        decreases refs.len() - i,
    {
        assert(*refs@[i as int] == all[i as int]);
        match check_reference(ci, refs[i]) {
            Ok(()) => {},
            Err(why) => {
                return Err(Unresolved { reference: i, why });
            },
        }
        i = i + 1;
    }
    Ok(())
}

/// Checks that every type reference of the description can stand.
pub fn check_references(ci: &ComponentInterface) -> (r: Result<(), Unresolved>)
    ensures
        match r {
            Ok(_) => all_resolvable(*ci, references(*ci)),
            Err(found) => is_first_unresolved(*ci, references(*ci), found),
        },
{
    let refs = collect_references(ci);
    check_all(ci, &refs)
}

/// The tokens that tell the module where the compiled library is: the
/// identifier of the asset, or the loader that opens the library.
pub open spec fn linkage_tokens(config: Config) -> Seq<TokenModel> {
    match config.loading() {
        LibraryLoading::RegisteredAssets => seq![
            TokenModel::Push,
            TokenModel::Literal("const _uniffiAssetId ="@),
            TokenModel::Space,
            TokenModel::Quoted("package:"@ + config.package() + "/"@ + config.asset()),
            TokenModel::Literal(";"@),
            TokenModel::Line,
            TokenModel::Literal(Seq::empty()),
        ],
        LibraryLoading::RelativeDirectory => expanded(LOADER@, seq![config.library()]),
    }
}

/// The tokens of the module of a description: the head, the imports for
/// the types of other packages, the support code, the linkage, the converters of the builtin and compound types, the
/// records, enums, objects, callback interfaces, custom types and
/// functions in the order of the description, the native declarations, and
/// the contract guard.
pub open spec fn module_tokens(ci: ComponentInterface, config: Config) -> Seq<TokenModel> {
    expanded(HEADER@, seq![config.package()]) + external_imports(ci, config) + expanded(
        RUNTIME@,
        Seq::empty(),
    ) + linkage_tokens(config) + builtin_helpers(ci) + records_tokens(ci.records@, ci.records@.len() as int)
        + enums_tokens(ci.enums@, ci.enums@.len() as int) + objects_tokens(
        ci.objects@,
        ci.objects@.len() as int,
    ) + callbacks_tokens(ci.callback_interfaces@, ci.callback_interfaces@.len() as int)
        + customs_tokens(ci.custom_types@, ci.custom_types@.len() as int) + functions_tokens(
        ci.functions@,
    ) + native_declarations(ci.ffi_functions@, config.loading()) + guard_tokens(ci)
}

/// Appends the linkage of the module.
fn render_linkage(config: &Config, out: &mut Vec<Token>)
    ensures
        token_models(final(out)@) == token_models(old(out)@) + linkage_tokens(*config),
{
    let ghost start = token_models(out@);
    match config.library_loading() {
        LibraryLoading::RegisteredAssets => {
            let mut id = join3("package:", config.package_name().as_str(), "/");
            id.append(config.asset_id().as_str());
            let ghost a = out@;
            let first = Token::Literal("const _uniffiAssetId =".to_owned());
            let quoted = Token::Quoted(id);
            let last = Token::Literal(";".to_owned());
            let barrier = Token::Literal(String::new());
            proof {
                let b = a.push(Token::Push);
                lemma_models_push(a, Token::Push);
                lemma_models_push(b, first);
                lemma_models_push(b.push(first), Token::Space);
                lemma_models_push(b.push(first).push(Token::Space), quoted);
                lemma_models_push(b.push(first).push(Token::Space).push(quoted), last);
                lemma_models_push(
                    b.push(first).push(Token::Space).push(quoted).push(last),
                    Token::Line,
                );
                lemma_models_push(
                    b.push(first).push(Token::Space).push(quoted).push(last).push(Token::Line),
                    barrier,
                );
            }
            out.push(Token::Push);
            out.push(first);
            out.push(Token::Space);
            out.push(quoted);
            out.push(last);
            out.push(Token::Line);
            out.push(barrier);
            assert(token_models(out@) =~= start + linkage_tokens(*config));
        },
        LibraryLoading::RelativeDirectory => {
            let mut slots: Vec<String> = Vec::new();
            slots.push(config.cdylib_name());
            assert(slot_texts(slots@) =~= seq![config.library()]);
            expand(&LOADER, &slots, out);
        },
    }
}

/// The generator of the module of one description.
pub struct DartWrapper<'a> {
    config: &'a Config,
    ci: &'a ComponentInterface,
}

impl<'a> DartWrapper<'a> {
    /// The description that the module is generated for.
    pub closed spec fn interface(&self) -> ComponentInterface {
        *self.ci
    }

    /// The settings that the module is generated with.
    pub closed spec fn settings(&self) -> Config {
        *self.config
    }

    pub fn new(ci: &'a ComponentInterface, config: &'a Config) -> (wrapper: Self)
        ensures
            wrapper.interface() == *ci,
            wrapper.settings() == *config,
    {
        DartWrapper { ci, config }
    }

    /// The tokens of the module.
    ///
    /// A description in which two identifiers of one scope end up with the
    /// same name, or in which a type reference cannot stand, is refused:
    /// the scopes are checked first, then the references, each in the
    /// order of the description.
    #[verifier::rlimit(60)]
    pub fn generate(&self) -> (r: Result<Vec<Token>, GenerationError>)
        ensures
            match r {
                Ok(tokens) => well_formed(self.interface()) && token_models(tokens@)
                    == module_tokens(self.interface(), self.settings()) && within_depth(
                    token_models(tokens@),
                ),
                Err(GenerationError::NameClash(found)) => is_first_clash(
                    scopes_of(self.interface()),
                    found,
                ),
                Err(GenerationError::Unresolved(found)) => all_collision_free(
                    scopes_of(self.interface()),
                ) && is_first_unresolved(
                    self.interface(),
                    references(self.interface()),
                    found,
                ),
            },
    {
        let scopes = collect_scopes(self.ci);
        match check_scopes(&scopes) {
            Ok(()) => {},
            Err(found) => {
                return Err(GenerationError::NameClash(found));
            },
        }
        match check_references(self.ci) {
            Ok(()) => {},
            Err(found) => {
                return Err(GenerationError::Unresolved(found));
            },
        }
        let mut out: Vec<Token> = Vec::new();
        assert(token_models(out@) =~= Seq::<TokenModel>::empty());
        let mut head: Vec<String> = Vec::new();
        head.push(self.config.package_name());
        assert(slot_texts(head@) =~= seq![self.config.package()]);
        expand(&HEADER, &head, &mut out);
        render_external_imports(self.ci, self.config, &mut out);
        let none: Vec<String> = Vec::new();
        assert(slot_texts(none@) =~= Seq::<Seq<char>>::empty());
        expand(&RUNTIME, &none, &mut out);
        render_linkage(self.config, &mut out);
        render_builtin_helpers(self.ci, &mut out);
        render_records(&self.ci.records, &mut out);
        render_enums(&self.ci.enums, &mut out);
        render_objects(&self.ci.objects, &mut out);
        render_callbacks(&self.ci.callback_interfaces, &mut out);
        render_customs(&self.ci.custom_types, &mut out);
        render_functions(&self.ci.functions, &mut out);
        uniffi_function_definitions(
            &self.ci.ffi_functions,
            self.config.library_loading(),
            &mut out,
        );
        render_guard(self.ci, &mut out);
        assert(token_models(out@) =~= module_tokens(*self.ci, *self.config));
        proof {
            lemma_module_within_depth(*self.ci, *self.config);
        }
        Ok(out)
    }
}

/// The tokens of the linkage are balanced.
pub proof fn lemma_linkage_balanced(config: Config)
    ensures
        balanced(linkage_tokens(config)),
{
    match config.loading() {
        LibraryLoading::RegisteredAssets => {
            let tokens = linkage_tokens(config);
            reveal_with_fuel(crate::tokens::depth, 8);
            reveal_with_fuel(crate::template::stays, 8);
            let part6 = tokens.drop_last();
            let part5 = part6.drop_last();
            let part4 = part5.drop_last();
            let part3 = part4.drop_last();
            let part2 = part3.drop_last();
            let part1 = part2.drop_last();
            let part0 = part1.drop_last();
            assert(part0 =~= Seq::<TokenModel>::empty());
            assert(crate::tokens::depth(part0) == 0);
            assert(crate::tokens::depth(part1) == 0);
            assert(crate::tokens::depth(part2) == 0);
            assert(crate::tokens::depth(part3) == 0);
            assert(crate::tokens::depth(part4) == 0);
            assert(crate::tokens::depth(part5) == 0);
            assert(crate::tokens::depth(part6) == 0);
            assert(crate::tokens::depth(tokens) == 0);
        },
        LibraryLoading::RelativeDirectory => {
            lemma_expanded_balanced(LOADER@, seq![config.library()]);
        },
    }
}

/// The tokens of a module keep the indentation within the levels of the
/// templates and leave it at none.
pub proof fn lemma_module_balanced(ci: ComponentInterface, config: Config)
    ensures
        balanced(module_tokens(ci, config)),
{
    let part0 = expanded(HEADER@, seq![config.package()]);
    lemma_expanded_balanced(HEADER@, seq![config.package()]);
    let part1 = external_imports(ci, config);
    crate::gen::externals::lemma_external_imports_balanced(ci, config);
    let part2 = expanded(RUNTIME@, Seq::empty());
    lemma_expanded_balanced(RUNTIME@, Seq::empty());
    let part3 = linkage_tokens(config);
    lemma_linkage_balanced(config);
    let part4 = builtin_helpers(ci);
    crate::gen::types::lemma_helpers_at_balanced(crate::gen::types::needed(ci), crate::dedup::declared(crate::gen::types::canonicals(crate::gen::types::needed(ci))));
    let part5 = records_tokens(ci.records@, ci.records@.len() as int);
    crate::gen::records::lemma_records_balanced(ci.records@, ci.records@.len() as int);
    let part6 = enums_tokens(ci.enums@, ci.enums@.len() as int);
    crate::gen::enums::lemma_enums_balanced(ci.enums@, ci.enums@.len() as int);
    let part7 = objects_tokens(ci.objects@, ci.objects@.len() as int);
    crate::gen::objects::lemma_objects_balanced(ci.objects@, ci.objects@.len() as int);
    let part8 = callbacks_tokens(ci.callback_interfaces@, ci.callback_interfaces@.len() as int);
    crate::gen::objects::lemma_callbacks_balanced(ci.callback_interfaces@, ci.callback_interfaces@.len() as int);
    let part9 = customs_tokens(ci.custom_types@, ci.custom_types@.len() as int);
    crate::gen::custom::lemma_customs_balanced(ci.custom_types@, ci.custom_types@.len() as int);
    let part10 = functions_tokens(ci.functions@);
    crate::gen::functions::lemma_functions_balanced(ci.functions@);
    let part11 = native_declarations(ci.ffi_functions@, config.loading());
    crate::ffi::lemma_declarations_balanced(ci.ffi_functions@, crate::dedup::declared(crate::ffi::symbols(ci.ffi_functions@)), config.loading());
    let part12 = guard_tokens(ci);
    crate::guard::lemma_guard_balanced(ci);
    let upto0 = part0;
    lemma_balanced_concat(upto0, part1);
    let upto1 = upto0 + part1;
    lemma_balanced_concat(upto1, part2);
    let upto2 = upto1 + part2;
    lemma_balanced_concat(upto2, part3);
    let upto3 = upto2 + part3;
    lemma_balanced_concat(upto3, part4);
    let upto4 = upto3 + part4;
    lemma_balanced_concat(upto4, part5);
    let upto5 = upto4 + part5;
    lemma_balanced_concat(upto5, part6);
    let upto6 = upto5 + part6;
    lemma_balanced_concat(upto6, part7);
    let upto7 = upto6 + part7;
    lemma_balanced_concat(upto7, part8);
    let upto8 = upto7 + part8;
    lemma_balanced_concat(upto8, part9);
    let upto9 = upto8 + part9;
    lemma_balanced_concat(upto9, part10);
    let upto10 = upto9 + part10;
    lemma_balanced_concat(upto10, part11);
    let upto11 = upto10 + part11;
    lemma_balanced_concat(upto11, part12);
    let upto12 = upto11 + part12;
    assert(module_tokens(ci, config) =~= upto12);
}

/// The tokens of a module stay within the depth that the formatter can
/// hold: a module that is generated is never refused for its depth.
pub proof fn lemma_module_within_depth(ci: ComponentInterface, config: Config)
    ensures
        within_depth(module_tokens(ci, config)),
{
    lemma_module_balanced(ci, config);
    crate::template::lemma_stays_within_depth(module_tokens(ci, config));
}

} // verus!
