//! The files of a generation run: one module for each namespace.

use vstd::prelude::*;
use crate::gen::scopes::{all_collision_free, is_first_clash, scopes_of};
use crate::gen::types::references;
use crate::gen::{
    Config,
    DartWrapper,
    GenerationError,
    is_first_unresolved,
    module_tokens,
    well_formed,
};
use crate::interface::ComponentInterface;
use crate::text::join2;
use crate::tokens::{dart_file_text, render_text, stream_of};

verus! {

/// The settings of a generation run.
#[derive(Debug, PartialEq, Eq)]
pub struct GenerationSettings {
    /// The directory that the files are written to.
    pub out_dir: String,
    /// Whether the text is laid out for the formatter that runs afterwards.
    pub try_format_code: bool,
    /// The name of the compiled library, where the run is given one.
    pub cdylib: Option<String>,
}

/// A namespace of a generation run: its description and its settings.
#[derive(Debug, PartialEq, Eq)]
pub struct Component {
    pub ci: ComponentInterface,
    pub config: Config,
}

/// A file of a generation run.
#[derive(Debug, PartialEq, Eq)]
pub struct OutputFile {
    /// The name of the file in the output directory.
    pub name: String,
    pub text: String,
}

/// The failure of a generation run.
#[derive(Clone, Copy, Debug, PartialEq, Eq, Structural)]
pub struct BindingsError {
    /// The place of the namespace that failed.
    pub component: usize,
    /// What is wrong with the description of the namespace.
    pub why: GenerationError,
}

/// The number of spaces to a level of indentation: 2 where the text is
/// laid out for the formatter, else 4.
pub open spec fn indentation(settings: GenerationSettings) -> nat {
    if settings.try_format_code {
        2
    } else {
        4
    }
}

/// The name of the file of a namespace.
pub open spec fn file_name(ci: ComponentInterface) -> Seq<char> {
    ci.namespace@ + ".dart"@
}

/// The text of the file of a namespace.
pub open spec fn file_text(component: Component, settings: GenerationSettings) -> Seq<char> {
    dart_file_text(
        stream_of(module_tokens(component.ci, component.config)),
        indentation(settings),
    )
}

/// Whether `file` is the file of `component`.
pub open spec fn is_file_of(
    file: OutputFile,
    component: Component,
    settings: GenerationSettings,
) -> bool {
    &&& well_formed(component.ci)
    &&& file.name@ == file_name(component.ci)
    &&& file.text@ == file_text(component, settings)
}

/// Whether `why` is what is wrong with the description of `component`:
/// its first clash of names, or, where the names are free of clashes, its
/// first type reference that cannot stand.
pub open spec fn is_failure_of(why: GenerationError, component: Component) -> bool {
    match why {
        GenerationError::NameClash(found) => is_first_clash(scopes_of(component.ci), found),
        GenerationError::Unresolved(found) => all_collision_free(scopes_of(component.ci))
            && is_first_unresolved(component.ci, references(component.ci), found),
    }
}

/// A description with something wrong is not well formed.
pub proof fn lemma_failure_excludes_well_formed(why: GenerationError, component: Component)
    requires
        is_failure_of(why, component),
    ensures
        !well_formed(component.ci),
{
    match why {
        GenerationError::NameClash(found) => {
            crate::gen::scopes::lemma_clash_excludes_freedom(scopes_of(component.ci), found);
        },
        GenerationError::Unresolved(found) => {
            assert(!crate::gen::resolvable(
                component.ci,
                references(component.ci)[found.reference as int],
            ));
        },
    }
}

/// Generating twice from the same description and settings gives the same
/// file: the same name and the same text, byte for byte.
pub proof fn lemma_generation_is_deterministic(
    first: OutputFile,
    second: OutputFile,
    component: Component,
    settings: GenerationSettings,
)
    requires
        is_file_of(first, component, settings),
        is_file_of(second, component, settings),
    ensures
        first.name@ == second.name@,
        first.text@ == second.text@,
{
}

/// The name of the compiled library of a namespace where neither its
/// settings nor the run name one: `uniffi_` and the namespace.
pub open spec fn library_default(settings: GenerationSettings, ci: ComponentInterface) -> Seq<
    char,
> {
    match settings.cdylib {
        Some(name) => name@,
        None => "uniffi_"@ + ci.namespace@,
    }
}

/// Whether `after` is `before` with the library named where it had no name.
pub open spec fn is_completed(
    after: Component,
    before: Component,
    settings: GenerationSettings,
) -> bool {
    &&& after.ci == before.ci
    &&& after.config.package_setting() == before.config.package_setting()
    &&& after.config.asset_setting() == before.config.asset_setting()
    &&& after.config.redirections() == before.config.redirections()
    &&& after.config.loading() == before.config.loading()
    &&& after.config.library_setting() == match before.config.library_setting() {
        Some(name) => Some(name),
        None => Some(library_default(settings, before.ci)),
    }
}

/// The generator of Dart bindings.
#[derive(Debug)]
pub struct DartBindingGenerator;

impl DartBindingGenerator {
    /// The file of one namespace. It is made if and only if the description
    /// of the namespace is well formed.
    pub fn render_component(&self, settings: &GenerationSettings, component: &Component) -> (r:
        Result<OutputFile, GenerationError>)
        ensures
            r is Ok <==> well_formed(component.ci),
            match r {
                Ok(file) => is_file_of(file, *component, *settings),
                Err(why) => is_failure_of(why, *component),
            },
    {
        let wrapper = DartWrapper::new(&component.ci, &component.config);
        let tokens = match wrapper.generate() {
            Ok(tokens) => tokens,
            Err(e) => {
                proof {
                    lemma_failure_excludes_well_formed(e, *component);
                }
                return Err(e);
            },
        };
        let width: usize = if settings.try_format_code {
            2
        } else {
            4
        };
        match render_text(&tokens, width) {
            Ok(text) => Ok(
                OutputFile { name: join2(component.ci.namespace.as_str(), ".dart"), text },
            ),
            Err(_) => vstd::pervasive::unreached(),
        }
    }

    /// The files of a generation run: one for each namespace, in their
    /// order. The files are handed out if and only if the description of
    /// every namespace is well formed. Otherwise the run fails as a whole,
    /// with the first namespace whose description is not: no file is handed
    /// out for any namespace.
    pub fn write_bindings(&self, settings: &GenerationSettings, components: &Vec<Component>) -> (r:
        Result<Vec<OutputFile>, BindingsError>)
        ensures
            r is Ok <==> forall|i: int|
                0 <= i < components@.len() ==> well_formed((#[trigger] components@[i]).ci),
            match r {
                Ok(files) => files@.len() == components@.len() && forall|i: int|
                    0 <= i < files@.len() ==> is_file_of(
                        #[trigger] files@[i],
                        components@[i],
                        *settings,
                    ),
                Err(e) => e.component < components@.len() && is_failure_of(
                    e.why,
                    components@[e.component as int],
                ) && forall|i: int|
                    0 <= i < e.component ==> well_formed((#[trigger] components@[i]).ci),
            },
    {
        let mut files: Vec<OutputFile> = Vec::new();
        let mut i: usize = 0;
        while i < components.len()
            invariant
                i <= components.len(),
                files@.len() == i,
                forall|k: int|
                    0 <= k < i ==> is_file_of(#[trigger] files@[k], components@[k], *settings),
            decreases components.len() - i,
        {
            match self.render_component(settings, &components[i]) {
                Ok(file) => {
                    files.push(file);
                },
                Err(why) => {
                    proof {
                        assert forall|k: int| 0 <= k < i implies well_formed(
                            (#[trigger] components@[k]).ci,
                        ) by {
                            assert(is_file_of(files@[k], components@[k], *settings));
                        }
                        assert(!well_formed(components@[i as int].ci));
                    }
                    return Err(BindingsError { component: i, why });
                },
            }
            i = i + 1;
        }
        proof {
            assert forall|k: int| 0 <= k < components@.len() implies well_formed(
                (#[trigger] components@[k]).ci,
            ) by {
                assert(is_file_of(files@[k], components@[k], *settings));
            }
        }
        Ok(files)
    }

    /// Names the compiled library of every namespace that has no name for
    /// it: after the library of the run, or else `uniffi_` and the namespace.
    pub fn update_component_configs(
        &self,
        settings: &GenerationSettings,
        components: &mut Vec<Component>,
    )
        ensures
            final(components)@.len() == old(components)@.len(),
            forall|i: int|
                0 <= i < old(components)@.len() ==> is_completed(
                    #[trigger] final(components)@[i],
                    old(components)@[i],
                    *settings,
                ),
    {
        let ghost before = components@;
        let mut i: usize = 0;
        while i < components.len()
            invariant
                i <= components@.len() == before.len(),
                forall|k: int|
                    0 <= k < i ==> is_completed(#[trigger] components@[k], before[k], *settings),
                forall|k: int| i <= k < before.len() ==> components@[k] == before[k],
            decreases components.len() - i,
        {
            let ghost current = components@;
            let component = components.remove(i);
            let name = match &settings.cdylib {
                Some(name) => name.clone(),
                None => join2("uniffi_", component.ci.namespace.as_str()),
            };
            let updated = Component {
                ci: component.ci,
                config: component.config.with_library_default(name),
            };
            assert(is_completed(updated, before[i as int], *settings));
            components.insert(i, updated);
            assert(components@ =~= current.update(i as int, updated));
            i = i + 1;
        }
    }
}

} // verus!
