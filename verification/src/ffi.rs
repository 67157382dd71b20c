//! The native declarations of the generated module: one external
//! declaration for every native symbol, and never two for the same symbol.

use vstd::prelude::*;
use crate::dedup::{declared, first_places};
use crate::interface::{FfiArgument, FfiFunction, FfiType};
use crate::template::{
    balanced,
    expand,
    expanded,
    lemma_balanced_concat,
    lemma_expanded_balanced,
    slot_texts,
    TemplateLine,
};
use crate::text::join3;
use crate::tokens::{Token, token_models, TokenModel};

verus! {

/// The symbol names of `functions`, in order.
pub open spec fn symbols(functions: Seq<FfiFunction>) -> Seq<Seq<char>> {
    Seq::new(functions.len(), |i: int| functions[i].name@)
}

/// The symbol names of `functions`, in order.
fn symbol_names(functions: &Vec<FfiFunction>) -> (names: Vec<String>)
    ensures
        slot_texts(names@) == symbols(functions@),
        names@.len() == functions@.len(),
{
    let mut names: Vec<String> = Vec::new();
    let mut i: usize = 0;
    while i < functions.len()
        invariant
            i <= functions.len(),
            names@.len() == i,
            forall|k: int| 0 <= k < i ==> (#[trigger] names@[k])@ == functions@[k].name@,
        decreases functions.len() - i,
    {
        names.push(functions[i].name.clone());
        i = i + 1;
    }
    assert(slot_texts(names@) =~= symbols(functions@));
    names
}

/// The places of `functions` that get a declaration: for each symbol the
/// first function that has it.
pub fn declared_places(functions: &Vec<FfiFunction>) -> (places: Vec<usize>)
    ensures
        places@.len() == declared(symbols(functions@)).len(),
        forall|k: int|
            0 <= k < places@.len() ==> (#[trigger] places@[k]) as int == declared(
                symbols(functions@),
            )[k],
        forall|k: int| 0 <= k < places@.len() ==> (#[trigger] places@[k]) < functions@.len(),
{
    let names = symbol_names(functions);
    first_places(&names)
}

/// The name of a native type in a native signature.
pub open spec fn native_label(ty: Option<FfiType>) -> Seq<char> {
    match ty {
        None => "Void"@,
        Some(FfiType::Int8) => "Int8"@,
        Some(FfiType::UInt8) => "Uint8"@,
        Some(FfiType::Int16) => "Int16"@,
        Some(FfiType::UInt16) => "Uint16"@,
        Some(FfiType::Int32) => "Int32"@,
        Some(FfiType::UInt32) => "Uint32"@,
        Some(FfiType::Int64) => "Int64"@,
        Some(FfiType::UInt64) => "Uint64"@,
        Some(FfiType::Float32) => "Float"@,
        Some(FfiType::Float64) => "Double"@,
        Some(FfiType::Handle) => "Pointer<Void>"@,
        Some(FfiType::RustBuffer) => "RustBuffer"@,
        Some(FfiType::ForeignBytes) => "ForeignBytes"@,
        Some(FfiType::CallStatus) => "Pointer<RustCallStatus>"@,
        Some(FfiType::VoidPointer) => "Pointer<Void>"@,
    }
}

/// The name of a native type as the host language sees it.
pub open spec fn host_label(ty: Option<FfiType>) -> Seq<char> {
    match ty {
        None => "void"@,
        Some(FfiType::Float32) | Some(FfiType::Float64) => "double"@,
        Some(FfiType::Handle) | Some(FfiType::VoidPointer) => "Pointer<Void>"@,
        Some(FfiType::RustBuffer) => "RustBuffer"@,
        Some(FfiType::ForeignBytes) => "ForeignBytes"@,
        Some(FfiType::CallStatus) => "Pointer<RustCallStatus>"@,
        Some(_) => "int"@,
    }
}

/// The name of a native type in a native signature; `Void` for no result.
pub fn ffi_native_type_label(ty: Option<FfiType>) -> (label: &'static str)
    ensures
        label@ == native_label(ty),
{
    match ty {
        None => "Void",
        Some(FfiType::Int8) => "Int8",
        Some(FfiType::UInt8) => "Uint8",
        Some(FfiType::Int16) => "Int16",
        Some(FfiType::UInt16) => "Uint16",
        Some(FfiType::Int32) => "Int32",
        Some(FfiType::UInt32) => "Uint32",
        Some(FfiType::Int64) => "Int64",
        Some(FfiType::UInt64) => "Uint64",
        Some(FfiType::Float32) => "Float",
        Some(FfiType::Float64) => "Double",
        Some(FfiType::Handle) => "Pointer<Void>",
        Some(FfiType::RustBuffer) => "RustBuffer",
        Some(FfiType::ForeignBytes) => "ForeignBytes",
        Some(FfiType::CallStatus) => "Pointer<RustCallStatus>",
        Some(FfiType::VoidPointer) => "Pointer<Void>",
    }
}

/// The name of a native type as the host language sees it; `void` for no result.
pub fn ffi_dart_type_label(ty: Option<FfiType>) -> (label: &'static str)
    ensures
        label@ == host_label(ty),
{
    match ty {
        None => "void",
        Some(FfiType::Float32) | Some(FfiType::Float64) => "double",
        Some(FfiType::Handle) | Some(FfiType::VoidPointer) => "Pointer<Void>",
        Some(FfiType::RustBuffer) => "RustBuffer",
        Some(FfiType::ForeignBytes) => "ForeignBytes",
        Some(FfiType::CallStatus) => "Pointer<RustCallStatus>",
        Some(_) => "int",
    }
}

/// The native types of the arguments before `end`, with a comma and a space
/// between two.
pub open spec fn native_arguments(arguments: Seq<FfiArgument>, end: int) -> Seq<char>
    decreases end,
{
    if end <= 0 {
        Seq::empty()
    } else if end == 1 {
        native_label(Some(arguments[0].ty))
    } else {
        native_arguments(arguments, end - 1) + ", "@ + native_label(Some(arguments[end - 1].ty))
    }
}

/// The arguments before `end` as the host language declares them, each its
/// type and its name, with a comma and a space between two.
pub open spec fn host_arguments(arguments: Seq<FfiArgument>, end: int) -> Seq<char>
    decreases end,
{
    if end <= 0 {
        Seq::empty()
    } else if end == 1 {
        host_label(Some(arguments[0].ty)) + " "@ + arguments[0].name@
    } else {
        host_arguments(arguments, end - 1) + ", "@ + host_label(Some(arguments[end - 1].ty))
            + " "@ + arguments[end - 1].name@
    }
}

/// `list` with the call-status argument `status` at its end, where the
/// function takes one.
pub open spec fn with_status(list: Seq<char>, has_call_status: bool, status: Seq<char>) -> Seq<
    char,
> {
    if !has_call_status {
        list
    } else if list.len() == 0 {
        status
    } else {
        list + ", "@ + status
    }
}

/// The texts that the declaration of `function` is made of: its native
/// result, its native arguments, its result and its name in the host
/// language, and its arguments there.
pub open spec fn declaration_slots(function: FfiFunction) -> Seq<Seq<char>> {
    seq![
        native_label(function.return_type),
        with_status(
            native_arguments(function.arguments@, function.arguments@.len() as int),
            function.has_call_status,
            "Pointer<RustCallStatus>"@,
        ),
        host_label(function.return_type),
        function.name@,
        with_status(
            host_arguments(function.arguments@, function.arguments@.len() as int),
            function.has_call_status,
            "Pointer<RustCallStatus> uniffiStatus"@,
        ),
    ]
}

/// How the generated module finds the compiled library.
#[derive(Clone, Copy, Debug, PartialEq, Eq, Structural)]
pub enum LibraryLoading {
    /// It opens the library by its file name, which depends on the
    /// platform, in the directories that the platform searches.
    RelativeDirectory,
    /// It leaves the library to the assets that the process has registered.
    RegisteredAssets,
}

/// The way of loading that a setting names, if it names one.
pub open spec fn loading_named(setting: Seq<char>) -> Option<LibraryLoading> {
    if setting == "relative-directory"@ {
        Some(LibraryLoading::RelativeDirectory)
    } else if setting == "registered-assets"@ {
        Some(LibraryLoading::RegisteredAssets)
    } else {
        None
    }
}

impl LibraryLoading {
    /// The way of loading that the setting `setting` names:
    /// `relative-directory` or `registered-assets`.
    pub fn from_setting(setting: &str) -> (loading: Option<LibraryLoading>)
        ensures
            loading == loading_named(setting@),
    {
        let given = setting.to_owned();
        if given == "relative-directory".to_owned() {
            Some(LibraryLoading::RelativeDirectory)
        } else if given == "registered-assets".to_owned() {
            Some(LibraryLoading::RegisteredAssets)
        } else {
            None
        }
    }
}

/// The declaration of one native function that is found among the
/// registered assets.
pub const DECLARATION: [TemplateLine; 3] = [
    (0, "@Native<$0 Function($1)>(assetId: _uniffiAssetId)"),
    (0, "external $2 $3($4);"),
    (0, ""),
];

/// The declaration of one native function that is looked up in the opened
/// library.
pub const LOOKUP: [TemplateLine; 3] = [
    (0, "final $2 Function($4) $3 ="),
    (1, "_uniffiLibrary.lookupFunction<$0 Function($1), $2 Function($4)>(\"$3\");"),
    (0, ""),
];

/// The template of a declaration under a way of loading.
pub open spec fn declaration_template(loading: LibraryLoading) -> Seq<TemplateLine> {
    match loading {
        LibraryLoading::RegisteredAssets => DECLARATION@,
        LibraryLoading::RelativeDirectory => LOOKUP@,
    }
}

/// The tokens of the declarations of the functions at `places`, in order.
pub open spec fn declaration_tokens(
    functions: Seq<FfiFunction>,
    places: Seq<int>,
    loading: LibraryLoading,
) -> Seq<TokenModel>
    decreases places.len(),
{
    if places.len() == 0 {
        Seq::empty()
    } else {
        declaration_tokens(functions, places.drop_last(), loading) + expanded(
            declaration_template(loading),
            declaration_slots(functions[places.last()]),
        )
    }
}

/// The tokens of the native declarations of the module: one for each symbol
/// of `functions`, in the order in which the symbols first occur.
pub open spec fn native_declarations(
    functions: Seq<FfiFunction>,
    loading: LibraryLoading,
) -> Seq<TokenModel> {
    declaration_tokens(functions, declared(symbols(functions)), loading)
}

/// Adds the call-status argument `status` to `list`, where the function
/// takes one.
fn add_status(list: String, has_call_status: bool, status: &str) -> (out: String)
    ensures
        out@ == with_status(list@, has_call_status, status@),
{
    if !has_call_status {
        list
    } else if list.as_str().is_empty() {
        status.to_owned()
    } else {
        join3(list.as_str(), ", ", status)
    }
}

/// The texts that the declaration of `function` is made of.
fn slots_of(function: &FfiFunction) -> (slots: Vec<String>)
    ensures
        slot_texts(slots@) == declaration_slots(*function),
{
    let mut native = String::new();
    let mut host = String::new();
    let mut i: usize = 0;
    while i < function.arguments.len()
        invariant
            i <= function.arguments.len(),
            native@ == native_arguments(function.arguments@, i as int),
            host@ == host_arguments(function.arguments@, i as int),
        decreases function.arguments.len() - i,
    {
        let argument = &function.arguments[i];
        let native_type = ffi_native_type_label(Some(argument.ty));
        let host_type = join3(ffi_dart_type_label(Some(argument.ty)), " ", argument.name.as_str());
        if i == 0 {
            native = native_type.to_owned();
            host = host_type;
        } else {
            native = join3(native.as_str(), ", ", native_type);
            host = join3(host.as_str(), ", ", host_type.as_str());
            assert(host@ =~= host_arguments(function.arguments@, i + 1));
        }
        i = i + 1;
    }
    let mut slots: Vec<String> = Vec::new();
    slots.push(ffi_native_type_label(function.return_type).to_owned());
    slots.push(add_status(native, function.has_call_status, "Pointer<RustCallStatus>"));
    slots.push(ffi_dart_type_label(function.return_type).to_owned());
    slots.push(function.name.clone());
    slots.push(add_status(host, function.has_call_status, "Pointer<RustCallStatus> uniffiStatus"));
    assert(slot_texts(slots@) =~= declaration_slots(*function));
    slots
}

/// Appends the native declarations of the module: one for each symbol of
/// `functions`, in the order in which the symbols first occur. A function
/// whose symbol an earlier one has gets none.
pub fn uniffi_function_definitions(
    functions: &Vec<FfiFunction>,
    loading: LibraryLoading,
    out: &mut Vec<Token>,
)
    ensures
        token_models(final(out)@) == token_models(old(out)@) + native_declarations(
            functions@,
            loading,
        ),
{
    let ghost start = token_models(out@);
    let places = declared_places(functions);
    let ghost all = declared(symbols(functions@));
    let mut k: usize = 0;
    assert(all.take(0) =~= Seq::<int>::empty());
    assert(start + declaration_tokens(functions@, all.take(0), loading) =~= start);
    while k < places.len()
        invariant
            k <= places@.len() == all.len(),
            all == declared(symbols(functions@)),
            forall|m: int| 0 <= m < places@.len() ==> (#[trigger] places@[m]) as int == all[m],
            forall|m: int| 0 <= m < places@.len() ==> (#[trigger] places@[m]) < functions@.len(),
            token_models(out@) == start + declaration_tokens(
                functions@,
                all.take(k as int),
                loading,
            ),
        decreases places.len() - k,
    {
        let ghost before = token_models(out@);
        let slots = slots_of(&functions[places[k]]);
        match loading {
            LibraryLoading::RegisteredAssets => expand(&DECLARATION, &slots, out),
            LibraryLoading::RelativeDirectory => expand(&LOOKUP, &slots, out),
        }
        proof {
            assert(all.take(k + 1).drop_last() =~= all.take(k as int));
            assert(all.take(k + 1).last() == places@[k as int] as int);
            assert(token_models(out@) =~= start + declaration_tokens(
                functions@,
                all.take(k + 1),
                loading,
            ));
        }
        k = k + 1;
    }
    assert(all.take(places@.len() as int) =~= all);
}

/// The tokens of native declarations are balanced.
pub proof fn lemma_declarations_balanced(
    functions: Seq<FfiFunction>,
    places: Seq<int>,
    loading: LibraryLoading,
)
    ensures
        balanced(declaration_tokens(functions, places, loading)),
    decreases places.len(),
{
    if places.len() > 0 {
        lemma_declarations_balanced(functions, places.drop_last(), loading);
        lemma_expanded_balanced(
            declaration_template(loading),
            declaration_slots(functions[places.last()]),
        );
        lemma_balanced_concat(
            declaration_tokens(functions, places.drop_last(), loading),
            expanded(declaration_template(loading), declaration_slots(functions[places.last()])),
        );
    }
}

} // verus!
