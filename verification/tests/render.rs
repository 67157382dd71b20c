use uniffi_dart::ffi::{uniffi_function_definitions, LibraryLoading};
use uniffi_dart::guard::render_guard;
use uniffi_dart::interface::{Checksum, ComponentInterface, FfiArgument, FfiFunction, FfiType};
use uniffi_dart::template::{expand, fill, join_all};
use uniffi_dart::tokens::{render_text, RenderError, Token};

fn literal(text: &str) -> Token {
    Token::Literal(text.to_string())
}

fn function(
    name: &str,
    arguments: &[(&str, FfiType)],
    return_type: Option<FfiType>,
    has_call_status: bool,
) -> FfiFunction {
    FfiFunction {
        name: name.to_string(),
        arguments: arguments
            .iter()
            .map(|(name, ty)| FfiArgument { name: name.to_string(), ty: *ty })
            .collect(),
        return_type,
        has_call_status,
    }
}

fn interface() -> ComponentInterface {
    ComponentInterface {
        namespace: "demo".to_string(),
        contract_version: 26,
        contract_version_symbol: "ffi_demo_uniffi_contract_version".to_string(),
        functions: vec![],
        records: vec![],
        enums: vec![],
        objects: vec![],
        callback_interfaces: vec![],
        custom_types: vec![],
        ffi_functions: vec![],
        checksums: vec![],
    }
}

#[test]
fn tokens_are_laid_out_by_the_formatter() {
    let tokens = vec![
        Token::Push,
        literal("class A {"),
        Token::Indent,
        Token::Push,
        literal("int x;"),
        Token::Unindent,
        Token::Push,
        literal("}"),
    ];
    assert_eq!(render_text(&tokens, 4), Ok("class A {\n    int x;\n}\n".to_string()));
    assert_eq!(render_text(&tokens, 2), Ok("class A {\n  int x;\n}\n".to_string()));
    assert_eq!(render_text(&tokens, 100), Ok(format!("class A {{\n{}int x;\n}}\n", " ".repeat(16))));
}

#[test]
fn white_space_is_merged_as_the_formatter_does() {
    let tokens = vec![
        literal("a"),
        Token::Space,
        Token::Space,
        literal("b"),
        Token::Push,
        Token::Push,
        literal("c"),
        Token::Push,
        Token::Line,
        Token::Push,
        literal("d"),
    ];
    assert_eq!(render_text(&tokens, 4), Ok("a b\nc\n\nd\n".to_string()));
}

#[test]
fn a_quoted_token_is_a_string_literal_of_the_target_language() {
    let tokens = vec![
        literal("const x ="),
        Token::Space,
        Token::Quoted("a\"b$c\\d\n".to_string()),
        literal(";"),
    ];
    assert_eq!(render_text(&tokens, 4), Ok("const x = \"a\\\"b\\$c\\\\d\\n\";\n".to_string()));
}

#[test]
fn a_list_that_is_too_deep_is_refused() {
    let mut tokens: Vec<Token> = Vec::new();
    for _ in 0..8000 {
        tokens.push(Token::Indent);
    }
    tokens.push(literal("x"));
    assert!(render_text(&tokens, 0).is_ok());
    tokens.insert(0, Token::Indent);
    assert_eq!(render_text(&tokens, 0), Err(RenderError::TooDeep));
    let mut down: Vec<Token> = Vec::new();
    for _ in 0..8001 {
        down.push(Token::Unindent);
    }
    assert_eq!(render_text(&down, 4), Err(RenderError::TooDeep));
}

#[test]
fn slots_are_filled_in() {
    let slots = vec!["A".to_string(), "int".to_string()];
    assert_eq!(fill("class $0 { $1 x; $1 y; }", &slots), "class A { int x; int y; }");
    assert_eq!(fill("costs $$5 and $2 and $", &slots), "costs $5 and 2 and $");
    assert_eq!(fill("", &slots), "");
    assert_eq!(join_all(&slots, ", "), "A, int");
    assert_eq!(join_all(&vec![], ", "), "");
}

#[test]
fn a_template_keeps_its_lines_and_levels() {
    let template: [(u8, &'static str); 6] = [
        (0, "class $0 {"),
        (1, "void f() {"),
        (2, "g();"),
        (1, "}"),
        (1, ""),
        (0, "}"),
    ];
    let mut tokens = Vec::new();
    expand(&template, &vec!["A".to_string()], &mut tokens);
    expand(&template, &vec!["B".to_string()], &mut tokens);
    assert_eq!(
        render_text(&tokens, 2),
        Ok("class A {\n  void f() {\n    g();\n  }\n\n}\nclass B {\n  void f() {\n    g();\n  }\n\n}\n"
            .to_string())
    );
}

#[test]
fn a_symbol_is_declared_once() {
    let functions = vec![
        function("f", &[("x", FfiType::Int32)], Some(FfiType::Int8), true),
        function("g", &[], None, false),
        function("f", &[("y", FfiType::Float64)], None, false),
        function("h", &[("a", FfiType::RustBuffer), ("b", FfiType::Handle)], Some(FfiType::RustBuffer), false),
        function("g", &[], None, true),
    ];
    let mut tokens = Vec::new();
    uniffi_function_definitions(&functions, LibraryLoading::RegisteredAssets, &mut tokens);
    let text = render_text(&tokens, 4).unwrap();
    assert_eq!(
        text,
        "@Native<Int8 Function(Int32, Pointer<RustCallStatus>)>(assetId: _uniffiAssetId)\n\
         external int f(int x, Pointer<RustCallStatus> uniffiStatus);\n\
         \n\
         @Native<Void Function()>(assetId: _uniffiAssetId)\n\
         external void g();\n\
         \n\
         @Native<RustBuffer Function(RustBuffer, Pointer<Void>)>(assetId: _uniffiAssetId)\n\
         external RustBuffer h(RustBuffer a, Pointer<Void> b);\n"
    );
    assert_eq!(text.matches("external").count(), 3);
}

#[test]
fn a_symbol_is_looked_up_once_in_an_opened_library() {
    let functions = vec![
        function("f", &[("x", FfiType::UInt64)], Some(FfiType::Float32), true),
        function("f", &[], None, false),
    ];
    let mut tokens = Vec::new();
    uniffi_function_definitions(&functions, LibraryLoading::RelativeDirectory, &mut tokens);
    assert_eq!(
        render_text(&tokens, 2),
        Ok("final double Function(int x, Pointer<RustCallStatus> uniffiStatus) f =\n  \
            _uniffiLibrary.lookupFunction<Float Function(Uint64, Pointer<RustCallStatus>), \
            double Function(int x, Pointer<RustCallStatus> uniffiStatus)>(\"f\");\n"
            .to_string())
    );
}

#[test]
fn the_guard_checks_the_version_and_every_checksum() {
    let mut ci = interface();
    ci.checksums = vec![
        Checksum { symbol: "uniffi_demo_checksum_func_f".to_string(), expected: 12345 },
        Checksum { symbol: "uniffi_demo_checksum_func_g".to_string(), expected: 0 },
    ];
    let mut tokens = Vec::new();
    render_guard(&ci, &mut tokens);
    assert_eq!(
        render_text(&tokens, 4),
        Ok("void _checkApiVersion() {\n    \
            final bindingsVersion = 26;\n    \
            final scaffoldingVersion = ffi_demo_uniffi_contract_version();\n    \
            if (bindingsVersion != scaffoldingVersion) {\n        \
            throw UniffiInternalError.panicked(\"UniFFI contract version mismatch: bindings version $bindingsVersion, scaffolding version $scaffoldingVersion\");\n    \
            }\n\
            }\n\
            \n\
            void _checkApiChecksums() {\n    \
            if (uniffi_demo_checksum_func_f() != 12345) {\n        \
            throw UniffiInternalError.panicked(\"UniFFI API checksum mismatch\");\n    \
            }\n    \
            if (uniffi_demo_checksum_func_g() != 0) {\n        \
            throw UniffiInternalError.panicked(\"UniFFI API checksum mismatch\");\n    \
            }\n\
            }\n\
            \n\
            bool _initialize() {\n    \
            _checkApiVersion();\n    \
            _checkApiChecksums();\n    \
            return true;\n\
            }\n\
            \n\
            final bool _initialized = _initialize();\n\
            \n\
            void ensureInitialized() {\n    \
            _initialized;\n\
            }\n"
            .to_string())
    );
}
