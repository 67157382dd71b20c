use uniffi_dart::ffi::LibraryLoading;
use uniffi_dart::gen::bindings::{
    BindingsError, Component, DartBindingGenerator, GenerationSettings,
};
use uniffi_dart::gen::code_type::{CodeType, Renderable};
use uniffi_dart::gen::oracle::{canonical_name, converter_name, type_label};
use uniffi_dart::gen::primitives::string::StringCodeType;
use uniffi_dart::gen::records::render_record;
use uniffi_dart::gen::scopes::ScopeClash;
use uniffi_dart::gen::{Config, DartWrapper, GenerationError, Unresolved};
use uniffi_dart::gen::literals::literal_text;
use uniffi_dart::interface::{
    Checksum, ComponentInterface, CustomType, Enum, FfiArgument, FfiFunction, FfiType, Field,
    Function, Literal, Object, Record, Type, Variant,
};
use uniffi_dart::naming::Clash;
use uniffi_dart::registry::{ffi_type_of, resolve, ResolveError};
use uniffi_dart::tokens::render_text;
use uniffi_dart::value::{Layout, Primitive};

fn field(name: &str, ty: Type) -> Field {
    Field { name: name.to_string(), ty, default: None }
}

fn text() -> Type {
    Type::Primitive(Primitive::String)
}

fn person() -> Record {
    Record {
        name: "person".to_string(),
        fields: vec![field("name", text()), field("age", Type::Primitive(Primitive::UInt32))],
    }
}

fn status() -> Enum {
    Enum {
        name: "user_status".to_string(),
        variants: vec![
            Variant { name: "active".to_string(), fields: vec![] },
            Variant { name: "banned".to_string(), fields: vec![field("reason", text())] },
        ],
    }
}

fn greet() -> Function {
    Function {
        name: "greet_all".to_string(),
        arguments: vec![
            field("people", Type::Sequence(Box::new(Type::Record("person".to_string())))),
            field("loud", Type::Primitive(Primitive::Bool)),
        ],
        return_type: Some(Type::Optional(Box::new(text()))),
        throws: Some(Type::Enum("user_status".to_string())),
        symbol: "uniffi_demo_fn_func_greet_all".to_string(),
    }
}

fn counter() -> Object {
    Object {
        name: "counter".to_string(),
        constructors: vec![Function {
            name: "new".to_string(),
            arguments: vec![field("initial", Type::Primitive(Primitive::Int32))],
            return_type: Some(Type::Object("counter".to_string())),
            throws: None,
            symbol: "uniffi_demo_fn_constructor_counter_new".to_string(),
        }],
        methods: vec![Function {
            name: "increment".to_string(),
            arguments: vec![],
            return_type: None,
            throws: None,
            symbol: "uniffi_demo_fn_method_counter_increment".to_string(),
        }],
        free_symbol: "uniffi_demo_fn_free_counter".to_string(),
    }
}

fn interface() -> ComponentInterface {
    ComponentInterface {
        namespace: "demo".to_string(),
        contract_version: 26,
        contract_version_symbol: "ffi_demo_uniffi_contract_version".to_string(),
        functions: vec![greet()],
        records: vec![person()],
        enums: vec![status()],
        objects: vec![counter()],
        callback_interfaces: vec![],
        custom_types: vec![CustomType {
            name: "url".to_string(),
            builtin: text(),
            lower_fn: "urlToString".to_string(),
            lift_fn: "Uri.parse".to_string(),
        }],
        ffi_functions: vec![
            FfiFunction {
                name: "uniffi_demo_fn_func_greet_all".to_string(),
                arguments: vec![
                    FfiArgument { name: "people".to_string(), ty: FfiType::RustBuffer },
                    FfiArgument { name: "loud".to_string(), ty: FfiType::Int8 },
                ],
                return_type: Some(FfiType::RustBuffer),
                has_call_status: true,
            },
            FfiFunction {
                name: "uniffi_demo_fn_func_greet_all".to_string(),
                arguments: vec![],
                return_type: None,
                has_call_status: false,
            },
        ],
        checksums: vec![Checksum {
            symbol: "uniffi_demo_checksum_func_greet_all".to_string(),
            expected: 4711,
        }],
    }
}

fn generate(ci: &ComponentInterface, config: &Config) -> Result<String, GenerationError> {
    let tokens = DartWrapper::new(ci, config).generate()?;
    Ok(render_text(&tokens, 2).unwrap())
}

#[test]
fn types_have_labels_and_converters() {
    let list = Type::Sequence(Box::new(Type::Optional(Box::new(Type::Record(
        "user_account".to_string(),
    )))));
    assert_eq!(type_label(&list), "List<UserAccount?>");
    assert_eq!(canonical_name(&list), "SequenceOptionalUserAccount");
    assert_eq!(converter_name(&list), "FfiConverterSequenceOptionalUserAccount");
    let map = Type::Mapping(
        Box::new(text()),
        Box::new(Type::Primitive(Primitive::Float32)),
    );
    assert_eq!(type_label(&map), "Map<String, double>");
    assert_eq!(converter_name(&map), "FfiConverterMapStringToDouble32");
    assert_eq!(type_label(&Type::Primitive(Primitive::Bytes)), "Uint8List");
    assert_eq!(type_label(&Type::Primitive(Primitive::Bool)), "bool");
    assert_eq!(type_label(&Type::Primitive(Primitive::Int64)), "int");
    assert_eq!(converter_name(&Type::Primitive(Primitive::UInt16)), "FfiConverterUInt16");
    assert_eq!(StringCodeType.type_label(), "String");
}

#[test]
fn the_converter_of_text_is_rendered() {
    let text = render_text(&StringCodeType.render_type_helper(), 4).unwrap();
    assert!(text.starts_with(
        "class FfiConverterString {\n    static final Map<String, Uint8List> _utf8Cache = {};\n    static const int _maxCacheSize = 128;\n\n    static final Uint8List _emptyUtf8 = Uint8List(0);\n\n    static Uint8List _getCachedUtf8(String value) {\n        if (value.isEmpty) return _emptyUtf8;\n"
    ));
    assert!(text.contains(
        "    static LiftRetVal<String> read(Uint8List buf) {\n        final end = buf.buffer.asByteData(buf.offsetInBytes).getInt32(0) + 4;\n        return LiftRetVal(utf8.decoder.convert(buf, 4, end), end);\n    }\n"
    ));
    assert!(text.contains("    static int allocationSize([String value = \"\"]) {\n"));
    assert!(text.ends_with(
        "        buf.setAll(4, list);\n        return list.length + 4;\n    }\n}\n"
    ));
}

#[test]
fn a_record_is_a_class_and_a_converter_in_field_order() {
    let mut tokens = Vec::new();
    render_record(&person(), &mut tokens);
    let expected = "\
class Person {
  final String name;
  final int age;

  Person({
    required this.name,
    required this.age,
  });
}

class FfiConverterPerson {
  static Person lift(RustBuffer buf) {
    return read(buf.asUint8List()).value;
  }

  static RustBuffer lower(Person value) {
    final buf = Uint8List(allocationSize(value));
    write(value, buf);
    return toRustBuffer(buf);
  }

  static LiftRetVal<Person> read(Uint8List buf) {
    int offset = 0;
    final name = FfiConverterString.read(Uint8List.view(buf.buffer, buf.offsetInBytes + offset));
    offset += name.bytesRead;
    final age = FfiConverterUInt32.read(Uint8List.view(buf.buffer, buf.offsetInBytes + offset));
    offset += age.bytesRead;
    return LiftRetVal(
      Person(
        name: name.value,
        age: age.value,
      ),
      offset,
    );
  }

  static int allocationSize(Person value) {
    int size = 0;
    size += FfiConverterString.allocationSize(value.name);
    size += FfiConverterUInt32.allocationSize(value.age);
    return size;
  }

  static int write(Person value, Uint8List buf) {
    int offset = 0;
    offset += FfiConverterString.write(value.name, Uint8List.view(buf.buffer, buf.offsetInBytes + offset));
    offset += FfiConverterUInt32.write(value.age, Uint8List.view(buf.buffer, buf.offsetInBytes + offset));
    return offset;
  }
}
";
    assert_eq!(render_text(&tokens, 2).unwrap(), expected);
}

#[test]
fn a_module_holds_every_part_once_and_in_order() {
    let ci = interface();
    let config = Config::from_interface(&ci);
    let text = generate(&ci, &config).unwrap();
    assert!(text.starts_with("library demo;\n\nimport \"dart:convert\";\n"));
    assert!(text.contains("\nconst _uniffiAssetId = \"package:demo/uniffi:demo\";\n"));
    for class in [
        "class FfiConverterString {",
        "class FfiConverterUInt32 {",
        "class FfiConverterBool {",
        "class FfiConverterInt32 {",
        "class FfiConverterSequencePerson {",
        "class FfiConverterOptionalString {",
        "class Person {",
        "class FfiConverterPerson {",
        "abstract class UserStatus {}",
        "class UserStatusActive extends UserStatus {",
        "class UserStatusBanned extends UserStatus {",
        "class FfiConverterUserStatus {",
        "class Counter {",
        "class FfiConverterCounter {",
        "class FfiConverterUrl {",
        "void ensureInitialized() {",
        "external RustBuffer uniffi_demo_fn_func_greet_all(",
    ] {
        assert_eq!(text.matches(class).count(), 1, "{}", class);
    }
    assert!(text.contains(
        "String? greetAll(List<Person> people, bool loud) {\n  return rustCall((status) => FfiConverterOptionalString.lift(uniffi_demo_fn_func_greet_all(FfiConverterSequencePerson.lower(people), FfiConverterBool.lower(loud), status)), UniffiErrorHandler(FfiConverterUserStatus.lift));\n}\n"
    ));
    assert!(text.contains(
        "  static Counter new($0) {".replace("$0", "int initial").as_str()
    ));
    assert!(text.contains(
        "  void increment() {\n    return rustCall((status) => uniffi_demo_fn_method_counter_increment(uniffiHandle(), status), null);\n  }\n"
    ));
    assert!(text.contains("      case 2:\n        final value = UserStatusBanned();\n"));
    assert!(text.contains("  if (uniffi_demo_checksum_func_greet_all() != 4711) {\n"));
    let order = [
        "library demo;",
        "class UniffiInternalError",
        "const _uniffiAssetId",
        "class FfiConverterString {",
        "class Person {",
        "abstract class UserStatus {}",
        "class Counter {",
        "class FfiConverterUrl {",
        "String? greetAll(",
        "@Native<RustBuffer Function(RustBuffer, Int8, Pointer<RustCallStatus>)>",
        "void _checkApiVersion() {",
    ];
    let mut last = 0;
    for part in order {
        let at = text.find(part).unwrap();
        assert!(at >= last, "{}", part);
        last = at;
    }
}

#[test]
fn generating_twice_gives_the_same_text() {
    let ci = interface();
    let config = Config::from_interface(&ci);
    assert_eq!(generate(&ci, &config), generate(&interface(), &Config::from_interface(&ci)));
}

#[test]
fn the_library_can_be_opened_by_its_file_name() {
    let ci = interface();
    let config = Config::new(None, Some("demo_core".to_string()), vec![], None)
        .with_loading(LibraryLoading::RelativeDirectory);
    let text = generate(&ci, &config).unwrap();
    assert!(text.starts_with("library uniffi;\n"));
    assert!(text.contains("    return DynamicLibrary.open(\"libdemo_core.so\");\n"));
    assert!(text.contains("    return DynamicLibrary.open(\"demo_core.dll\");\n"));
    assert!(text.contains("_uniffiLibrary.lookupFunction<RustBuffer Function("));
    assert!(!text.contains("_uniffiAssetId"));
}

#[test]
fn two_identifiers_of_one_name_are_refused() {
    let mut ci = interface();
    ci.records.push(Record { name: "Person".to_string(), fields: vec![] });
    assert_eq!(
        generate(&ci, &Config::default()),
        Err(GenerationError::NameClash(ScopeClash {
            scope: 0,
            clash: Clash { first: 0, second: 1 }
        }))
    );
    let mut ci = interface();
    ci.records[0].fields.push(field("Age", Type::Primitive(Primitive::UInt8)));
    assert_eq!(
        generate(&ci, &Config::default()),
        Err(GenerationError::NameClash(ScopeClash {
            scope: 2,
            clash: Clash { first: 1, second: 2 }
        }))
    );
}

#[test]
fn a_reference_without_a_declaration_is_refused() {
    let mut ci = interface();
    ci.records[0].fields.push(field("pet", Type::Optional(Box::new(Type::Record("pet".to_string())))));
    assert_eq!(
        generate(&ci, &Config::default()),
        Err(GenerationError::Unresolved(Unresolved {
            reference: 2,
            why: ResolveError::Undeclared
        }))
    );
    let mut ci = interface();
    ci.records[0].fields.push(field("boss", Type::Record("person".to_string())));
    assert_eq!(
        generate(&ci, &Config::default()),
        Err(GenerationError::Unresolved(Unresolved { reference: 2, why: ResolveError::Cyclic }))
    );
    let mut ci = interface();
    ci.records[0].fields.push(field("elsewhere", Type::External("other_thing".to_string(), "other".to_string())));
    assert!(generate(&ci, &Config::default()).is_ok());
}

#[test]
fn references_resolve_to_layouts() {
    let ci = interface();
    assert_eq!(
        resolve(&ci, &Type::Sequence(Box::new(Type::Record("person".to_string())))),
        Ok(Layout::Sequence(Box::new(Layout::Record(vec![
            Layout::Primitive(Primitive::String),
            Layout::Primitive(Primitive::UInt32),
        ]))))
    );
    assert_eq!(
        resolve(&ci, &Type::Enum("user_status".to_string())),
        Ok(Layout::Enum(vec![vec![], vec![Layout::Primitive(Primitive::String)]]))
    );
    assert_eq!(resolve(&ci, &Type::Object("counter".to_string())), Ok(Layout::Handle));
    assert_eq!(
        resolve(&ci, &Type::Custom("url".to_string())),
        Ok(Layout::Primitive(Primitive::String))
    );
    assert_eq!(
        resolve(&ci, &Type::CallbackInterface("counter".to_string())),
        Err(ResolveError::Undeclared)
    );
    assert_eq!(
        resolve(&ci, &Type::Mapping(Box::new(text()), Box::new(Type::Enum("nope".to_string())))),
        Err(ResolveError::Undeclared)
    );
    assert_eq!(resolve(&ci, &Type::External("x".to_string(), "y".to_string())), Err(ResolveError::External));
    assert_eq!(ffi_type_of(&Layout::Primitive(Primitive::Bool)), FfiType::Int8);
    assert_eq!(ffi_type_of(&Layout::Primitive(Primitive::Float64)), FfiType::Float64);
    assert_eq!(ffi_type_of(&Layout::Handle), FfiType::Handle);
    assert_eq!(ffi_type_of(&Layout::Primitive(Primitive::String)), FfiType::RustBuffer);
    assert_eq!(ffi_type_of(&Layout::Record(vec![])), FfiType::RustBuffer);
}

#[test]
fn settings_fall_back_to_defaults() {
    let config = Config::default();
    assert_eq!(config.package_name(), "uniffi");
    assert_eq!(config.cdylib_name(), "uniffi");
    assert_eq!(config.asset_id(), "uniffi:uniffi");
    assert_eq!(config.library_loading(), LibraryLoading::RegisteredAssets);
    let config = Config::new(
        Some("pkg".to_string()),
        Some("core".to_string()),
        vec![("a".to_string(), "one".to_string()), ("b".to_string(), "two".to_string())],
        None,
    );
    assert_eq!(config.package_name(), "pkg");
    assert_eq!(config.cdylib_name(), "core");
    assert_eq!(config.asset_id(), "uniffi:core");
    assert_eq!(config.external_package("a"), Some("one".to_string()));
    assert_eq!(config.external_package("b"), Some("two".to_string()));
    assert_eq!(config.external_package("c"), None);
    let config = Config::new(None, None, vec![], Some("assets/core".to_string()));
    assert_eq!(config.asset_id(), "assets/core");
    let ci = interface();
    let config = Config::from_interface(&ci);
    assert_eq!(config.package_name(), "demo");
    assert_eq!(config.cdylib_name(), "demo");
}

fn settings(try_format_code: bool, cdylib: Option<&str>) -> GenerationSettings {
    GenerationSettings {
        out_dir: "out".to_string(),
        try_format_code,
        cdylib: cdylib.map(|s| s.to_string()),
    }
}

#[test]
fn a_run_makes_one_file_for_each_namespace() {
    let mut second = interface();
    second.namespace = "other".to_string();
    let components = vec![
        Component { ci: interface(), config: Config::default() },
        Component { ci: second, config: Config::default() },
    ];
    let files = DartBindingGenerator.write_bindings(&settings(true, None), &components).unwrap();
    assert_eq!(files.len(), 2);
    assert_eq!(files[0].name, "demo.dart");
    assert_eq!(files[1].name, "other.dart");
    assert!(files[0].text.contains("\n  final String message;\n"));
    let wide = DartBindingGenerator.write_bindings(&settings(false, None), &components).unwrap();
    assert!(wide[0].text.contains("\n    final String message;\n"));
    assert_eq!(files[0].text, generate(&interface(), &Config::default()).unwrap());
}

#[test]
fn a_run_fails_as_a_whole_with_the_first_namespace_that_fails() {
    let mut broken = interface();
    broken.functions[0].arguments[0].ty = Type::Record("nobody".to_string());
    let mut clash = interface();
    clash.functions.push(greet());
    let components = vec![
        Component { ci: interface(), config: Config::default() },
        Component { ci: broken, config: Config::default() },
        Component { ci: clash, config: Config::default() },
    ];
    assert_eq!(
        DartBindingGenerator.write_bindings(&settings(true, None), &components),
        Err(BindingsError {
            component: 1,
            why: GenerationError::Unresolved(Unresolved {
                reference: 6,
                why: ResolveError::Undeclared
            })
        })
    );
}

#[test]
fn libraries_without_a_name_are_named() {
    let named = Config::new(None, Some("mine".to_string()), vec![], None);
    let mut components = vec![
        Component { ci: interface(), config: Config::default() },
        Component { ci: interface(), config: named },
    ];
    DartBindingGenerator.update_component_configs(&settings(true, None), &mut components);
    assert_eq!(components[0].config.cdylib_name(), "uniffi_demo");
    assert_eq!(components[1].config.cdylib_name(), "mine");
    assert_eq!(components[0].ci, interface());
    let mut components = vec![Component { ci: interface(), config: Config::default() }];
    DartBindingGenerator.update_component_configs(&settings(true, Some("given")), &mut components);
    assert_eq!(components[0].config.cdylib_name(), "given");
    assert_eq!(components[0].config.package_name(), "uniffi");
}

#[test]
fn compound_types_and_callback_interfaces_have_converters() {
    let mut ci = interface();
    ci.callback_interfaces.push(Object {
        name: "listener".to_string(),
        constructors: vec![],
        methods: vec![Function {
            name: "on_event".to_string(),
            arguments: vec![field(
                "counts",
                Type::Mapping(Box::new(text()), Box::new(Type::Primitive(Primitive::UInt64))),
            )],
            return_type: Some(Type::Primitive(Primitive::Bool)),
            throws: None,
            symbol: String::new(),
        }],
        free_symbol: String::new(),
    });
    ci.functions.push(Function {
        name: "subscribe".to_string(),
        arguments: vec![field("listener", Type::CallbackInterface("listener".to_string()))],
        return_type: None,
        throws: None,
        symbol: "uniffi_demo_fn_func_subscribe".to_string(),
    });
    let text = generate(&ci, &Config::default()).unwrap();
    assert!(text.contains("abstract class Listener {\n  bool onEvent(Map<String, int> counts);\n}\n"));
    assert_eq!(text.matches("class FfiConverterMapStringToUInt64 {").count(), 1);
    assert!(text.contains(
        "class FfiConverterMapStringToUInt64 {\n  static Map<String, int> lift(RustBuffer buf) {\n"
    ));
    assert!(text.contains("      final key = FfiConverterString.read("));
    assert!(text.contains("      final value = FfiConverterUInt64.read("));
    assert!(text.contains(
        "  static String? lift(RustBuffer buf) {\n    return read(buf.asUint8List()).value;\n  }\n"
    ));
    assert!(text.contains(
        "void subscribe(Listener listener) {\n  return rustCall((status) => uniffi_demo_fn_func_subscribe(FfiConverterListener.lower(listener), status), null);\n}\n"
    ));
    assert!(text.contains(
        "class FfiConverterUrl {\n  static Url lift(dynamic value) => Uri.parse(FfiConverterString.lift(value));\n"
    ));
    assert!(text.contains("class FfiConverterUInt64 {\n  static int lift(int value) => value;\n"));
    assert!(text.contains(
        "    return LiftRetVal(buf.buffer.asByteData(buf.offsetInBytes).getUint64(0), 8);\n"
    ));
}

#[test]
fn a_field_with_a_default_value_is_not_required() {
    let record = Record {
        name: "options".to_string(),
        fields: vec![
            Field {
                name: "iterations".to_string(),
                ty: Type::Primitive(Primitive::UInt32),
                default: Some(Literal::UInt(10000)),
            },
            field("label", text()),
        ],
    };
    let mut tokens = Vec::new();
    render_record(&record, &mut tokens);
    let text = render_text(&tokens, 2).unwrap();
    assert!(text.contains(
        "  Options({\n    this.iterations = 10000,\n    required this.label,\n  });\n"
    ));
}

#[test]
fn the_packages_of_external_types_are_imported_once_under_their_redirected_names() {
    let mut ci = interface();
    ci.records[0].fields.push(field(
        "thing",
        Type::External("thing".to_string(), "other_crate".to_string()),
    ));
    ci.functions[0].arguments.push(field(
        "extra",
        Type::Optional(Box::new(Type::External("extra".to_string(), "third".to_string()))),
    ));
    ci.functions[0].arguments.push(field(
        "more",
        Type::Sequence(Box::new(Type::External("more".to_string(), "other_crate".to_string()))),
    ));
    let config = Config::new(
        None,
        None,
        vec![("other_crate".to_string(), "other_pkg".to_string())],
        None,
    );
    let text = generate(&ci, &config).unwrap();
    assert!(text.starts_with(
        "library uniffi;\n\nimport \"dart:convert\";\nimport \"dart:ffi\";\nimport \"dart:io\";\nimport \"dart:typed_data\";\nimport \"package:ffi/ffi.dart\";\nimport \"package:other_pkg/other_pkg.dart\";\nimport \"package:third/third.dart\";\n\nclass UniffiInternalError implements Exception {\n"
    ));
    assert!(text.contains("  final Thing thing;\n"));
    assert!(text.contains("FfiConverterOptionalExtra.lower(extra)"));
    let plain = generate(&interface(), &config).unwrap();
    assert!(plain.starts_with(
        "library uniffi;\n\nimport \"dart:convert\";\nimport \"dart:ffi\";\nimport \"dart:io\";\nimport \"dart:typed_data\";\nimport \"package:ffi/ffi.dart\";\n\nclass UniffiInternalError implements Exception {\n"
    ));
}

#[test]
fn a_setting_names_the_way_of_loading() {
    assert_eq!(
        LibraryLoading::from_setting("relative-directory"),
        Some(LibraryLoading::RelativeDirectory)
    );
    assert_eq!(
        LibraryLoading::from_setting("registered-assets"),
        Some(LibraryLoading::RegisteredAssets)
    );
    assert_eq!(LibraryLoading::from_setting("Registered-Assets"), None);
    assert_eq!(LibraryLoading::from_setting(""), None);
}

#[test]
fn the_fields_of_a_variant_and_the_arguments_of_a_method_are_scopes() {
    let mut ci = interface();
    ci.enums[0].variants[1].fields.push(field("Reason", text()));
    assert!(matches!(
        generate(&ci, &Config::default()),
        Err(GenerationError::NameClash(ScopeClash { clash: Clash { first: 0, second: 1 }, .. }))
    ));
    let mut ci = interface();
    ci.objects[0].constructors[0].arguments.push(field("Initial", text()));
    assert!(matches!(
        generate(&ci, &Config::default()),
        Err(GenerationError::NameClash(ScopeClash { clash: Clash { first: 0, second: 1 }, .. }))
    ));
    let mut ci = interface();
    ci.objects[0].methods[0].arguments =
        vec![field("a_b", text()), field("c", text()), field("aB", text())];
    assert!(matches!(
        generate(&ci, &Config::default()),
        Err(GenerationError::NameClash(ScopeClash { clash: Clash { first: 0, second: 2 }, .. }))
    ));
}

#[test]
fn the_class_of_a_variant_may_not_have_the_name_of_another_class() {
    let mut ci = interface();
    ci.records.push(Record { name: "user_status_banned".to_string(), fields: vec![] });
    assert_eq!(
        generate(&ci, &Config::default()),
        Err(GenerationError::NameClash(ScopeClash {
            scope: 0,
            clash: Clash { first: 1, second: 6 }
        }))
    );
    let mut ci = interface();
    ci.enums.push(Enum {
        name: "user".to_string(),
        variants: vec![Variant { name: "status_active".to_string(), fields: vec![] }],
    });
    assert_eq!(
        generate(&ci, &Config::default()),
        Err(GenerationError::NameClash(ScopeClash {
            scope: 0,
            clash: Clash { first: 5, second: 7 }
        }))
    );
}

#[test]
fn literals_are_written_as_the_target_language_writes_them() {
    assert_eq!(literal_text(&Literal::Boolean(true)), "true");
    assert_eq!(literal_text(&Literal::Boolean(false)), "false");
    assert_eq!(literal_text(&Literal::Text("a \"b\" $c\n".to_string())), "\"a \\\"b\\\" \\$c\\n\"");
    assert_eq!(literal_text(&Literal::Text(String::new())), "\"\"");
    assert_eq!(literal_text(&Literal::UInt(u64::MAX)), "18446744073709551615");
    assert_eq!(literal_text(&Literal::Int(-42)), "-42");
    assert_eq!(literal_text(&Literal::Int(i64::MIN)), "-9223372036854775808");
    assert_eq!(literal_text(&Literal::Int(7)), "7");
    assert_eq!(literal_text(&Literal::Float("1.5e3".to_string())), "1.5e3");
    assert_eq!(
        literal_text(&Literal::Enum("user_status".to_string(), "active".to_string())),
        "UserStatusActive()"
    );
    assert_eq!(literal_text(&Literal::EmptySequence), "const []");
    assert_eq!(literal_text(&Literal::EmptyMapping), "const {}");
    assert_eq!(literal_text(&Literal::Null), "null");
    assert_eq!(
        literal_text(&Literal::Present(Box::new(Literal::Text("x".to_string())))),
        "\"x\""
    );
}
