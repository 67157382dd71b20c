//! The names that the generated code gives to types and to their converters.

use vstd::prelude::*;
use vstd::string::StringExecFns;
use crate::interface::Type;
use crate::naming::{class_name, upper_camel};
use crate::text::{join2, join3};
use crate::value::Primitive;

verus! {

/// The name of a builtin type in the host language.
pub open spec fn primitive_label(p: Primitive) -> Seq<char> {
    match p {
        Primitive::Bool => "bool"@,
        Primitive::Float32 | Primitive::Float64 => "double"@,
        Primitive::String => "String"@,
        Primitive::Bytes => "Uint8List"@,
        _ => "int"@,
    }
}

/// The name of a builtin type in the names of converters.
pub open spec fn primitive_name(p: Primitive) -> Seq<char> {
    match p {
        Primitive::Bool => "Bool"@,
        Primitive::Int8 => "Int8"@,
        Primitive::UInt8 => "UInt8"@,
        Primitive::Int16 => "Int16"@,
        Primitive::UInt16 => "UInt16"@,
        Primitive::Int32 => "Int32"@,
        Primitive::UInt32 => "UInt32"@,
        Primitive::Int64 => "Int64"@,
        Primitive::UInt64 => "UInt64"@,
        Primitive::Float32 => "Double32"@,
        Primitive::Float64 => "Double64"@,
        Primitive::String => "String"@,
        Primitive::Bytes => "Uint8List"@,
    }
}

/// The name of a type in the host language.
pub open spec fn label(ty: Type) -> Seq<char>
    decreases ty,
{
    match ty {
        Type::Primitive(p) => primitive_label(p),
        Type::Optional(inner) => label(*inner) + "?"@,
        Type::Sequence(element) => "List<"@ + label(*element) + ">"@,
        Type::Mapping(key, value) => "Map<"@ + label(*key) + ", "@ + label(*value) + ">"@,
        Type::Record(name) | Type::Enum(name) | Type::Object(name) | Type::CallbackInterface(name)
        | Type::Custom(name) | Type::External(name, _) => upper_camel(name@),
    }
}

/// The name of a type in the names of converters.
pub open spec fn canonical(ty: Type) -> Seq<char>
    decreases ty,
{
    match ty {
        Type::Primitive(p) => primitive_name(p),
        Type::Optional(inner) => "Optional"@ + canonical(*inner),
        Type::Sequence(element) => "Sequence"@ + canonical(*element),
        Type::Mapping(key, value) => "Map"@ + canonical(*key) + "To"@ + canonical(*value),
        Type::Record(name) | Type::Enum(name) | Type::Object(name) | Type::CallbackInterface(name)
        | Type::Custom(name) | Type::External(name, _) => upper_camel(name@),
    }
}

/// The name of the converter of a type.
pub open spec fn converter(ty: Type) -> Seq<char> {
    "FfiConverter"@ + canonical(ty)
}

/// The name of a builtin type in the host language.
pub fn primitive_type_label(p: Primitive) -> (out: &'static str)
    ensures
        out@ == primitive_label(p),
{
    match p {
        Primitive::Bool => "bool",
        Primitive::Float32 | Primitive::Float64 => "double",
        Primitive::String => "String",
        Primitive::Bytes => "Uint8List",
        _ => "int",
    }
}

/// The name of a builtin type in the names of converters.
pub fn primitive_canonical_name(p: Primitive) -> (out: &'static str)
    ensures
        out@ == primitive_name(p),
{
    match p {
        Primitive::Bool => "Bool",
        Primitive::Int8 => "Int8",
        Primitive::UInt8 => "UInt8",
        Primitive::Int16 => "Int16",
        Primitive::UInt16 => "UInt16",
        Primitive::Int32 => "Int32",
        Primitive::UInt32 => "UInt32",
        Primitive::Int64 => "Int64",
        Primitive::UInt64 => "UInt64",
        Primitive::Float32 => "Double32",
        Primitive::Float64 => "Double64",
        Primitive::String => "String",
        Primitive::Bytes => "Uint8List",
    }
}

/// The name of a type in the host language.
pub fn type_label(ty: &Type) -> (out: String)
    ensures
        out@ == label(*ty),
    decreases ty,
{
    match ty {
        Type::Primitive(p) => primitive_type_label(*p).to_owned(),
        Type::Optional(inner) => join2(type_label(inner).as_str(), "?"),
        Type::Sequence(element) => join3("List<", type_label(element).as_str(), ">"),
        Type::Mapping(key, value) => {
            let mut out = join3("Map<", type_label(key).as_str(), ", ");
            out.append(type_label(value).as_str());
            out.append(">");
            out
        },
        Type::Record(name) | Type::Enum(name) | Type::Object(name) | Type::CallbackInterface(name)
        | Type::Custom(name) | Type::External(name, _) => class_name(name.as_str()),
    }
}

/// The name of a type in the names of converters.
pub fn canonical_name(ty: &Type) -> (out: String)
    ensures
        out@ == canonical(*ty),
    decreases ty,
{
    match ty {
        Type::Primitive(p) => primitive_canonical_name(*p).to_owned(),
        Type::Optional(inner) => join2("Optional", canonical_name(inner).as_str()),
        Type::Sequence(element) => join2("Sequence", canonical_name(element).as_str()),
        Type::Mapping(key, value) => {
            let mut out = join3("Map", canonical_name(key).as_str(), "To");
            out.append(canonical_name(value).as_str());
            out
        },
        Type::Record(name) | Type::Enum(name) | Type::Object(name) | Type::CallbackInterface(name)
        | Type::Custom(name) | Type::External(name, _) => class_name(name.as_str()),
    }
}

/// The name of the converter of a type.
pub fn converter_name(ty: &Type) -> (out: String)
    ensures
        out@ == converter(*ty),
{
    join2("FfiConverter", canonical_name(ty).as_str())
}

} // verus!
