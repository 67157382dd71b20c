//! The interface description: the exported namespace of a library, with its
//! functions and type declarations, as the upstream toolchain hands it over.
//! It is input only: nothing here changes it.

use vstd::prelude::*;
use crate::value::Primitive;

verus! {

/// A reference to a type.
#[derive(Debug, PartialEq, Eq)]
pub enum Type {
    Primitive(Primitive),
    Optional(Box<Type>),
    Sequence(Box<Type>),
    Mapping(Box<Type>, Box<Type>),
    /// A record, by its declared name.
    Record(String),
    /// An enum, by its declared name.
    Enum(String),
    /// An object, by its declared name.
    Object(String),
    /// A callback interface, by its declared name.
    CallbackInterface(String),
    /// A custom type, by its declared name.
    Custom(String),
    /// A type that another package declares, by its name there and the
    /// name of that package.
    External(String, String),
}

/// The literal of a default value.
#[derive(Debug, PartialEq, Eq)]
pub enum Literal {
    Boolean(bool),
    Text(String),
    UInt(u64),
    Int(i64),
    /// A floating-point number, as it is written in the declaration.
    Float(String),
    /// A variant without fields: the name of the enum and that of the variant.
    Enum(String, String),
    EmptySequence,
    EmptyMapping,
    /// The absent value of an optional type.
    Null,
    /// A present value of an optional type.
    Present(Box<Literal>),
}

/// A field of a record or of an enum variant, or an argument of a function.
#[derive(Debug, PartialEq, Eq)]
pub struct Field {
    pub name: String,
    pub ty: Type,
    /// The default value, where one is declared.
    pub default: Option<Literal>,
}

/// An exported function, a constructor or a method.
#[derive(Debug, PartialEq, Eq)]
pub struct Function {
    pub name: String,
    pub arguments: Vec<Field>,
    pub return_type: Option<Type>,
    /// The type of the error that the function is declared to throw.
    pub throws: Option<Type>,
    /// The native symbol that a call goes to.
    pub symbol: String,
}

/// A record. The order of its fields is part of the binary contract.
#[derive(Debug, PartialEq, Eq)]
pub struct Record {
    pub name: String,
    pub fields: Vec<Field>,
}

/// A variant of an enum, with the fields it carries.
#[derive(Debug, PartialEq, Eq)]
pub struct Variant {
    pub name: String,
    pub fields: Vec<Field>,
}

/// An enum. The order of its variants is part of the binary contract.
#[derive(Debug, PartialEq, Eq)]
pub struct Enum {
    pub name: String,
    pub variants: Vec<Variant>,
}

/// An object, or a callback interface: passed as a handle.
#[derive(Debug, PartialEq, Eq)]
pub struct Object {
    pub name: String,
    pub constructors: Vec<Function>,
    pub methods: Vec<Function>,
    /// The native symbol that releases a handle.
    pub free_symbol: String,
}

/// A custom type: a builtin type with conversions round lifting and lowering.
#[derive(Debug, PartialEq, Eq)]
pub struct CustomType {
    pub name: String,
    pub builtin: Type,
    /// The function that is applied to a value before it is lowered.
    pub lower_fn: String,
    /// The function that is applied to a value after it is lifted.
    pub lift_fn: String,
}

/// The native representation of an argument or result.
#[derive(Clone, Copy, Debug, PartialEq, Eq, Structural)]
pub enum FfiType {
    Int8,
    UInt8,
    Int16,
    UInt16,
    Int32,
    UInt32,
    Int64,
    UInt64,
    Float32,
    Float64,
    /// A pointer-sized handle to an object.
    Handle,
    /// A buffer that is passed by value.
    RustBuffer,
    /// A view of bytes that the caller owns.
    ForeignBytes,
    /// A pointer to a call-status record.
    CallStatus,
    /// An untyped pointer.
    VoidPointer,
}

/// An argument of a native function.
#[derive(Debug, PartialEq, Eq)]
pub struct FfiArgument {
    pub name: String,
    pub ty: FfiType,
}

/// A native function as the compiled library exports it.
#[derive(Debug, PartialEq, Eq)]
pub struct FfiFunction {
    /// The symbol name.
    pub name: String,
    pub arguments: Vec<FfiArgument>,
    pub return_type: Option<FfiType>,
    /// Whether a call can fail, and so takes a call-status record as its
    /// last argument.
    pub has_call_status: bool,
}

/// The checksum of one exported declaration, with the native function that
/// reports it.
#[derive(Debug, PartialEq, Eq)]
pub struct Checksum {
    /// The symbol of the native function that reports the checksum.
    pub symbol: String,
    /// The checksum of the declaration's signature, computed at generation time.
    pub expected: u16,
}

/// The interface description of one namespace.
#[derive(Debug, PartialEq, Eq)]
pub struct ComponentInterface {
    pub namespace: String,
    /// The version of the binary contract that the bindings are made for.
    pub contract_version: u32,
    /// The symbol of the native function that reports the library's version.
    pub contract_version_symbol: String,
    pub functions: Vec<Function>,
    pub records: Vec<Record>,
    pub enums: Vec<Enum>,
    pub objects: Vec<Object>,
    pub callback_interfaces: Vec<Object>,
    pub custom_types: Vec<CustomType>,
    /// Every native function of the library, in the order of the description.
    pub ffi_functions: Vec<FfiFunction>,
    /// The checksum of every exported declaration, in that order.
    pub checksums: Vec<Checksum>,
}

} // verus!
