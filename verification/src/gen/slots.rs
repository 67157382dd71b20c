//! The texts that the templates of declarations are filled with.

use vstd::prelude::*;
use vstd::string::StringExecFns;
use crate::gen::literals::{literal, literal_text};
use crate::gen::oracle::{converter, converter_name, label, type_label};
use crate::interface::{Field, Function, Type};
use crate::naming::{lower_camel, member_name};
use crate::template::{join_all, joined, slot_sets, slot_texts};
use crate::text::{join2, join3};

verus! {

/// A field as a parameter of the constructor of its class: required, or
/// with its default value where one is declared.
pub open spec fn initializer(field: Field) -> Seq<char> {
    match field.default {
        Some(default) => "this."@ + lower_camel(field.name@) + " = "@ + literal(default),
        None => "required this."@ + lower_camel(field.name@),
    }
}

/// The texts of one field: the name of its type, its own name, the name of
/// the converter of its type, and the field as a parameter of a constructor.
pub open spec fn field_slots(field: Field) -> Seq<Seq<char>> {
    seq![label(field.ty), lower_camel(field.name@), converter(field.ty), initializer(field)]
}

/// The texts of each of `fields`, in order.
pub open spec fn field_slot_sets(fields: Seq<Field>) -> Seq<Seq<Seq<char>>> {
    Seq::new(fields.len(), |i: int| field_slots(fields[i]))
}

/// The texts of each of `fields`, in order.
pub fn field_sets(fields: &Vec<Field>) -> (sets: Vec<Vec<String>>)
    ensures
        slot_sets(sets@) == field_slot_sets(fields@),
        sets@.len() == fields@.len(),
{
    let mut sets: Vec<Vec<String>> = Vec::new();
    let mut i: usize = 0;
    while i < fields.len()
        invariant
            i <= fields.len(),
            sets@.len() == i,
            forall|k: int|
                0 <= k < i ==> slot_texts((#[trigger] sets@[k])@) == field_slots(fields@[k]),
        decreases fields.len() - i,
    {
        let field = &fields[i];
        let name = member_name(field.name.as_str());
        let parameter = match &field.default {
            Some(default) => {
                let mut text = join3("this.", name.as_str(), " = ");
                text.append(literal_text(default).as_str());
                text
            },
            None => join2("required this.", name.as_str()),
        };
        let mut slots: Vec<String> = Vec::new();
        slots.push(type_label(&field.ty));
        slots.push(name);
        slots.push(converter_name(&field.ty));
        slots.push(parameter);
        assert(slot_texts(slots@) =~= field_slots(*field));
        sets.push(slots);
        i = i + 1;
    }
    assert(slot_sets(sets@) =~= field_slot_sets(fields@));
    sets
}

/// An argument as it is declared: its type and its name.
pub open spec fn parameter(argument: Field) -> Seq<char> {
    label(argument.ty) + " "@ + lower_camel(argument.name@)
}

/// The declarations of `arguments`, in order.
pub open spec fn parameters(arguments: Seq<Field>) -> Seq<Seq<char>> {
    Seq::new(arguments.len(), |i: int| parameter(arguments[i]))
}

/// An argument as it is handed to the native function: lowered by the
/// converter of its type, with a comma behind it.
pub open spec fn lowered_argument(argument: Field) -> Seq<char> {
    converter(argument.ty) + ".lower("@ + lower_camel(argument.name@) + "), "@
}

/// The first `end` of `arguments` as they are handed to the native function.
pub open spec fn lowered_arguments(arguments: Seq<Field>, end: int) -> Seq<char>
    decreases end,
{
    if end <= 0 {
        Seq::empty()
    } else {
        lowered_arguments(arguments, end - 1) + lowered_argument(arguments[end - 1])
    }
}

/// The name of the type that a function answers with.
pub open spec fn return_label(return_type: Option<Type>) -> Seq<char> {
    match return_type {
        Some(ty) => label(ty),
        None => "void"@,
    }
}

/// What stands before a native call to lift its result.
pub open spec fn lift_open(return_type: Option<Type>) -> Seq<char> {
    match return_type {
        Some(ty) => converter(ty) + ".lift("@,
        None => Seq::empty(),
    }
}

/// What stands behind a native call to lift its result.
pub open spec fn lift_close(return_type: Option<Type>) -> Seq<char> {
    match return_type {
        Some(_) => ")"@,
        None => Seq::empty(),
    }
}

/// What lifts the errors of a function: for a function that throws, the
/// converter of the error type; `null` for one that does not.
pub open spec fn error_handler(throws: Option<Type>) -> Seq<char> {
    match throws {
        Some(ty) => "UniffiErrorHandler("@ + converter(ty) + ".lift)"@,
        None => "null"@,
    }
}

/// The texts of a function, constructor or method: what stands before the
/// name of its result type, that name, its own name, its arguments as they
/// are declared, what lifts its result, its native symbol, the receiver
/// and its arguments as they are handed over, what closes the lifting, and
/// what lifts its errors.
pub open spec fn function_slots(function: Function, prefix: Seq<char>, receiver: Seq<char>) -> Seq<
    Seq<char>,
> {
    seq![
        prefix + return_label(function.return_type),
        lower_camel(function.name@),
        joined(parameters(function.arguments@), ", "@, function.arguments@.len() as int),
        lift_open(function.return_type),
        function.symbol@,
        receiver + lowered_arguments(function.arguments@, function.arguments@.len() as int),
        lift_close(function.return_type),
        error_handler(function.throws),
    ]
}

/// The texts of each of `functions`, in order.
pub open spec fn function_slot_sets(
    functions: Seq<Function>,
    prefix: Seq<char>,
    receiver: Seq<char>,
) -> Seq<Seq<Seq<char>>> {
    Seq::new(functions.len(), |i: int| function_slots(functions[i], prefix, receiver))
}

/// The texts of a function, constructor or method.
pub fn slots_of_function(function: &Function, prefix: &str, receiver: &str) -> (slots: Vec<String>)
    ensures
        slot_texts(slots@) == function_slots(*function, prefix@, receiver@),
{
    let arguments = &function.arguments;
    let mut declared: Vec<String> = Vec::new();
    let mut lowered = receiver.to_owned();
    let mut i: usize = 0;
    assert(receiver@ + lowered_arguments(arguments@, 0) =~= receiver@);
    while i < arguments.len()
        invariant
            i <= arguments.len(),
            declared@.len() == i,
            forall|k: int| 0 <= k < i ==> (#[trigger] declared@[k])@ == parameter(arguments@[k]),
            lowered@ == receiver@ + lowered_arguments(arguments@, i as int),
        decreases arguments.len() - i,
    {
        let argument = &arguments[i];
        let name = member_name(argument.name.as_str());
        declared.push(join3(type_label(&argument.ty).as_str(), " ", name.as_str()));
        let ghost before = lowered@;
        lowered.append(converter_name(&argument.ty).as_str());
        lowered.append(".lower(");
        lowered.append(name.as_str());
        lowered.append("), ");
        assert(lowered@ =~= before + lowered_argument(*argument));
        i = i + 1;
        assert(lowered@ =~= receiver@ + lowered_arguments(arguments@, i as int));
    }
    assert(slot_texts(declared@) =~= parameters(arguments@));
    let mut slots: Vec<String> = Vec::new();
    match &function.return_type {
        Some(ty) => {
            slots.push(join2(prefix, type_label(ty).as_str()));
        },
        None => {
            slots.push(join2(prefix, "void"));
        },
    }
    slots.push(member_name(function.name.as_str()));
    slots.push(join_all(&declared, ", "));
    match &function.return_type {
        Some(ty) => {
            slots.push(join2(converter_name(ty).as_str(), ".lift("));
        },
        None => {
            slots.push(String::new());
        },
    }
    slots.push(function.symbol.clone());
    slots.push(lowered);
    match &function.return_type {
        Some(_) => {
            slots.push(")".to_owned());
        },
        None => {
            slots.push(String::new());
        },
    }
    match &function.throws {
        Some(ty) => {
            slots.push(join3("UniffiErrorHandler(", converter_name(ty).as_str(), ".lift)"));
        },
        None => {
            slots.push("null".to_owned());
        },
    }
    assert(slot_texts(slots@) =~= function_slots(*function, prefix@, receiver@));
    slots
}

/// The texts of each of `functions`, in order.
pub fn function_sets(functions: &Vec<Function>, prefix: &str, receiver: &str) -> (sets: Vec<
    Vec<String>,
>)
    ensures
        slot_sets(sets@) == function_slot_sets(functions@, prefix@, receiver@),
        sets@.len() == functions@.len(),
{
    let mut sets: Vec<Vec<String>> = Vec::new();
    let mut i: usize = 0;
    while i < functions.len()
        invariant
            i <= functions.len(),
            sets@.len() == i,
            forall|k: int|
                0 <= k < i ==> slot_texts((#[trigger] sets@[k])@) == function_slots(
                    functions@[k],
                    prefix@,
                    receiver@,
                ),
        decreases functions.len() - i,
    {
        sets.push(slots_of_function(&functions[i], prefix, receiver));
        i = i + 1;
    }
    assert(slot_sets(sets@) =~= function_slot_sets(functions@, prefix@, receiver@));
    sets
}

} // verus!
