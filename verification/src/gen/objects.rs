//! The descriptors of objects and callback interfaces: both cross as
//! handles, never as their content.

use vstd::prelude::*;
use crate::gen::records::{declared_slots, slots_of_declared};
use crate::gen::slots::{function_sets, function_slot_sets};
use crate::interface::Object;
use crate::template::{
    balanced,
    expand,
    expand_each,
    expanded,
    expanded_each,
    lemma_balanced_concat,
    lemma_expanded_balanced,
    lemma_expanded_each_balanced,
    slot_texts,
    TemplateLine,
};
use crate::tokens::{Token, token_models, TokenModel};

verus! {

/// The head of the class of an object: a proxy that owns a handle and tells
/// the library when it is done with it. `$1` is the name of the class and
/// `$2` the native symbol that releases a handle.
pub const OBJECT_HEAD: [TemplateLine; 27] = [
    (0, "class $1 {"),
    (1, "final Pointer<Void> _handle;"),
    (1, "bool _released = false;"),
    (1, ""),
    (1, "$1._(this._handle) {"),
    (2, "_finalizer.attach(this, _handle, detach: this);"),
    (1, "}"),
    (1, ""),
    (1, "static final Finalizer<Pointer<Void>> _finalizer = Finalizer((handle) {"),
    (2, "rustCall((status) => $2(handle, status), null);"),
    (1, "});"),
    (1, ""),
    (1, "Pointer<Void> uniffiHandle() {"),
    (2, "if (_released) {"),
    (3, "throw UniffiInternalError.unexpectedCall(\"$1 was already released\");"),
    (2, "}"),
    (2, "return _handle;"),
    (1, "}"),
    (1, ""),
    (1, "void dispose() {"),
    (2, "if (!_released) {"),
    (3, "_released = true;"),
    (3, "_finalizer.detach(this);"),
    (3, "rustCall((status) => $2(_handle, status), null);"),
    (2, "}"),
    (1, "}"),
    (1, ""),
];

/// A constructor or method: a call of its native symbol whose status is
/// checked and whose result is lifted.
pub const METHOD: [TemplateLine; 4] = [
    (1, "$0 $1($2) {"),
    (2, "return rustCall((status) => $3$4($5status)$6, $7);"),
    (1, "}"),
    (1, ""),
];

/// The end of a class.
pub const CLASS_END: [TemplateLine; 2] = [(0, "}"), (0, "")];

/// The converter of an object: lifting wraps a handle in a proxy, lowering
/// takes the handle of a proxy that was not released.
pub const HANDLE_CONVERTER: [TemplateLine; 17] = [
    (0, "class $0 {"),
    (1, "static $1 lift(Pointer<Void> handle) => $1._(handle);"),
    (1, "static Pointer<Void> lower($1 value) => value.uniffiHandle();"),
    (1, ""),
    (1, "static LiftRetVal<$1> read(Uint8List buf) {"),
    (2, "final address = buf.buffer.asByteData(buf.offsetInBytes).getInt64(0);"),
    (2, "return LiftRetVal(lift(Pointer<Void>.fromAddress(address)), 8);"),
    (1, "}"),
    (1, ""),
    (1, "static int allocationSize([$1? value]) => 8;"),
    (1, ""),
    (1, "static int write($1 value, Uint8List buf) {"),
    (2, "buf.buffer.asByteData(buf.offsetInBytes).setInt64(0, lower(value).address);"),
    (2, "return 8;"),
    (1, "}"),
    (0, "}"),
    (0, ""),
];

/// The head of the class of a callback interface.
pub const CALLBACK_HEAD: [TemplateLine; 1] = [(0, "abstract class $1 {")];

/// A method of a callback interface, for its implementations to fill in.
pub const CALLBACK_METHOD: [TemplateLine; 1] = [(1, "$0 $1($2);")];

/// The converter of a callback interface: lowering hands out a handle for
/// an implementation, lifting finds the implementation of a handle.
pub const CALLBACK_CONVERTER: [TemplateLine; 26] = [
    (0, "class $0 {"),
    (1, "static final Map<int, $1> _handles = {};"),
    (1, "static int _next = 1;"),
    (1, ""),
    (1, "static $1 lift(Pointer<Void> handle) => _handles[handle.address]!;"),
    (1, ""),
    (1, "static Pointer<Void> lower($1 value) {"),
    (2, "final handle = _next++;"),
    (2, "_handles[handle] = value;"),
    (2, "return Pointer<Void>.fromAddress(handle);"),
    (1, "}"),
    (1, ""),
    (1, "static LiftRetVal<$1> read(Uint8List buf) {"),
    (2, "final address = buf.buffer.asByteData(buf.offsetInBytes).getInt64(0);"),
    (2, "return LiftRetVal(lift(Pointer<Void>.fromAddress(address)), 8);"),
    (1, "}"),
    (1, ""),
    (1, "static int allocationSize([$1? value]) => 8;"),
    (1, ""),
    (1, "static int write($1 value, Uint8List buf) {"),
    (2, "buf.buffer.asByteData(buf.offsetInBytes).setInt64(0, lower(value).address);"),
    (2, "return 8;"),
    (1, "}"),
    (0, "}"),
    (0, ""),
    (0, ""),
];

/// The texts of an object: the name of its converter, its own name, and
/// the native symbol that releases a handle.
pub open spec fn object_slots(object: Object) -> Seq<Seq<char>> {
    declared_slots(object.name@).push(object.free_symbol@)
}

/// The tokens of an object: its class, with the constructors and then the
/// methods in declaration order, and its converter.
#[verifier::opaque]
pub open spec fn object_tokens(object: Object) -> Seq<TokenModel> {
    let own = object_slots(object);
    expanded(OBJECT_HEAD@, own) + expanded_each(
        METHOD@,
        function_slot_sets(object.constructors@, "static "@, Seq::empty()),
        object.constructors@.len() as int,
    ) + expanded_each(
        METHOD@,
        function_slot_sets(object.methods@, Seq::empty(), "uniffiHandle(), "@),
        object.methods@.len() as int,
    ) + expanded(CLASS_END@, own) + expanded(HANDLE_CONVERTER@, own)
}

/// The tokens of a callback interface: its class, with the methods in
/// declaration order, and its converter.
#[verifier::opaque]
pub open spec fn callback_tokens(object: Object) -> Seq<TokenModel> {
    let own = object_slots(object);
    expanded(CALLBACK_HEAD@, own) + expanded_each(
        CALLBACK_METHOD@,
        function_slot_sets(object.methods@, Seq::empty(), Seq::empty()),
        object.methods@.len() as int,
    ) + expanded(CLASS_END@, own) + expanded(CALLBACK_CONVERTER@, own)
}

/// The texts of an object.
fn slots_of_object(object: &Object) -> (slots: Vec<String>)
    ensures
        slot_texts(slots@) == object_slots(*object),
{
    let mut slots = slots_of_declared(object.name.as_str());
    let ghost before = slot_texts(slots@);
    slots.push(object.free_symbol.clone());
    assert(slot_texts(slots@) =~= before.push(object.free_symbol@));
    slots
}

/// Appends the class and the converter of an object.
pub fn render_object(object: &Object, out: &mut Vec<Token>)
    ensures
        token_models(final(out)@) == token_models(old(out)@) + object_tokens(*object),
{
    proof {
        reveal(object_tokens);
    }
    let ghost start = token_models(out@);
    let own = slots_of_object(object);
    let text = String::new();
    assert(text@ =~= Seq::<char>::empty());
    let constructors = function_sets(&object.constructors, "static ", text.as_str());
    let methods = function_sets(&object.methods, text.as_str(), "uniffiHandle(), ");
    expand(&OBJECT_HEAD, &own, out);
    expand_each(&METHOD, &constructors, out);
    expand_each(&METHOD, &methods, out);
    expand(&CLASS_END, &own, out);
    expand(&HANDLE_CONVERTER, &own, out);
    assert(token_models(out@) =~= start + object_tokens(*object));
}

/// Appends the class and the converter of a callback interface.
pub fn render_callback(object: &Object, out: &mut Vec<Token>)
    ensures
        token_models(final(out)@) == token_models(old(out)@) + callback_tokens(*object),
{
    proof {
        reveal(callback_tokens);
    }
    let ghost start = token_models(out@);
    let own = slots_of_object(object);
    let text = String::new();
    assert(text@ =~= Seq::<char>::empty());
    let methods = function_sets(&object.methods, text.as_str(), text.as_str());
    expand(&CALLBACK_HEAD, &own, out);
    expand_each(&CALLBACK_METHOD, &methods, out);
    expand(&CLASS_END, &own, out);
    expand(&CALLBACK_CONVERTER, &own, out);
    assert(token_models(out@) =~= start + callback_tokens(*object));
}

/// The tokens of the first `end` of `objects`, in the order of the description.
pub open spec fn objects_tokens(objects: Seq<Object>, end: int) -> Seq<TokenModel>
    decreases end,
{
    if end <= 0 {
        Seq::empty()
    } else {
        objects_tokens(objects, end - 1) + object_tokens(objects[end - 1])
    }
}

/// The tokens of the first `end` of the callback interfaces `objects`, in
/// the order of the description.
pub open spec fn callbacks_tokens(objects: Seq<Object>, end: int) -> Seq<TokenModel>
    decreases end,
{
    if end <= 0 {
        Seq::empty()
    } else {
        callbacks_tokens(objects, end - 1) + callback_tokens(objects[end - 1])
    }
}

/// Appends the classes and converters of `objects`, in the order of the
/// description.
pub fn render_objects(objects: &Vec<Object>, out: &mut Vec<Token>)
    ensures
        token_models(final(out)@) == token_models(old(out)@) + objects_tokens(
            objects@,
            objects@.len() as int,
        ),
{
    let ghost start = token_models(out@);
    let mut i: usize = 0;
    assert(start + objects_tokens(objects@, 0) =~= start);
    while i < objects.len()
        invariant
            i <= objects.len(),
            token_models(out@) == start + objects_tokens(objects@, i as int),
        decreases objects.len() - i,
    {
        render_object(&objects[i], out);
        i = i + 1;
        assert(token_models(out@) =~= start + objects_tokens(objects@, i as int));
    }
}

/// Appends the classes and converters of the callback interfaces
/// `objects`, in the order of the description.
pub fn render_callbacks(objects: &Vec<Object>, out: &mut Vec<Token>)
    ensures
        token_models(final(out)@) == token_models(old(out)@) + callbacks_tokens(
            objects@,
            objects@.len() as int,
        ),
{
    let ghost start = token_models(out@);
    let mut i: usize = 0;
    assert(start + callbacks_tokens(objects@, 0) =~= start);
    while i < objects.len()
        invariant
            i <= objects.len(),
            token_models(out@) == start + callbacks_tokens(objects@, i as int),
        decreases objects.len() - i,
    {
        render_callback(&objects[i], out);
        i = i + 1;
        assert(token_models(out@) =~= start + callbacks_tokens(objects@, i as int));
    }
}

/// The tokens of an object are balanced.
pub proof fn lemma_object_balanced(object: Object)
    ensures
        balanced(object_tokens(object)),
{
    reveal(object_tokens);
    let own = object_slots(object);
    let part0 = expanded(OBJECT_HEAD@, own);
    lemma_expanded_balanced(OBJECT_HEAD@, own);
    let part1 = expanded_each(METHOD@, function_slot_sets(object.constructors@, "static "@, Seq::empty()), object.constructors@.len() as int);
    lemma_expanded_each_balanced(METHOD@, function_slot_sets(object.constructors@, "static "@, Seq::empty()), object.constructors@.len() as int);
    let part2 = expanded_each(METHOD@, function_slot_sets(object.methods@, Seq::empty(), "uniffiHandle(), "@), object.methods@.len() as int);
    lemma_expanded_each_balanced(METHOD@, function_slot_sets(object.methods@, Seq::empty(), "uniffiHandle(), "@), object.methods@.len() as int);
    let part3 = expanded(CLASS_END@, own);
    lemma_expanded_balanced(CLASS_END@, own);
    let part4 = expanded(HANDLE_CONVERTER@, own);
    lemma_expanded_balanced(HANDLE_CONVERTER@, own);
    let upto0 = part0;
    lemma_balanced_concat(upto0, part1);
    let upto1 = upto0 + part1;
    lemma_balanced_concat(upto1, part2);
    let upto2 = upto1 + part2;
    lemma_balanced_concat(upto2, part3);
    let upto3 = upto2 + part3;
    lemma_balanced_concat(upto3, part4);
    let upto4 = upto3 + part4;
    assert(object_tokens(object) =~= upto4);
}

/// The tokens of a callback interface are balanced.
pub proof fn lemma_callback_balanced(object: Object)
    ensures
        balanced(callback_tokens(object)),
{
    reveal(callback_tokens);
    let own = object_slots(object);
    let part0 = expanded(CALLBACK_HEAD@, own);
    lemma_expanded_balanced(CALLBACK_HEAD@, own);
    let part1 = expanded_each(CALLBACK_METHOD@, function_slot_sets(object.methods@, Seq::empty(), Seq::empty()), object.methods@.len() as int);
    lemma_expanded_each_balanced(CALLBACK_METHOD@, function_slot_sets(object.methods@, Seq::empty(), Seq::empty()), object.methods@.len() as int);
    let part2 = expanded(CLASS_END@, own);
    lemma_expanded_balanced(CLASS_END@, own);
    let part3 = expanded(CALLBACK_CONVERTER@, own);
    lemma_expanded_balanced(CALLBACK_CONVERTER@, own);
    let upto0 = part0;
    lemma_balanced_concat(upto0, part1);
    let upto1 = upto0 + part1;
    lemma_balanced_concat(upto1, part2);
    let upto2 = upto1 + part2;
    lemma_balanced_concat(upto2, part3);
    let upto3 = upto2 + part3;
    assert(callback_tokens(object) =~= upto3);
}

/// The tokens of objects are balanced.
pub proof fn lemma_objects_balanced(items: Seq<Object>, end: int)
    ensures
        balanced(objects_tokens(items, end)),
    decreases end,
{
    if end > 0 {
        lemma_objects_balanced(items, end - 1);
        lemma_object_balanced(items[end - 1]);
        lemma_balanced_concat(objects_tokens(items, end - 1), object_tokens(items[end - 1]));
    }
}

/// The tokens of callback interfaces are balanced.
pub proof fn lemma_callbacks_balanced(items: Seq<Object>, end: int)
    ensures
        balanced(callbacks_tokens(items, end)),
    decreases end,
{
    if end > 0 {
        lemma_callbacks_balanced(items, end - 1);
        lemma_callback_balanced(items[end - 1]);
        lemma_balanced_concat(callbacks_tokens(items, end - 1), callback_tokens(items[end - 1]));
    }
}

} // verus!
