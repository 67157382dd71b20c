//! The descriptors of records: a class with the fields in declaration
//! order, and a converter that writes and reads them in that order.

use vstd::prelude::*;
use crate::gen::compounds::{CONVERTER_HEAD, VIA_BUFFER};
use crate::gen::slots::{field_sets, field_slot_sets};
use crate::interface::Record;
use crate::naming::{class_name, upper_camel};
use crate::template::{
    balanced,
    expand,
    expand_each,
    expanded,
    expanded_each,
    lemma_balanced_concat,
    lemma_expanded_balanced,
    lemma_expanded_each_balanced,
    slot_texts,
    TemplateLine,
};
use crate::text::join2;
use crate::tokens::{Token, token_models, TokenModel};

verus! {

/// The head of the class of a record: `$1` is its name.
pub const RECORD_CLASS_HEAD: [TemplateLine; 1] = [(0, "class $1 {")];

/// A field of a record: `$0` is the name of its type and `$1` its own.
pub const RECORD_FIELD: [TemplateLine; 1] = [(1, "final $0 $1;")];

/// The head of the constructor of a record.
pub const RECORD_CTOR_HEAD: [TemplateLine; 2] = [(1, ""), (1, "$1({")];

/// A field as a parameter of the constructor: `$3` says whether it is
/// required or has a default value.
pub const RECORD_CTOR_FIELD: [TemplateLine; 1] = [(2, "$3,")];

/// The end of the constructor and of the class.
pub const RECORD_CTOR_END: [TemplateLine; 3] = [(1, "});"), (0, "}"), (0, "")];

/// The head of reading a record: the fields follow in declaration order.
pub const RECORD_READ_HEAD: [TemplateLine; 2] = [
    (1, "static LiftRetVal<$1> read(Uint8List buf) {"),
    (2, "int offset = 0;"),
];

/// Reading one field: `$1` is its name and `$2` the converter of its type.
pub const FIELD_READ: [TemplateLine; 2] = [
    (2, "final $1 = $2.read(Uint8List.view(buf.buffer, buf.offsetInBytes + offset));"),
    (2, "offset += $1.bytesRead;"),
];

/// The head of building the record from the fields that were read.
pub const RECORD_BUILD_HEAD: [TemplateLine; 2] = [(2, "return LiftRetVal("), (3, "$1(")];

/// One field that was read, handed to the constructor.
pub const RECORD_BUILD_FIELD: [TemplateLine; 1] = [(4, "$1: $1.value,")];

/// The end of building and of reading.
pub const RECORD_BUILD_END: [TemplateLine; 5] = [
    (3, "),"),
    (3, "offset,"),
    (2, ");"),
    (1, "}"),
    (1, ""),
];

/// The head of sizing a record.
pub const SIZE_HEAD: [TemplateLine; 2] = [
    (1, "static int allocationSize($1 value) {"),
    (2, "int size = 0;"),
];

/// Sizing one field.
pub const FIELD_SIZE: [TemplateLine; 1] = [(2, "size += $2.allocationSize(value.$1);")];

/// The end of sizing.
pub const SIZE_END: [TemplateLine; 3] = [(2, "return size;"), (1, "}"), (1, "")];

/// The head of writing a record: the fields follow in declaration order.
pub const WRITE_HEAD: [TemplateLine; 2] = [
    (1, "static int write($1 value, Uint8List buf) {"),
    (2, "int offset = 0;"),
];

/// Writing one field.
pub const FIELD_WRITE: [TemplateLine; 1] = [
    (2, "offset += $2.write(value.$1, Uint8List.view(buf.buffer, buf.offsetInBytes + offset));"),
];

/// The end of writing and of the converter.
pub const WRITE_END: [TemplateLine; 4] = [(2, "return offset;"), (1, "}"), (0, "}"), (0, "")];

/// The texts of a declared type: the name of its converter and its own name.
pub open spec fn declared_slots(name: Seq<char>) -> Seq<Seq<char>> {
    seq!["FfiConverter"@ + upper_camel(name), upper_camel(name)]
}

/// The texts of a declared type.
pub fn slots_of_declared(name: &str) -> (slots: Vec<String>)
    ensures
        slot_texts(slots@) == declared_slots(name@),
{
    let class = class_name(name);
    let mut slots: Vec<String> = Vec::new();
    slots.push(join2("FfiConverter", class.as_str()));
    slots.push(class);
    assert(slot_texts(slots@) =~= declared_slots(name@));
    slots
}

/// The tokens of a record: its class, with the fields in declaration
/// order, and its converter, which reads and writes them in that order.
#[verifier::opaque]
pub open spec fn record_tokens(record: Record) -> Seq<TokenModel> {
    let own = declared_slots(record.name@);
    let fields = field_slot_sets(record.fields@);
    let n = record.fields@.len() as int;
    expanded(RECORD_CLASS_HEAD@, own) + expanded_each(RECORD_FIELD@, fields, n) + expanded(
        RECORD_CTOR_HEAD@,
        own,
    ) + expanded_each(RECORD_CTOR_FIELD@, fields, n) + expanded(RECORD_CTOR_END@, own) + expanded(
        CONVERTER_HEAD@,
        own,
    ) + expanded(VIA_BUFFER@, own) + expanded(RECORD_READ_HEAD@, own) + expanded_each(
        FIELD_READ@,
        fields,
        n,
    ) + expanded(RECORD_BUILD_HEAD@, own) + expanded_each(RECORD_BUILD_FIELD@, fields, n)
        + expanded(RECORD_BUILD_END@, own) + expanded(SIZE_HEAD@, own) + expanded_each(
        FIELD_SIZE@,
        fields,
        n,
    ) + expanded(SIZE_END@, own) + expanded(WRITE_HEAD@, own) + expanded_each(
        FIELD_WRITE@,
        fields,
        n,
    ) + expanded(WRITE_END@, own)
}

/// Appends the class and the converter of a record.
#[verifier::rlimit(60)]
pub fn render_record(record: &Record, out: &mut Vec<Token>)
    ensures
        token_models(final(out)@) == token_models(old(out)@) + record_tokens(*record),
{
    proof {
        reveal(record_tokens);
    }
    let ghost start = token_models(out@);
    let own = slots_of_declared(record.name.as_str());
    let fields = field_sets(&record.fields);
    expand(&RECORD_CLASS_HEAD, &own, out);
    expand_each(&RECORD_FIELD, &fields, out);
    expand(&RECORD_CTOR_HEAD, &own, out);
    expand_each(&RECORD_CTOR_FIELD, &fields, out);
    expand(&RECORD_CTOR_END, &own, out);
    expand(&CONVERTER_HEAD, &own, out);
    expand(&VIA_BUFFER, &own, out);
    expand(&RECORD_READ_HEAD, &own, out);
    expand_each(&FIELD_READ, &fields, out);
    expand(&RECORD_BUILD_HEAD, &own, out);
    expand_each(&RECORD_BUILD_FIELD, &fields, out);
    expand(&RECORD_BUILD_END, &own, out);
    expand(&SIZE_HEAD, &own, out);
    expand_each(&FIELD_SIZE, &fields, out);
    expand(&SIZE_END, &own, out);
    expand(&WRITE_HEAD, &own, out);
    expand_each(&FIELD_WRITE, &fields, out);
    expand(&WRITE_END, &own, out);
    assert(token_models(out@) =~= start + record_tokens(*record));
}

/// The tokens of the first `end` of `records`, in the order of the description.
pub open spec fn records_tokens(records: Seq<Record>, end: int) -> Seq<TokenModel>
    decreases end,
{
    if end <= 0 {
        Seq::empty()
    } else {
        records_tokens(records, end - 1) + record_tokens(records[end - 1])
    }
}

/// Appends the classes and converters of `records`, in the order of the
/// description.
pub fn render_records(records: &Vec<Record>, out: &mut Vec<Token>)
    ensures
        token_models(final(out)@) == token_models(old(out)@) + records_tokens(
            records@,
            records@.len() as int,
        ),
{
    let ghost start = token_models(out@);
    let mut i: usize = 0;
    assert(start + records_tokens(records@, 0) =~= start);
    while i < records.len()
        invariant
            i <= records.len(),
            token_models(out@) == start + records_tokens(records@, i as int),
        decreases records.len() - i,
    {
        render_record(&records[i], out);
        i = i + 1;
        assert(token_models(out@) =~= start + records_tokens(records@, i as int));
    }
}

/// The tokens of a record are balanced.
#[verifier::rlimit(60)]
pub proof fn lemma_record_balanced(record: Record)
    ensures
        balanced(record_tokens(record)),
{
    reveal(record_tokens);
    let own = declared_slots(record.name@);
    let fields = field_slot_sets(record.fields@);
    let n = record.fields@.len() as int;
    let part0 = expanded(RECORD_CLASS_HEAD@, own);
    lemma_expanded_balanced(RECORD_CLASS_HEAD@, own);
    let part1 = expanded_each(RECORD_FIELD@, fields, n);
    lemma_expanded_each_balanced(RECORD_FIELD@, fields, n);
    let part2 = expanded(RECORD_CTOR_HEAD@, own);
    lemma_expanded_balanced(RECORD_CTOR_HEAD@, own);
    let part3 = expanded_each(RECORD_CTOR_FIELD@, fields, n);
    lemma_expanded_each_balanced(RECORD_CTOR_FIELD@, fields, n);
    let part4 = expanded(RECORD_CTOR_END@, own);
    lemma_expanded_balanced(RECORD_CTOR_END@, own);
    let part5 = expanded(CONVERTER_HEAD@, own);
    lemma_expanded_balanced(CONVERTER_HEAD@, own);
    let part6 = expanded(VIA_BUFFER@, own);
    lemma_expanded_balanced(VIA_BUFFER@, own);
    let part7 = expanded(RECORD_READ_HEAD@, own);
    lemma_expanded_balanced(RECORD_READ_HEAD@, own);
    let part8 = expanded_each(FIELD_READ@, fields, n);
    lemma_expanded_each_balanced(FIELD_READ@, fields, n);
    let part9 = expanded(RECORD_BUILD_HEAD@, own);
    lemma_expanded_balanced(RECORD_BUILD_HEAD@, own);
    let part10 = expanded_each(RECORD_BUILD_FIELD@, fields, n);
    lemma_expanded_each_balanced(RECORD_BUILD_FIELD@, fields, n);
    let part11 = expanded(RECORD_BUILD_END@, own);
    lemma_expanded_balanced(RECORD_BUILD_END@, own);
    let part12 = expanded(SIZE_HEAD@, own);
    lemma_expanded_balanced(SIZE_HEAD@, own);
    let part13 = expanded_each(FIELD_SIZE@, fields, n);
    lemma_expanded_each_balanced(FIELD_SIZE@, fields, n);
    let part14 = expanded(SIZE_END@, own);
    lemma_expanded_balanced(SIZE_END@, own);
    let part15 = expanded(WRITE_HEAD@, own);
    lemma_expanded_balanced(WRITE_HEAD@, own);
    let part16 = expanded_each(FIELD_WRITE@, fields, n);
    lemma_expanded_each_balanced(FIELD_WRITE@, fields, n);
    let part17 = expanded(WRITE_END@, own);
    lemma_expanded_balanced(WRITE_END@, own);
    let upto0 = part0;
    lemma_balanced_concat(upto0, part1);
    let upto1 = upto0 + part1;
    lemma_balanced_concat(upto1, part2);
    let upto2 = upto1 + part2;
    lemma_balanced_concat(upto2, part3);
    let upto3 = upto2 + part3;
    lemma_balanced_concat(upto3, part4);
    let upto4 = upto3 + part4;
    lemma_balanced_concat(upto4, part5);
    let upto5 = upto4 + part5;
    lemma_balanced_concat(upto5, part6);
    let upto6 = upto5 + part6;
    lemma_balanced_concat(upto6, part7);
    let upto7 = upto6 + part7;
    lemma_balanced_concat(upto7, part8);
    let upto8 = upto7 + part8;
    lemma_balanced_concat(upto8, part9);
    let upto9 = upto8 + part9;
    lemma_balanced_concat(upto9, part10);
    let upto10 = upto9 + part10;
    lemma_balanced_concat(upto10, part11);
    let upto11 = upto10 + part11;
    lemma_balanced_concat(upto11, part12);
    let upto12 = upto11 + part12;
    lemma_balanced_concat(upto12, part13);
    let upto13 = upto12 + part13;
    lemma_balanced_concat(upto13, part14);
    let upto14 = upto13 + part14;
    lemma_balanced_concat(upto14, part15);
    let upto15 = upto14 + part15;
    lemma_balanced_concat(upto15, part16);
    let upto16 = upto15 + part16;
    lemma_balanced_concat(upto16, part17);
    let upto17 = upto16 + part17;
    assert(record_tokens(record) =~= upto17);
}

/// The tokens of records are balanced.
pub proof fn lemma_records_balanced(items: Seq<Record>, end: int)
    ensures
        balanced(records_tokens(items, end)),
    decreases end,
{
    if end > 0 {
        lemma_records_balanced(items, end - 1);
        lemma_record_balanced(items[end - 1]);
        lemma_balanced_concat(records_tokens(items, end - 1), record_tokens(items[end - 1]));
    }
}

} // verus!
