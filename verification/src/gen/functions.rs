//! The wrappers of the exported functions: each lowers its arguments, calls
//! its native symbol, checks the status of the call and lifts the result.

use vstd::prelude::*;
use crate::gen::slots::{function_sets, function_slot_sets};
use crate::interface::Function;
use crate::template::{
    balanced,
    expand_each,
    expanded_each,
    lemma_expanded_each_balanced,
    TemplateLine,
};
use crate::tokens::{Token, token_models, TokenModel};

verus! {

/// The wrapper of an exported function.
pub const FUNCTION: [TemplateLine; 4] = [
    (0, "$0 $1($2) {"),
    (1, "return rustCall((status) => $3$4($5status)$6, $7);"),
    (0, "}"),
    (0, ""),
];

/// The tokens of the wrappers of `functions`, in the order of the description.
pub open spec fn functions_tokens(functions: Seq<Function>) -> Seq<TokenModel> {
    expanded_each(
        FUNCTION@,
        function_slot_sets(functions, Seq::empty(), Seq::empty()),
        functions.len() as int,
    )
}

/// Appends the wrappers of `functions`, in the order of the description.
pub fn render_functions(functions: &Vec<Function>, out: &mut Vec<Token>)
    ensures
        token_models(final(out)@) == token_models(old(out)@) + functions_tokens(functions@),
{
    let text = String::new();
    assert(text@ =~= Seq::<char>::empty());
    let sets = function_sets(functions, text.as_str(), text.as_str());
    expand_each(&FUNCTION, &sets, out);
}

/// The tokens of the wrappers of functions are balanced.
pub proof fn lemma_functions_balanced(functions: Seq<Function>)
    ensures
        balanced(functions_tokens(functions)),
{
    lemma_expanded_each_balanced(
        FUNCTION@,
        function_slot_sets(functions, Seq::empty(), Seq::empty()),
        functions.len() as int,
    );
}

} // verus!
