//! What every type descriptor offers to the render engine.

use vstd::prelude::*;
use crate::tokens::{Token, token_models, TokenModel};

verus! {

/// A type that has a name in the host language.
pub trait CodeType {
    /// The name of the type in the host language.
    spec fn label(&self) -> Seq<char>;

    fn type_label(&self) -> (out: String)
        ensures
            out@ == self.label(),
    ;
}

/// A type that brings code of its own into the generated module.
pub trait Renderable {
    /// The tokens of the code that the type brings.
    spec fn helper(&self) -> Seq<TokenModel>;

    fn render_type_helper(&self) -> (tokens: Vec<Token>)
        ensures
            token_models(tokens@) == self.helper(),
    ;
}

} // verus!
