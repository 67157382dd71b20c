//! The literals of default values, as the target language writes them.

use vstd::prelude::*;
use vstd::string::StringExecFns;
use crate::interface::Literal;
use crate::naming::{class_name, upper_camel};
use crate::text::{decimal, decimal_text, join2};
use crate::tokens::{quoted_text, string_literal};

verus! {

/// The literal `l` as the target language writes it.
///
/// Text is a string literal, a number is written in decimal digits, a
/// variant is a new object of its class, and an empty sequence or map is a
/// constant.
pub open spec fn literal(l: Literal) -> Seq<char>
    decreases l,
{
    match l {
        Literal::Boolean(b) => if b {
            "true"@
        } else {
            "false"@
        },
        Literal::Text(text) => string_literal(text@),
        Literal::UInt(n) => decimal(n as nat),
        Literal::Int(n) => if n < 0 {
            "-"@ + decimal((-n) as nat)
        } else {
            decimal(n as nat)
        },
        Literal::Float(written) => written@,
        Literal::Enum(enum_name, variant) => upper_camel(enum_name@) + upper_camel(variant@)
            + "()"@,
        Literal::EmptySequence => "const []"@,
        Literal::EmptyMapping => "const {}"@,
        Literal::Null => "null"@,
        Literal::Present(inner) => literal(*inner),
    }
}

/// The literal `l` as the target language writes it.
pub fn literal_text(l: &Literal) -> (out: String)
    ensures
        out@ == literal(*l),
    decreases l,
{
    match l {
        Literal::Boolean(b) => if *b {
            "true".to_owned()
        } else {
            "false".to_owned()
        },
        Literal::Text(text) => quoted_text(text.as_str()),
        Literal::UInt(n) => decimal_text(*n),
        Literal::Int(n) => if *n < 0 {
            let magnitude = (-(*n as i128)) as u64;
            join2("-", decimal_text(magnitude).as_str())
        } else {
            decimal_text(*n as u64)
        },
        Literal::Float(written) => written.clone(),
        Literal::Enum(enum_name, variant) => {
            let mut out = join2(
                class_name(enum_name.as_str()).as_str(),
                class_name(variant.as_str()).as_str(),
            );
            out.append("()");
            out
        },
        Literal::EmptySequence => "const []".to_owned(),
        Literal::EmptyMapping => "const {}".to_owned(),
        Literal::Null => "null".to_owned(),
        Literal::Present(inner) => literal_text(inner),
    }
}

} // verus!
