//! A source-transformation pipeline for aggregate declarations: it parses one
//! `struct` declaration from a token sequence and re-emits it with every field
//! made fully visible, the aggregate's own visibility governed by a policy.

use vstd::prelude::*;

pub mod ast;
pub mod emit;
pub mod laws;
pub mod parser;
pub mod reparse;
pub mod token;

verus! {

use crate::ast::{Expected, Policy, SyntaxError};
use crate::emit::emit_toks;
use crate::parser::spec_parse;
use crate::token::Tok;

/// The transformation entry point: parses the input as exactly one aggregate
/// declaration and returns the same declaration with every field made fully
/// visible and the aggregate's own visibility chosen by `policy`. On malformed
/// input it returns the syntax error — the offending position and the expected
/// construct — and no tokens at all.
pub fn pub_all(input: &Vec<Tok>, policy: Policy) -> (r: Result<Vec<Tok>, SyntaxError>)
    ensures
        match spec_parse(input@) {
            Ok(d) => r matches Ok(out) && out@ == emit_toks(d, policy),
            Err(e) => r matches Err(err) && err@ == e,
        },
{
    match crate::parser::parse_decl(input, 0) {
        Err(e) => Err(e),
        Ok((d, k)) => {
            if k != input.len() {
                return Err(SyntaxError { pos: k, expected: Expected::EndOfInput });
            }
            Ok(crate::emit::emit(&d, policy))
        },
    }
}

} // verus!
