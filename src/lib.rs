//! Front end of a small imperative language: a lossless tokenizer and an
//! expression compiler that folds constant sub-expressions while it builds
//! the expression tree.
use vstd::prelude::*;

pub mod lexer;
pub mod parser;

use lexer::{lexemes, tokens_of, LexError, Token};
use parser::{program_at, ParseError};

verus! {

/// Why a program could not be built.
#[derive(Debug, Clone, Copy, PartialEq, Eq, Structural)]
pub enum BuildError {
    Lex(LexError),
    Parse(ParseError),
}

/// Tokenizes `src` and parses the token stream (see [`program_at`]).
pub fn build(src: &str) -> (r: Result<(), BuildError>)
    ensures
        match tokens_of(src@) {
            Ok(m) => exists|ts: Seq<Token>|
                {
                    &&& lexemes(ts) == m
                    &&& match program_at(ts) {
                        Ok(_) => r is Ok,
                        Err(e) => r == Err::<(), BuildError>(BuildError::Parse(e)),
                    }
                },
            Err(e) => r == Err::<(), BuildError>(BuildError::Lex(e)),
        },
{
    let tokens = match lexer::lexer(src) {
        Ok(t) => t,
        Err(e) => return Err(BuildError::Lex(e)),
    };
    let ghost ts = tokens@;
    match parser::parser(tokens) {
        Ok(_) => Ok(()),
        Err(e) => Err(BuildError::Parse(e)),
    }
}

} // verus!
