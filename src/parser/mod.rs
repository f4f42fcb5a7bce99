//! Statement-level structure: function declarations, function calls and
//! `if` conditions, read from the token stream with a cursor.  Conditions are
//! handed to the expression compiler.
use vstd::prelude::*;

pub mod conditionals;
pub mod expressions;
pub mod functions;

use crate::lexer::Token;
use crate::lexer::TokenKind;
use expressions::{CompileError, Expression};
use functions::{call_at, function_at, is_call, is_function, parse_function, parse_function_call, ArgView, ParamView};

verus! {

/// A primitive type named in source text.
#[derive(Debug, Clone, Copy, PartialEq, Eq, Structural)]
pub enum Type {
    Void,
    I32,
    U32,
    U8,
    String,
    /// No type specified: `_` or nothing at all.
    Unspecified,
}

/// A modifier in front of a parameter.
#[derive(Debug, Clone, Copy, PartialEq, Eq, Structural)]
pub enum Modifiers {
    Mutable,
    Constant,
}

/// The parameters of a function declaration: name, modifiers, type.
pub type Parameters = Vec<(String, Vec<Modifiers>, Type)>;

/// The arguments of a function call: name, modifiers.
pub type CallParameters = Vec<(String, Vec<Modifiers>)>;

/// A parsed statement.
#[derive(Debug)]
pub enum ParsedToken {
    /// A function call: the function called, its arguments.
    FunctionCall(String, CallParameters),
    /// A function declaration: name, parameters, return type.
    Function(String, Parameters, Type),
    /// An expression.
    Expression(Expression),
    /// An `if` statement: its condition.
    If(Expression),
    /// End of file.
    Eof,
}

/// Why a statement could not be parsed.
#[derive(Debug, Clone, Copy, PartialEq, Eq, Structural)]
pub enum ParseError {
    /// The token at this index does not fit the statement, or the tokens
    /// ran out here.
    Syntax(usize),
    /// The condition of an `if` does not compile.
    Condition(CompileError),
}

/// The kind of the token at `i`; past either end, `Eof`.
pub open spec fn tok(ts: Seq<Token>, i: int) -> TokenKind {
    if 0 <= i < ts.len() {
        ts[i].kind
    } else {
        TokenKind::Eof
    }
}

/// The parser's state: the tokens, a cursor into them, and the statements
/// parsed so far.
#[derive(Debug)]
pub struct Parser {
    pub tokens: Vec<Token>,
    pub i: usize,
    pub output: Vec<ParsedToken>,
}

impl Parser {
    /// The cursor stands within the tokens or just after them.
    pub open spec fn wf(&self) -> bool {
        self.i <= self.tokens.len()
    }

    /// A parser at the first of `tokens`, with nothing parsed yet.
    pub fn new(tokens: Vec<Token>) -> (r: Parser)
        ensures
            r.tokens == tokens,
            r.i == 0,
            r.output@.len() == 0,
    {
        Parser { tokens, i: 0, output: Vec::new() }
    }

    /// Advances the cursor by one.
    pub fn advance(&mut self)
        requires
            old(self).i < old(self).tokens.len(),
        ensures
            final(self).i == old(self).i + 1,
            final(self).tokens == old(self).tokens,
            final(self).output == old(self).output,
    {
        self.i += 1;
    }

    /// Advances the cursor by `val`.
    pub fn advance_with(&mut self, val: usize)
        requires
            old(self).i + val <= old(self).tokens.len(),
        ensures
            final(self).i == old(self).i + val,
            final(self).tokens == old(self).tokens,
            final(self).output == old(self).output,
    {
        self.i += val;
    }

    /// Appends `token` to the statements parsed so far.
    pub fn add_token(&mut self, token: ParsedToken)
        ensures
            final(self).i == old(self).i,
            final(self).tokens == old(self).tokens,
            final(self).output@ == old(self).output@.push(token),
    {
        self.output.push(token)
    }
}

/// A program as far as it is parsed: a function declaration at the first
/// token, then a function call where the declaration leaves off.
pub open spec fn program_at(ts: Seq<Token>) -> Result<
    ((String, Seq<ParamView>, Type), (String, Seq<ArgView>)),
    ParseError,
> {
    match function_at(ts, 0) {
        Ok((f, k)) => match call_at(ts, k) {
            Ok((c, _)) => Ok((f, c)),
            Err(e) => Err(e),
        },
        Err(e) => Err(e),
    }
}

/// Parses a program: a function declaration, then a function call (see
/// [`program_at`]).  Returns the statements parsed.
pub fn parser(tokens: Vec<Token>) -> (r: Result<Vec<ParsedToken>, ParseError>)
    ensures
        match program_at(tokens@) {
            Ok((f, c)) => {
                &&& r is Ok
                &&& r->Ok_0@.len() == 2
                &&& is_function(r->Ok_0@[0], f)
                &&& is_call(r->Ok_0@[1], c)
            },
            Err(e) => r == Err::<Vec<ParsedToken>, ParseError>(e),
        },
{
    let mut parser = Parser::new(tokens);
    match parse_function(&mut parser) {
        Ok(()) => {},
        Err(e) => return Err(e),
    }
    match parse_function_call(&mut parser) {
        Ok(()) => {},
        Err(e) => return Err(e),
    }
    Ok(parser.output)
}

} // verus!
