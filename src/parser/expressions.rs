//! The expression compiler: lexical tokens are mapped to expression tokens,
//! rewritten into postfix order by the shunting-yard algorithm, and packed
//! into one expression tree on a value stack, with constant operands folded
//! as soon as an operator meets them.
use vstd::prelude::*;

use crate::lexer::round_trip::{lemma_operation_tokens, operation_text};
use crate::lexer::{self, lemma_prefixed_assoc, lexemes, prefixed, tokens_of, TokenKind};

verus! {

/// An operator of an expression.
#[derive(Debug, Clone, Copy, PartialEq, Eq, Structural)]
pub enum OpKind {
    Add,
    Sub,
    Mul,
    Div,
    Mod,
    BitAnd,
    BitXor,
    BitOr,
    Equals,
    NotEquals,
    GtEq,
    LtEq,
    Gt,
    Lt,
    Inc,
    Dec,
}

/// A token of an expression, as the compiler works on it.
#[derive(Debug)]
pub enum Token {
    Num(i64),
    Boolean(bool),
    Ident(String),
    Operator(OpKind),
    LeftParen,
    RightParen,
    /// An operator applied to two operands that could not be folded.
    Combined(OpKind, Box<Token>, Box<Token>),
}

/// A leaf of an expression tree: a literal, an identifier or a nested expression.
#[derive(Debug, PartialEq, Eq)]
pub enum ExprKind {
    Num(i64),
    Boolean(bool),
    Ident(String),
    Expr(Box<ExprToken>),
}

/// A node of an expression tree.
#[derive(Debug, PartialEq, Eq)]
pub enum ExprToken {
    Add(ExprKind, ExprKind),
    Sub(ExprKind, ExprKind),
    Mul(ExprKind, ExprKind),
    Div(ExprKind, ExprKind),
    Mod(ExprKind, ExprKind),
    BitXor(ExprKind, ExprKind),
    BitOr(ExprKind, ExprKind),
    BitAnd(ExprKind, ExprKind),
    Equals(ExprKind, ExprKind),
    NotEquals(ExprKind, ExprKind),
    GtEq(ExprKind, ExprKind),
    LtEq(ExprKind, ExprKind),
    Gt(ExprKind, ExprKind),
    Lt(ExprKind, ExprKind),
    Inc(ExprKind),
    Dec(ExprKind),
    LeftParen,
    RightParen,
    /// A literal or an identifier with no operator applied.
    Other(ExprKind),
    Empty,
}

/// A compiled expression: the root of its tree.
#[derive(Debug, PartialEq, Eq)]
pub struct Expression {
    pub expr: ExprToken,
}

/// Why an expression could not be compiled.
#[derive(Debug, Clone, Copy, PartialEq, Eq, Structural)]
pub enum CompileError {
    /// The lexical token at this index cannot stand in an expression.
    InvalidToken(usize),
    /// A parenthesis without its partner.
    UnmatchedParen,
    /// An operator met fewer than two values.
    MissingOperand,
    /// An operator met operands it cannot combine.
    TypeMismatch,
    /// A constant division or remainder by zero.
    DivisionByZero,
    /// A constant result outside the range of `i64`.
    Overflow,
    /// A parenthesis reached the packer.
    UnexpectedToken,
    /// Packing left this many values instead of one.
    ValueCount(usize),
}

/// The one-operand operators.
pub open spec fn one_operand(op: OpKind) -> bool {
    op is Inc || op is Dec
}

/// A literal, an identifier or a combined node: what the value stack holds.
pub open spec fn is_value(t: Token) -> bool {
    t is Num || t is Boolean || t is Ident || t is Combined
}

/// How tightly an operator binds; higher binds tighter.
pub open spec fn precedence_of(op: OpKind) -> int {
    match op {
        OpKind::BitOr => 3,
        OpKind::BitXor => 4,
        OpKind::BitAnd => 5,
        OpKind::Equals | OpKind::NotEquals => 6,
        OpKind::Gt | OpKind::Lt | OpKind::GtEq | OpKind::LtEq => 7,
        OpKind::Add | OpKind::Sub => 8,
        OpKind::Mul | OpKind::Div | OpKind::Mod => 10,
        OpKind::Inc | OpKind::Dec => 11,
    }
}

/// The precedence of a token on the operator stack; a parenthesis has 13.
pub open spec fn stack_precedence(t: Token) -> int {
    match t {
        Token::Operator(op) => precedence_of(op),
        _ => 13,
    }
}

impl Token {
    /// An equal copy of this token.
    pub fn duplicate(&self) -> (r: Token)
        ensures
            r == *self,
        decreases self,
    {
        match self {
            Token::Num(v) => Token::Num(*v),
            Token::Boolean(b) => Token::Boolean(*b),
            Token::Ident(s) => Token::Ident(s.clone()),
            Token::Operator(op) => Token::Operator(*op),
            Token::LeftParen => Token::LeftParen,
            Token::RightParen => Token::RightParen,
            Token::Combined(op, l, r) => Token::Combined(
                *op,
                Box::new(l.duplicate()),
                Box::new(r.duplicate()),
            ),
        }
    }

    pub fn is_number(&self) -> (r: bool)
        ensures
            r == (*self is Num),
    {
        matches!(self, Token::Num(_))
    }

    pub fn is_boolean(&self) -> (r: bool)
        ensures
            r == (*self is Boolean),
    {
        matches!(self, Token::Boolean(_))
    }

    pub fn is_identifier(&self) -> (r: bool)
        ensures
            r == (*self is Ident),
    {
        matches!(self, Token::Ident(_))
    }

    pub fn is_operator(&self) -> (r: bool)
        ensures
            r == (*self is Operator),
    {
        matches!(self, Token::Operator(_))
    }

    /// The precedence of an operator; 13 for a parenthesis or any other
    /// token (see [`stack_precedence`]).
    pub fn precedence(&self) -> (r: u8)
        ensures
            r == stack_precedence(*self),
    {
        match self {
            Token::Operator(op) => op.precedence(),
            _ => 13,
        }
    }

    /// Is this a two-operand operator?
    pub fn is_two_operand(&self) -> (r: bool)
        ensures
            r == (*self matches Token::Operator(op) && !one_operand(op)),
    {
        match self {
            Token::Operator(op) => !op.is_one_operand(),
            _ => false,
        }
    }

    /// Is this a one-operand operator?
    pub fn is_one_operand(&self) -> (r: bool)
        ensures
            r == (*self matches Token::Operator(op) && one_operand(op)),
    {
        match self {
            Token::Operator(op) => op.is_one_operand(),
            _ => false,
        }
    }
}

impl OpKind {
    /// How tightly this operator binds (see [`precedence_of`]).
    pub fn precedence(&self) -> (r: u8)
        ensures
            r == precedence_of(*self),
    {
        match self {
            OpKind::BitOr => 3,
            OpKind::BitXor => 4,
            OpKind::BitAnd => 5,
            OpKind::Equals | OpKind::NotEquals => 6,
            OpKind::Gt | OpKind::Lt | OpKind::GtEq | OpKind::LtEq => 7,
            OpKind::Add | OpKind::Sub => 8,
            OpKind::Mul | OpKind::Div | OpKind::Mod => 10,
            OpKind::Inc | OpKind::Dec => 11,
        }
    }

    /// Is this `Inc` or `Dec`?
    pub fn is_one_operand(&self) -> (r: bool)
        ensures
            r == one_operand(*self),
    {
        matches!(self, OpKind::Inc | OpKind::Dec)
    }
}

// ---------------------------------------------------------------------------
// Mapping lexical tokens to expression tokens.

/// The expression token that a lexical token kind stands for, if it may
/// stand in an expression.
pub open spec fn expr_token_of(k: TokenKind) -> Option<Token> {
    match k {
        TokenKind::Plus => Some(Token::Operator(OpKind::Add)),
        TokenKind::Minus => Some(Token::Operator(OpKind::Sub)),
        TokenKind::Slash => Some(Token::Operator(OpKind::Div)),
        TokenKind::Star => Some(Token::Operator(OpKind::Mul)),
        TokenKind::Percent => Some(Token::Operator(OpKind::Mod)),
        TokenKind::Caret => Some(Token::Operator(OpKind::BitXor)),
        TokenKind::And => Some(Token::Operator(OpKind::BitAnd)),
        TokenKind::Pipe => Some(Token::Operator(OpKind::BitOr)),
        TokenKind::DoubleEquals => Some(Token::Operator(OpKind::Equals)),
        TokenKind::BangEquals => Some(Token::Operator(OpKind::NotEquals)),
        TokenKind::GtEq => Some(Token::Operator(OpKind::GtEq)),
        TokenKind::LtEq => Some(Token::Operator(OpKind::LtEq)),
        TokenKind::GreaterThan => Some(Token::Operator(OpKind::Gt)),
        TokenKind::LessThan => Some(Token::Operator(OpKind::Lt)),
        TokenKind::LeftParen => Some(Token::LeftParen),
        TokenKind::RightParen => Some(Token::RightParen),
        TokenKind::IntegerLiteral(v) => Some(Token::Num(v)),
        TokenKind::True => Some(Token::Boolean(true)),
        TokenKind::False => Some(Token::Boolean(false)),
        TokenKind::Unknown(name) => Some(Token::Ident(name)),
        _ => None,
    }
}

/// The expression tokens of the lexical tokens from index `i` on, up to the
/// first `Eof` or the end; or the first token that may not stand in an
/// expression.
pub open spec fn tokenize_from(ts: Seq<lexer::Token>, i: int) -> Result<Seq<Token>, CompileError>
    decreases ts.len() - i,
{
    if i < 0 || i >= ts.len() || ts[i].kind is Eof {
        Ok(Seq::empty())
    } else {
        match expr_token_of(ts[i].kind) {
            Some(t) => prefixed(seq![t], tokenize_from(ts, i + 1)),
            None => Err(CompileError::InvalidToken(i as usize)),
        }
    }
}

/// The expression token that `kind` stands for (see [`expr_token_of`]).
pub fn token_of(kind: &TokenKind) -> (r: Option<Token>)
    ensures
        r == expr_token_of(*kind),
{
    match kind {
        TokenKind::Plus => Some(Token::Operator(OpKind::Add)),
        TokenKind::Minus => Some(Token::Operator(OpKind::Sub)),
        TokenKind::Slash => Some(Token::Operator(OpKind::Div)),
        TokenKind::Star => Some(Token::Operator(OpKind::Mul)),
        TokenKind::Percent => Some(Token::Operator(OpKind::Mod)),
        TokenKind::Caret => Some(Token::Operator(OpKind::BitXor)),
        TokenKind::And => Some(Token::Operator(OpKind::BitAnd)),
        TokenKind::Pipe => Some(Token::Operator(OpKind::BitOr)),
        TokenKind::DoubleEquals => Some(Token::Operator(OpKind::Equals)),
        TokenKind::BangEquals => Some(Token::Operator(OpKind::NotEquals)),
        TokenKind::GtEq => Some(Token::Operator(OpKind::GtEq)),
        TokenKind::LtEq => Some(Token::Operator(OpKind::LtEq)),
        TokenKind::GreaterThan => Some(Token::Operator(OpKind::Gt)),
        TokenKind::LessThan => Some(Token::Operator(OpKind::Lt)),
        TokenKind::LeftParen => Some(Token::LeftParen),
        TokenKind::RightParen => Some(Token::RightParen),
        TokenKind::IntegerLiteral(v) => Some(Token::Num(*v)),
        TokenKind::True => Some(Token::Boolean(true)),
        TokenKind::False => Some(Token::Boolean(false)),
        TokenKind::Unknown(name) => Some(Token::Ident(name.clone())),
        _ => None,
    }
}

/// Maps the lexical tokens of one expression to expression tokens, stopping
/// at the first `Eof`.
pub fn tokenize(input: Vec<lexer::Token>) -> (r: Result<Vec<Token>, CompileError>)
    ensures
        match tokenize_from(input@, 0) {
            Ok(s) => r is Ok && r->Ok_0@ == s,
            Err(e) => r == Err::<Vec<Token>, CompileError>(e),
        },
{
    proof {
        assert(input@.subrange(0, input@.len() as int) =~= input@);
    }
    tokenize_range(&input, 0, input.len())
}

/// Maps the lexical tokens `input[start..end]` to expression tokens (see
/// [`tokenize`]); an index in an error counts from `start`.
pub fn tokenize_range(input: &Vec<lexer::Token>, start: usize, end: usize) -> (r: Result<
    Vec<Token>,
    CompileError,
>)
    requires
        start <= end <= input@.len(),
    ensures
        match tokenize_from(input@.subrange(start as int, end as int), 0) {
            Ok(s) => r is Ok && r->Ok_0@ == s,
            Err(e) => r == Err::<Vec<Token>, CompileError>(e),
        },
{
    let ghost ts = input@.subrange(start as int, end as int);
    let mut res: Vec<Token> = Vec::new();
    let mut i: usize = start;
    proof {
        if let Ok(s) = tokenize_from(ts, 0) {
            assert(res@ + s =~= s);
        }
    }
    loop
        invariant_except_break
            tokenize_from(ts, 0) == prefixed(res@, tokenize_from(ts, i - start)),
        invariant
            start <= i <= end <= input@.len(),
            ts == input@.subrange(start as int, end as int),
        ensures
            tokenize_from(ts, 0) == Ok::<Seq<Token>, CompileError>(res@),
        decreases end - i,
    {
        if i >= end || matches!(input[i].kind, TokenKind::Eof) {
            proof {
                assert(res@ + Seq::<Token>::empty() =~= res@);
            }
            break ;
        }
        match token_of(&input[i].kind) {
            Some(t) => {
                proof {
                    lemma_prefixed_assoc(res@, seq![t], tokenize_from(ts, i + 1 - start));
                    assert(res@ + seq![t] =~= res@.push(t));
                }
                res.push(t);
            },
            None => return Err(CompileError::InvalidToken(i - start)),
        }
        i += 1;
    }
    Ok(res)
}

// ---------------------------------------------------------------------------
// Infix to postfix.

/// Moves operators from the top of the operator stack to the output while
/// the top is not a left parenthesis and binds at least as tightly as `p`,
/// so that operators of equal precedence group from left to right.
pub open spec fn pop_operators(ops: Seq<Token>, out: Seq<Token>, p: int) -> (Seq<Token>, Seq<Token>)
    decreases ops.len(),
{
    if ops.len() == 0 || ops.last() is LeftParen || stack_precedence(ops.last()) < p {
        (ops, out)
    } else {
        pop_operators(ops.drop_last(), out.push(ops.last()), p)
    }
}

/// Moves operators from the operator stack to the output down to the
/// nearest left parenthesis, which is dropped; an error where there is none.
pub open spec fn close_paren(ops: Seq<Token>, out: Seq<Token>) -> Result<
    (Seq<Token>, Seq<Token>),
    CompileError,
>
    decreases ops.len(),
{
    if ops.len() == 0 {
        Err(CompileError::UnmatchedParen)
    } else if ops.last() is LeftParen {
        Ok((ops.drop_last(), out))
    } else {
        close_paren(ops.drop_last(), out.push(ops.last()))
    }
}

/// Moves every operator left on the stack to the output, last pushed first;
/// an error where a left parenthesis was never closed.
pub open spec fn drain(ops: Seq<Token>, out: Seq<Token>) -> Result<Seq<Token>, CompileError>
    decreases ops.len(),
{
    if ops.len() == 0 {
        Ok(out)
    } else if ops.last() is LeftParen {
        Err(CompileError::UnmatchedParen)
    } else {
        drain(ops.drop_last(), out.push(ops.last()))
    }
}

/// The shunting-yard algorithm on `input` from index `i` on, with operator
/// stack `ops` and output `out` so far.  Values go straight to the output;
/// an operator first moves the operators that bind at least as tightly to
/// the output, then is pushed; a left parenthesis is pushed; a right
/// parenthesis closes the nearest left one.
pub open spec fn shunt(input: Seq<Token>, i: int, ops: Seq<Token>, out: Seq<Token>) -> Result<
    Seq<Token>,
    CompileError,
>
    decreases input.len() - i,
{
    if i < 0 || i >= input.len() {
        drain(ops, out)
    } else {
        let t = input[i];
        match t {
            Token::Operator(op) => {
                let (ops2, out2) = pop_operators(ops, out, precedence_of(op));
                shunt(input, i + 1, ops2.push(t), out2)
            },
            Token::LeftParen => shunt(input, i + 1, ops.push(t), out),
            Token::RightParen => match close_paren(ops, out) {
                Ok((ops2, out2)) => shunt(input, i + 1, ops2, out2),
                Err(e) => Err(e),
            },
            _ => shunt(input, i + 1, ops, out.push(t)),
        }
    }
}

/// The postfix form of an infix token sequence.
pub open spec fn postfix_of(input: Seq<Token>) -> Result<Seq<Token>, CompileError> {
    shunt(input, 0, Seq::empty(), Seq::empty())
}

/// Turns an infix token sequence into postfix order by the shunting-yard
/// algorithm.
pub fn convert(input: Vec<Token>) -> (r: Result<Vec<Token>, CompileError>)
    ensures
        match postfix_of(input@) {
            Ok(s) => r is Ok && r->Ok_0@ == s,
            Err(e) => r == Err::<Vec<Token>, CompileError>(e),
        },
{
    let mut operator_stack: Vec<Token> = Vec::new();
    let mut output_queue: Vec<Token> = Vec::new();
    let mut i: usize = 0;
    while i < input.len()
        invariant
            i <= input.len(),
            postfix_of(input@) == shunt(input@, i as int, operator_stack@, output_queue@),
        decreases input.len() - i,
    {
        match &input[i] {
            Token::Operator(op) => {
                let p = op.precedence();
                let ghost ops0 = operator_stack@;
                let ghost out0 = output_queue@;
                loop
                    invariant
                        pop_operators(ops0, out0, p as int) == pop_operators(
                            operator_stack@,
                            output_queue@,
                            p as int,
                        ),
                    ensures
                        pop_operators(ops0, out0, p as int) == (operator_stack@, output_queue@),
                    decreases operator_stack.len(),
                {
                    let n = operator_stack.len();
                    if n == 0 || matches!(operator_stack[n - 1], Token::LeftParen)
                        || operator_stack[n - 1].precedence() < p {
                        break ;
                    }
                    match operator_stack.pop() {
                        Some(top) => output_queue.push(top),
                        None => {},
                    }
                }
                operator_stack.push(Token::Operator(*op));
            },
            Token::LeftParen => {
                operator_stack.push(Token::LeftParen);
            },
            Token::RightParen => {
                let ghost ops0 = operator_stack@;
                let ghost out0 = output_queue@;
                assert(shunt(input@, i as int, ops0, out0) == match close_paren(ops0, out0) {
                    Ok((a, b)) => shunt(input@, i + 1, a, b),
                    Err(e) => Err(e),
                });
                loop
                    invariant_except_break
                        close_paren(ops0, out0) == close_paren(operator_stack@, output_queue@),
                    invariant
                        postfix_of(input@) == match close_paren(ops0, out0) {
                            Ok((a, b)) => shunt(input@, i + 1, a, b),
                            Err(e) => Err(e),
                        },
                    ensures
                        close_paren(ops0, out0) == Ok::<(Seq<Token>, Seq<Token>), CompileError>(
                            (operator_stack@, output_queue@),
                        ),
                    decreases operator_stack.len(),
                {
                    match operator_stack.pop() {
                        None => return Err(CompileError::UnmatchedParen),
                        Some(Token::LeftParen) => break ,
                        Some(top) => output_queue.push(top),
                    }
                }
            },
            t => {
                output_queue.push(t.duplicate());
            },
        }
        i += 1;
    }
    loop
        invariant
            postfix_of(input@) == drain(operator_stack@, output_queue@),
        decreases operator_stack.len(),
    {
        match operator_stack.pop() {
            None => return Ok(output_queue),
            Some(Token::LeftParen) => return Err(CompileError::UnmatchedParen),
            Some(top) => output_queue.push(top),
        }
    }
}

// ---------------------------------------------------------------------------
// Packing a postfix sequence into one expression.

/// A constant result: the integer `v`, or an overflow where it does not fit
/// in an `i64`.
pub open spec fn checked_num(v: int) -> Result<Token, CompileError> {
    if i64::MIN <= v <= i64::MAX {
        Ok(Token::Num(v as i64))
    } else {
        Err(CompileError::Overflow)
    }
}

/// `op` applied to two integer constants.  Division and remainder round
/// toward zero, as Rust's `/` and `%` on `i64` do; the six comparisons yield
/// a boolean.
pub open spec fn fold(op: OpKind, a: i64, b: i64) -> Result<Token, CompileError> {
    match op {
        OpKind::Add => checked_num(a + b),
        OpKind::Sub => checked_num(a - b),
        OpKind::Mul => checked_num(a * b),
        OpKind::Div => if b == 0 {
            Err(CompileError::DivisionByZero)
        } else {
            match a.checked_div(b) {
                Some(v) => Ok(Token::Num(v)),
                None => Err(CompileError::Overflow),
            }
        },
        OpKind::Mod => if b == 0 {
            Err(CompileError::DivisionByZero)
        } else {
            match a.checked_rem(b) {
                Some(v) => Ok(Token::Num(v)),
                None => Err(CompileError::Overflow),
            }
        },
        OpKind::BitXor => Ok(Token::Num(a ^ b)),
        OpKind::BitOr => Ok(Token::Num(a | b)),
        OpKind::BitAnd => Ok(Token::Num(a & b)),
        OpKind::Equals => Ok(Token::Boolean(a == b)),
        OpKind::NotEquals => Ok(Token::Boolean(a != b)),
        OpKind::GtEq => Ok(Token::Boolean(a >= b)),
        OpKind::LtEq => Ok(Token::Boolean(a <= b)),
        OpKind::Gt => Ok(Token::Boolean(a > b)),
        OpKind::Lt => Ok(Token::Boolean(a < b)),
        OpKind::Inc | OpKind::Dec => Err(CompileError::TypeMismatch),
    }
}

/// A two-operand operator applied to the values `l` and `r`: folded where
/// both are integers, a combined node where one is an identifier and the
/// other an integer or an identifier, and an error for any other pair.
pub open spec fn apply_spec(l: Token, r: Token, op: OpKind) -> Result<Token, CompileError> {
    match (l, r) {
        (Token::Num(a), Token::Num(b)) => fold(op, a, b),
        (Token::Num(_), Token::Ident(_))
        | (Token::Ident(_), Token::Num(_))
        | (Token::Ident(_), Token::Ident(_)) => Ok(Token::Combined(op, Box::new(l), Box::new(r))),
        _ => Err(CompileError::TypeMismatch),
    }
}

/// One postfix token applied to the value stack `vals`.  A value is pushed.
/// A two-operand operator takes the value below the top as its left operand
/// and the top as its right one, and pushes the result.  A one-operand
/// operator leaves the stack as it is.  A parenthesis is an error.
pub open spec fn pack_step(vals: Seq<Token>, t: Token) -> Result<Seq<Token>, CompileError> {
    match t {
        Token::Operator(op) => if one_operand(op) {
            Ok(vals)
        } else if vals.len() < 2 {
            Err(CompileError::MissingOperand)
        } else {
            let n = vals.len();
            match apply_spec(vals[n - 2], vals[n - 1], op) {
                Ok(v) => Ok(vals.subrange(0, n - 2).push(v)),
                Err(e) => Err(e),
            }
        },
        Token::LeftParen | Token::RightParen => Err(CompileError::UnexpectedToken),
        _ => Ok(vals.push(t)),
    }
}

/// The value stack after the postfix tokens of `ts` from index `i` on are
/// applied to `vals`, or the first error.
pub open spec fn pack_from(ts: Seq<Token>, i: int, vals: Seq<Token>) -> Result<
    Seq<Token>,
    CompileError,
>
    decreases ts.len() - i,
{
    if i < 0 || i >= ts.len() {
        Ok(vals)
    } else {
        match pack_step(vals, ts[i]) {
            Ok(next) => pack_from(ts, i + 1, next),
            Err(e) => Err(e),
        }
    }
}

/// The leaf that an operand of a combined node becomes.
pub open spec fn operand_kind(t: Token) -> Option<ExprKind> {
    match t {
        Token::Num(v) => Some(ExprKind::Num(v)),
        Token::Boolean(b) => Some(ExprKind::Boolean(b)),
        Token::Ident(s) => Some(ExprKind::Ident(s)),
        _ => None,
    }
}

/// The tree node of a two-operand operator over `a` and `b`.
pub open spec fn fill_of(op: OpKind, a: ExprKind, b: ExprKind) -> ExprToken {
    match op {
        OpKind::Add => ExprToken::Add(a, b),
        OpKind::Sub => ExprToken::Sub(a, b),
        OpKind::Div => ExprToken::Div(a, b),
        OpKind::Mul => ExprToken::Mul(a, b),
        OpKind::Mod => ExprToken::Mod(a, b),
        OpKind::BitXor => ExprToken::BitXor(a, b),
        OpKind::BitOr => ExprToken::BitOr(a, b),
        OpKind::BitAnd => ExprToken::BitAnd(a, b),
        OpKind::Equals => ExprToken::Equals(a, b),
        OpKind::NotEquals => ExprToken::NotEquals(a, b),
        OpKind::GtEq => ExprToken::GtEq(a, b),
        OpKind::LtEq => ExprToken::LtEq(a, b),
        OpKind::Gt => ExprToken::Gt(a, b),
        OpKind::Lt => ExprToken::Lt(a, b),
        OpKind::Inc | OpKind::Dec => ExprToken::Empty,
    }
}

/// The tree that the last value on the stack becomes: a literal or an
/// identifier is wrapped in `Other`; a combined node becomes its operator's
/// node over the leaves of its operands.
pub open spec fn expr_of(t: Token) -> Result<ExprToken, CompileError> {
    match t {
        Token::Num(_) | Token::Boolean(_) | Token::Ident(_) => Ok(ExprToken::Other(operand_kind(t)->0)),
        Token::Combined(op, l, r) => if !one_operand(op) && operand_kind(*l) is Some && operand_kind(
            *r,
        ) is Some {
            Ok(fill_of(op, operand_kind(*l)->0, operand_kind(*r)->0))
        } else {
            Err(CompileError::TypeMismatch)
        },
        _ => Err(CompileError::TypeMismatch),
    }
}

/// The expression that a postfix sequence packs into: exactly one value must
/// be left on the stack.
pub open spec fn packed(ts: Seq<Token>) -> Result<Expression, CompileError> {
    match pack_from(ts, 0, Seq::empty()) {
        Ok(vals) => if vals.len() != 1 {
            Err(CompileError::ValueCount(vals.len() as usize))
        } else {
            match expr_of(vals[0]) {
                Ok(e) => Ok(Expression { expr: e }),
                Err(e) => Err(e),
            }
        },
        Err(e) => Err(e),
    }
}

/// The expression that the lexical tokens `ts` compile to: mapped, put in
/// postfix order, then packed.
pub open spec fn compiled(ts: Seq<lexer::Token>) -> Result<Expression, CompileError> {
    match tokenize_from(ts, 0) {
        Ok(infix) => match postfix_of(infix) {
            Ok(postfix) => packed(postfix),
            Err(e) => Err(e),
        },
        Err(e) => Err(e),
    }
}

/// Applies a two-operand operator to two values (see [`apply_spec`]).
pub fn apply(l: &Token, r: &Token, op: &OpKind) -> (res: Result<Token, CompileError>)
    ensures
        res == apply_spec(*l, *r, *op),
{
    match (l, r) {
        (Token::Num(a), Token::Num(b)) => {
            let (a, b) = (*a, *b);
            match op {
                OpKind::Add => match a.checked_add(b) {
                    Some(v) => Ok(Token::Num(v)),
                    None => Err(CompileError::Overflow),
                },
                OpKind::Sub => match a.checked_sub(b) {
                    Some(v) => Ok(Token::Num(v)),
                    None => Err(CompileError::Overflow),
                },
                OpKind::Mul => match a.checked_mul(b) {
                    Some(v) => Ok(Token::Num(v)),
                    None => Err(CompileError::Overflow),
                },
                OpKind::Div => if b == 0 {
                    Err(CompileError::DivisionByZero)
                } else {
                    match a.checked_div(b) {
                        Some(v) => Ok(Token::Num(v)),
                        None => Err(CompileError::Overflow),
                    }
                },
                OpKind::Mod => if b == 0 {
                    Err(CompileError::DivisionByZero)
                } else {
                    match a.checked_rem(b) {
                        Some(v) => Ok(Token::Num(v)),
                        None => Err(CompileError::Overflow),
                    }
                },
                OpKind::BitXor => Ok(Token::Num(a ^ b)),
                OpKind::BitOr => Ok(Token::Num(a | b)),
                OpKind::BitAnd => Ok(Token::Num(a & b)),
                OpKind::Equals => Ok(Token::Boolean(a == b)),
                OpKind::NotEquals => Ok(Token::Boolean(a != b)),
                OpKind::GtEq => Ok(Token::Boolean(a >= b)),
                OpKind::LtEq => Ok(Token::Boolean(a <= b)),
                OpKind::Gt => Ok(Token::Boolean(a > b)),
                OpKind::Lt => Ok(Token::Boolean(a < b)),
                OpKind::Inc | OpKind::Dec => Err(CompileError::TypeMismatch),
            }
        },
        (Token::Num(_), Token::Ident(_))
        | (Token::Ident(_), Token::Num(_))
        | (Token::Ident(_), Token::Ident(_)) => Ok(
            Token::Combined(*op, Box::new(l.duplicate()), Box::new(r.duplicate())),
        ),
        _ => Err(CompileError::TypeMismatch),
    }
}

/// The tree node of a two-operand operator `op` over `a` and `b`.
pub fn fill(op: &OpKind, a: ExprKind, b: ExprKind) -> (r: ExprToken)
    requires
        !one_operand(*op),
    ensures
        r == fill_of(*op, a, b),
{
    match *op {
        OpKind::Add => ExprToken::Add(a, b),
        OpKind::Sub => ExprToken::Sub(a, b),
        OpKind::Div => ExprToken::Div(a, b),
        OpKind::Mul => ExprToken::Mul(a, b),
        OpKind::Mod => ExprToken::Mod(a, b),
        OpKind::BitXor => ExprToken::BitXor(a, b),
        OpKind::BitOr => ExprToken::BitOr(a, b),
        OpKind::BitAnd => ExprToken::BitAnd(a, b),
        OpKind::Equals => ExprToken::Equals(a, b),
        OpKind::NotEquals => ExprToken::NotEquals(a, b),
        OpKind::GtEq => ExprToken::GtEq(a, b),
        OpKind::LtEq => ExprToken::LtEq(a, b),
        OpKind::Gt => ExprToken::Gt(a, b),
        OpKind::Lt => ExprToken::Lt(a, b),
        OpKind::Inc | OpKind::Dec => ExprToken::Empty,
    }
}

/// The tree node of a one-operand operator `op` over `a`.
pub fn fill_binary(op: &OpKind, a: ExprKind) -> (r: ExprToken)
    requires
        one_operand(*op),
    ensures
        r == (if *op is Inc {
            ExprToken::Inc(a)
        } else {
            ExprToken::Dec(a)
        }),
{
    match *op {
        OpKind::Inc => ExprToken::Inc(a),
        _ => ExprToken::Dec(a),
    }
}

/// The leaf that an operand becomes (see [`operand_kind`]).
pub fn to_operand(t: &Token) -> (r: Option<ExprKind>)
    ensures
        r == operand_kind(*t),
{
    match t {
        Token::Num(v) => Some(ExprKind::Num(*v)),
        Token::Boolean(b) => Some(ExprKind::Boolean(*b)),
        Token::Ident(s) => Some(ExprKind::Ident(s.clone())),
        _ => None,
    }
}

/// The tree that the last value on the stack becomes (see [`expr_of`]).
pub fn token_to_expr_token(token: &Token) -> (r: Result<ExprToken, CompileError>)
    ensures
        r == expr_of(*token),
{
    match token {
        Token::Num(_) | Token::Boolean(_) | Token::Ident(_) => match to_operand(token) {
            Some(k) => Ok(ExprToken::Other(k)),
            None => Err(CompileError::TypeMismatch),
        },
        Token::Combined(op, l, r) => {
            if op.is_one_operand() {
                return Err(CompileError::TypeMismatch);
            }
            match (to_operand(l), to_operand(r)) {
                (Some(a), Some(b)) => Ok(fill(op, a, b)),
                _ => Err(CompileError::TypeMismatch),
            }
        },
        _ => Err(CompileError::TypeMismatch),
    }
}

/// Packs a postfix sequence into one expression on a value stack, folding
/// constant operands as it goes (see [`packed`]).
pub fn pack(tokens: Vec<Token>) -> (r: Result<Expression, CompileError>)
    ensures
        r == packed(tokens@),
{
    let mut values: Vec<Token> = Vec::new();
    let mut k: usize = 0;
    while k < tokens.len()
        invariant
            k <= tokens.len(),
            pack_from(tokens@, 0, Seq::empty()) == pack_from(tokens@, k as int, values@),
        decreases tokens.len() - k,
    {
        let ghost vals = values@;
        match &tokens[k] {
            Token::Operator(op) => {
                if !op.is_one_operand() {
                    if values.len() < 2 {
                        return Err(CompileError::MissingOperand);
                    }
                    let right = values.pop().unwrap();
                    let left = values.pop().unwrap();
                    proof {
                        assert(values@ =~= vals.subrange(0, vals.len() - 2));
                    }
                    match apply(&left, &right, op) {
                        Ok(v) => values.push(v),
                        Err(e) => return Err(e),
                    }
                }
            },
            Token::LeftParen | Token::RightParen => return Err(CompileError::UnexpectedToken),
            t => values.push(t.duplicate()),
        }
        k += 1;
    }
    if values.len() != 1 {
        return Err(CompileError::ValueCount(values.len()));
    }
    match token_to_expr_token(&values[0]) {
        Ok(e) => Ok(Expression { expr: e }),
        Err(e) => Err(e),
    }
}

/// Compiles the lexical tokens of one expression, up to the first `Eof`, into
/// an expression tree (see [`compiled`]).
pub fn parse_expression(expr: Vec<lexer::Token>) -> (r: Result<Expression, CompileError>)
    ensures
        r == compiled(expr@),
{
    proof {
        assert(expr@.subrange(0, expr@.len() as int) =~= expr@);
    }
    compile_range(&expr, 0, expr.len())
}

/// Compiles the lexical tokens `ts[start..end]` into an expression tree (see
/// [`parse_expression`]).
pub fn compile_range(ts: &Vec<lexer::Token>, start: usize, end: usize) -> (r: Result<
    Expression,
    CompileError,
>)
    requires
        start <= end <= ts@.len(),
    ensures
        r == compiled(ts@.subrange(start as int, end as int)),
{
    let tokens = match tokenize_range(ts, start, end) {
        Ok(t) => t,
        Err(e) => return Err(e),
    };
    let postfix = match convert(tokens) {
        Ok(p) => p,
        Err(e) => return Err(e),
    };
    pack(postfix)
}

// ---------------------------------------------------------------------------
// Laws.

/// The lexical tokens that stand for a two-operand operator in source text.
pub open spec fn operator_symbol(k: TokenKind) -> bool {
    ||| k is Plus
    ||| k is Minus
    ||| k is Star
    ||| k is Slash
    ||| k is Percent
    ||| k is Caret
    ||| k is Pipe
    ||| k is And
    ||| k is DoubleEquals
    ||| k is BangEquals
    ||| k is GtEq
    ||| k is LtEq
    ||| k is GreaterThan
    ||| k is LessThan
}

pub open spec fn abs(x: int) -> int {
    if x < 0 {
        -x
    } else {
        x
    }
}

/// Integer division rounded toward zero.
pub open spec fn trunc_div(a: int, b: int) -> int {
    if (a < 0) == (b < 0) {
        abs(a) / abs(b)
    } else {
        -(abs(a) / abs(b))
    }
}

/// The remainder of division rounded toward zero; it takes the sign of `a`.
pub open spec fn trunc_rem(a: int, b: int) -> int {
    if a < 0 {
        -(abs(a) % abs(b))
    } else {
        abs(a) % abs(b)
    }
}

/// `i64::checked_div` and `i64::checked_rem` round toward zero.
pub proof fn lemma_truncating_division(a: i64, b: i64)
    requires
        b != 0,
        !(a == i64::MIN && b == -1),
    ensures
        a.checked_div(b) == Some(trunc_div(a as int, b as int) as i64),
        a.checked_rem(b) == Some(trunc_rem(a as int, b as int) as i64),
        i64::MIN <= trunc_div(a as int, b as int) <= i64::MAX,
        i64::MIN <= trunc_rem(a as int, b as int) <= i64::MAX,
{
    let x = abs(a as int);
    let d = abs(b as int);
    assert(0 <= x / d <= x) by (nonlinear_arith)
        requires
            x >= 0,
            d >= 1,
    ;
    assert(0 <= x % d < d) by (nonlinear_arith)
        requires
            x >= 0,
            d >= 1,
    ;
    if d >= 2 {
        assert(x / d <= x / 2) by (nonlinear_arith)
            requires
                x >= 0,
                d >= 2,
        ;
    }
    assert(0int / d == 0 && 0int % d == 0) by (nonlinear_arith)
        requires
            d >= 1,
    ;
}

/// Does Rust's own operator overflow on `a` and `b`?
pub open spec fn native_overflows(op: TokenKind, a: i64, b: i64) -> bool {
    match op {
        TokenKind::Plus => !(i64::MIN <= a + b <= i64::MAX),
        TokenKind::Minus => !(i64::MIN <= a - b <= i64::MAX),
        TokenKind::Star => !(i64::MIN <= a * b <= i64::MAX),
        TokenKind::Slash | TokenKind::Percent => a == i64::MIN && b == -1,
        _ => false,
    }
}

/// What Rust's own operator gives on `a` and `b`: an integer for the
/// arithmetic and bitwise operators, a boolean for the comparisons.
pub open spec fn native(op: TokenKind, a: i64, b: i64) -> ExprKind {
    match op {
        TokenKind::Plus => ExprKind::Num((a + b) as i64),
        TokenKind::Minus => ExprKind::Num((a - b) as i64),
        TokenKind::Star => ExprKind::Num((a * b) as i64),
        TokenKind::Slash => ExprKind::Num(trunc_div(a as int, b as int) as i64),
        TokenKind::Percent => ExprKind::Num(trunc_rem(a as int, b as int) as i64),
        TokenKind::Caret => ExprKind::Num(a ^ b),
        TokenKind::Pipe => ExprKind::Num(a | b),
        TokenKind::And => ExprKind::Num(a & b),
        TokenKind::DoubleEquals => ExprKind::Boolean(a == b),
        TokenKind::BangEquals => ExprKind::Boolean(a != b),
        TokenKind::GtEq => ExprKind::Boolean(a >= b),
        TokenKind::LtEq => ExprKind::Boolean(a <= b),
        TokenKind::GreaterThan => ExprKind::Boolean(a > b),
        _ => ExprKind::Boolean(a < b),
    }
}

/// Two integer literals around a two-operand operator, as the tokenizer
/// hands them over (with sizes `sa`, `so`, `sb`), ended by `Eof`.
pub open spec fn literal_operation(a: i64, op: TokenKind, b: i64, sa: usize, so: usize, sb: usize) -> Seq<
    lexer::Token,
> {
    seq![
        lexer::Token { kind: TokenKind::IntegerLiteral(a), size: sa },
        lexer::Token { kind: op, size: so },
        lexer::Token { kind: TokenKind::IntegerLiteral(b), size: sb },
        lexer::Token { kind: TokenKind::Eof, size: 0 },
    ]
}

/// Compiling `a OP b` for two integer literals and a two-operand operator
/// folds to one literal, equal to what Rust's own operator gives: a boolean
/// for the comparisons, an integer for the rest.  This holds wherever `b`
/// is not zero and Rust's operator does not overflow.
pub proof fn lemma_literal_operation_folds(
    a: i64,
    op: TokenKind,
    b: i64,
    sa: usize,
    so: usize,
    sb: usize,
)
    requires
        b != 0,
        operator_symbol(op),
        !native_overflows(op, a, b),
    ensures
        compiled(literal_operation(a, op, b, sa, so, sb)) == Ok::<Expression, CompileError>(
            Expression { expr: ExprToken::Other(native(op, a, b)) },
        ),
{
    let ts = literal_operation(a, op, b, sa, so, sb);
    let t = expr_token_of(op)->0;
    let o = t->Operator_0;
    let infix = seq![Token::Num(a), t, Token::Num(b)];
    assert(tokenize_from(ts, 3) == Ok::<Seq<Token>, CompileError>(Seq::empty()));
    assert(tokenize_from(ts, 2) == Ok::<Seq<Token>, CompileError>(seq![Token::Num(b)]));
    assert(tokenize_from(ts, 1) == Ok::<Seq<Token>, CompileError>(seq![t, Token::Num(b)])) by {
        assert(seq![t] + seq![Token::Num(b)] =~= seq![t, Token::Num(b)]);
    }
    assert(tokenize_from(ts, 0) == Ok::<Seq<Token>, CompileError>(infix)) by {
        assert(seq![Token::Num(a)] + seq![t, Token::Num(b)] =~= infix);
    }
    let postfix = seq![Token::Num(a), Token::Num(b), t];
    let e = Seq::<Token>::empty();
    assert(drain(e, postfix) == Ok::<Seq<Token>, CompileError>(postfix));
    assert(drain(seq![t], seq![Token::Num(a), Token::Num(b)]) == drain(e, postfix)) by {
        assert(seq![t].drop_last() =~= e);
        assert(seq![Token::Num(a), Token::Num(b)].push(t) =~= postfix);
    }
    assert(shunt(infix, 3, seq![t], seq![Token::Num(a), Token::Num(b)]) == Ok::<
        Seq<Token>,
        CompileError,
    >(postfix));
    assert(shunt(infix, 2, seq![t], seq![Token::Num(a)]) == Ok::<Seq<Token>, CompileError>(
        postfix,
    )) by {
        assert(seq![Token::Num(a)].push(Token::Num(b)) =~= seq![Token::Num(a), Token::Num(b)]);
    }
    assert(pop_operators(e, seq![Token::Num(a)], precedence_of(o)) == (e, seq![Token::Num(a)]));
    assert(shunt(infix, 1, e, seq![Token::Num(a)]) == Ok::<Seq<Token>, CompileError>(postfix)) by {
        assert(e.push(t) =~= seq![t]);
    }
    assert(postfix_of(infix) == Ok::<Seq<Token>, CompileError>(postfix)) by {
        assert(e.push(Token::Num(a)) =~= seq![Token::Num(a)]);
    }
    let folded = match native(op, a, b) {
        ExprKind::Num(v) => Token::Num(v),
        ExprKind::Boolean(v) => Token::Boolean(v),
        _ => Token::LeftParen,
    };
    assert(fold(o, a, b) == Ok::<Token, CompileError>(folded)) by {
        if op is Slash || op is Percent {
            lemma_truncating_division(a, b);
        }
    }
    assert(pack_from(postfix, 3, seq![folded]) == Ok::<Seq<Token>, CompileError>(seq![folded]));
    assert(pack_step(seq![Token::Num(a), Token::Num(b)], t) == Ok::<Seq<Token>, CompileError>(
        seq![folded],
    )) by {
        assert(seq![Token::Num(a), Token::Num(b)].subrange(0, 0).push(folded) =~= seq![folded]);
    }
    assert(pack_from(postfix, 2, seq![Token::Num(a), Token::Num(b)]) == Ok::<
        Seq<Token>,
        CompileError,
    >(seq![folded]));
    assert(pack_from(postfix, 1, seq![Token::Num(a)]) == Ok::<Seq<Token>, CompileError>(
        seq![folded],
    )) by {
        assert(seq![Token::Num(a)].push(Token::Num(b)) =~= seq![Token::Num(a), Token::Num(b)]);
    }
    assert(pack_from(postfix, 0, e) == Ok::<Seq<Token>, CompileError>(seq![folded])) by {
        assert(e.push(Token::Num(a)) =~= seq![Token::Num(a)]);
    }
}

/// An expression is rejected unless packing leaves exactly one value on the
/// stack: where none is left (as after `()`) or several are (as after
/// `1 2`), compiling fails with the count rather than pick a result.
pub proof fn lemma_single_value_required(
    ts: Seq<lexer::Token>,
    infix: Seq<Token>,
    postfix: Seq<Token>,
    vals: Seq<Token>,
)
    requires
        tokenize_from(ts, 0) == Ok::<Seq<Token>, CompileError>(infix),
        postfix_of(infix) == Ok::<Seq<Token>, CompileError>(postfix),
        pack_from(postfix, 0, Seq::empty()) == Ok::<Seq<Token>, CompileError>(vals),
        vals.len() != 1,
    ensures
        compiled(ts) == Err::<Expression, CompileError>(CompileError::ValueCount(vals.len() as usize)),
{
}

/// The same law from source text: the text `a OP b`, for two non-negative
/// integer literals and a two-operand operator, always tokenizes, and the
/// tokens it yields compile to one literal equal to what Rust's own operator
/// gives on `a` and `b`, wherever `b` is not zero and the operator does not
/// overflow.
pub proof fn lemma_operation_text_folds(a: i64, op: TokenKind, b: i64)
    requires
        0 <= a,
        0 < b,
        operator_symbol(op),
        !native_overflows(op, a, b),
    ensures
        tokens_of(operation_text(a as nat, op, b as nat)) is Ok,
        forall|ts: Seq<lexer::Token>|
            lexemes(ts) == tokens_of(operation_text(a as nat, op, b as nat))->Ok_0 ==> #[trigger] compiled(
                ts,
            ) == Ok::<Expression, CompileError>(
                Expression { expr: ExprToken::Other(native(op, a, b)) },
            ),
{
    lemma_operation_tokens(a as nat, op, b as nat);
    let m = tokens_of(operation_text(a as nat, op, b as nat))->Ok_0;
    assert forall|ts: Seq<lexer::Token>| lexemes(ts) == m implies #[trigger] compiled(ts) == Ok::<
        Expression,
        CompileError,
    >(Expression { expr: ExprToken::Other(native(op, a, b)) }) by {
        assert(m.len() == 4);
        assert(lexemes(ts).len() == ts.len());
        assert(ts.len() == 4);
        assert(lexemes(ts)[0] == ts[0]@);
        assert(lexemes(ts)[1] == ts[1]@);
        assert(lexemes(ts)[2] == ts[2]@);
        assert(lexemes(ts)[3] == ts[3]@);
        assert(ts =~= literal_operation(a, op, b, ts[0].size, ts[1].size, ts[2].size));
        lemma_literal_operation_folds(a, op, b, ts[0].size, ts[1].size, ts[2].size);
    }
}

} // verus!
