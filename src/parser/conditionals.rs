//! `if` statements.
use vstd::prelude::*;

use super::expressions::{compile_range, compiled, Expression};
use super::{tok, ParseError, ParsedToken, Parser};
use crate::lexer::Token;
use crate::lexer::TokenKind;

verus! {

/// The position of the `)` that closes a parenthesis opened before `j`,
/// with `depth` more parentheses opened since; the length of `ts` where
/// there is none.
pub open spec fn closing_paren(ts: Seq<Token>, j: int, depth: nat) -> int
    decreases ts.len() - j,
{
    if j < 0 || j >= ts.len() {
        ts.len() as int
    } else if ts[j].kind is LeftParen {
        closing_paren(ts, j + 1, depth + 1)
    } else if ts[j].kind is RightParen {
        if depth == 0 {
            j
        } else {
            closing_paren(ts, j + 1, (depth - 1) as nat)
        }
    } else {
        closing_paren(ts, j + 1, depth)
    }
}

/// The `if` statement at `i`: `if`, `(`, a condition, and the `)` that
/// closes the first parenthesis.  `None` where no `if (` stands at `i`;
/// otherwise the compiled condition and the position after the `)`, or why
/// there is none.
pub open spec fn if_at(ts: Seq<Token>, i: int) -> Option<Result<(Expression, int), ParseError>> {
    if !(tok(ts, i) is If && tok(ts, i + 1) is LeftParen) {
        None
    } else {
        let k = closing_paren(ts, i + 2, 0);
        if k >= ts.len() {
            Some(Err(ParseError::Syntax(ts.len() as usize)))
        } else {
            match compiled(ts.subrange(i + 2, k)) {
                Ok(e) => Some(Ok((e, k + 1))),
                Err(e) => Some(Err(ParseError::Condition(e))),
            }
        }
    }
}

pub proof fn lemma_closing_paren_bounds(ts: Seq<Token>, j: int, depth: nat)
    requires
        0 <= j,
    ensures
        j <= closing_paren(ts, j, depth) <= ts.len() || (j > ts.len() && closing_paren(
            ts,
            j,
            depth,
        ) == ts.len()),
        closing_paren(ts, j, depth) < ts.len() ==> ts[closing_paren(ts, j, depth)].kind is RightParen,
    decreases ts.len() - j,
{
    if j < ts.len() {
        if ts[j].kind is LeftParen {
            lemma_closing_paren_bounds(ts, j + 1, depth + 1);
        } else if ts[j].kind is RightParen {
            if depth > 0 {
                lemma_closing_paren_bounds(ts, j + 1, (depth - 1) as nat);
            }
        } else {
            lemma_closing_paren_bounds(ts, j + 1, depth);
        }
    }
}

/// Parses an `if` statement at the cursor, if one starts there, and
/// appends it to the output with its compiled condition (see [`if_at`]).
/// Returns whether one started there.
pub fn parse_if_statement(p: &mut Parser) -> (r: Result<bool, ParseError>)
    requires
        old(p).wf(),
    ensures
        final(p).wf(),
        final(p).tokens == old(p).tokens,
        match if_at(old(p).tokens@, old(p).i as int) {
            None => r == Ok::<bool, ParseError>(false) && final(p).i == old(p).i && final(p).output
                == old(p).output,
            Some(Ok((e, k))) => {
                &&& r == Ok::<bool, ParseError>(true)
                &&& final(p).i == k
                &&& final(p).output@ == old(p).output@.push(ParsedToken::If(e))
            },
            Some(Err(e)) => r == Err::<bool, ParseError>(e),
        },
{
    let ghost ts = p.tokens@;
    let i = p.i;
    let n = p.tokens.len();
    if !(i < n && i + 1 < n && matches!(p.tokens[i].kind, TokenKind::If) && matches!(
        p.tokens[i + 1].kind,
        TokenKind::LeftParen
    )) {
        return Ok(false);
    }
    let mut k = i + 2;
    let mut depth: usize = 0;
    proof {
        lemma_closing_paren_bounds(ts, k as int, 0);
    }
    while k < n
        invariant
            i + 2 <= k <= n == ts.len(),
            ts == p.tokens@,
            depth <= k,
            closing_paren(ts, k as int, depth as nat) == closing_paren(ts, i + 2, 0),
        ensures
            k <= n,
            closing_paren(ts, i + 2, 0) == if k < n {
                k as int
            } else {
                n as int
            },
        decreases n - k,
    {
        if matches!(p.tokens[k].kind, TokenKind::LeftParen) {
            depth += 1;
        } else if matches!(p.tokens[k].kind, TokenKind::RightParen) {
            if depth == 0 {
                break ;
            }
            depth -= 1;
        }
        k += 1;
    }
    if k >= n {
        return Err(ParseError::Syntax(n));
    }
    let condition = match compile_range(&p.tokens, i + 2, k) {
        Ok(e) => e,
        Err(e) => return Err(ParseError::Condition(e)),
    };
    p.advance_with(k + 1 - i);
    p.add_token(ParsedToken::If(condition));
    Ok(true)
}

} // verus!
