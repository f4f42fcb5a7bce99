//! Two-character operator sequences such as `::` and `=>`.
use vstd::prelude::*;

use super::{has_text, text_at, Lexer, Token, TokenKind};

verus! {

/// The two-character sequence at `i`, if there is one.
pub open spec fn sequence_at(src: Seq<char>, i: int) -> Option<TokenKind> {
    if text_at(src, i, "=="@) {
        Some(TokenKind::DoubleEquals)
    } else if text_at(src, i, "!="@) {
        Some(TokenKind::BangEquals)
    } else if text_at(src, i, ">="@) {
        Some(TokenKind::GtEq)
    } else if text_at(src, i, "<="@) {
        Some(TokenKind::LtEq)
    } else if text_at(src, i, "::"@) {
        Some(TokenKind::DoubleColon)
    } else if text_at(src, i, ".."@) {
        Some(TokenKind::DoubleDot)
    } else if text_at(src, i, "->"@) {
        Some(TokenKind::Arrow)
    } else if text_at(src, i, "=>"@) {
        Some(TokenKind::FatArrow)
    } else {
        None
    }
}

pub proof fn lemma_sequence_fits(src: Seq<char>, i: int)
    ensures
        sequence_at(src, i) is Some ==> i + 2 <= src.len(),
{
    reveal_strlit("==");
    reveal_strlit("!=");
    reveal_strlit(">=");
    reveal_strlit("<=");
    reveal_strlit("::");
    reveal_strlit("..");
    reveal_strlit("->");
    reveal_strlit("=>");
}

/// Adds the two-character sequence at the cursor, if there is one.
/// Returns whether it did.
pub fn lex_sequence(l: &mut Lexer) -> (r: bool)
    requires
        old(l).wf(),
    ensures
        final(l).wf(),
        final(l).src == old(l).src,
        match sequence_at(old(l).src@, old(l).i as int) {
            Some(k) => r && final(l).i == old(l).i + 2 && final(l).tokens@ == old(
                l,
            ).tokens@.push(Token { kind: k, size: 2 }),
            None => !r && final(l).i == old(l).i && final(l).tokens == old(l).tokens,
        },
{
    proof {
        lemma_sequence_fits(l.src@, l.i as int);
    }
    let i = l.i;
    let kind = if has_text(&l.src, i, "==") {
        TokenKind::DoubleEquals
    } else if has_text(&l.src, i, "!=") {
        TokenKind::BangEquals
    } else if has_text(&l.src, i, ">=") {
        TokenKind::GtEq
    } else if has_text(&l.src, i, "<=") {
        TokenKind::LtEq
    } else if has_text(&l.src, i, "::") {
        TokenKind::DoubleColon
    } else if has_text(&l.src, i, "..") {
        TokenKind::DoubleDot
    } else if has_text(&l.src, i, "->") {
        TokenKind::Arrow
    } else if has_text(&l.src, i, "=>") {
        TokenKind::FatArrow
    } else {
        return false;
    };
    l.emit(kind, 2);
    true
}

} // verus!
