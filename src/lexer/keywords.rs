//! Keywords and the boolean literals.
use vstd::prelude::*;

use super::{has_text, has_word, text_at, word_at, Lexer, Token, TokenKind};

verus! {

/// The keyword or boolean literal at `i`, with its size.
///
/// `fn` and `var` take the single space after them as part of the token.
/// Every other word must end where no identifier character follows, so that
/// `iffy` or `trueish` stay identifiers.
pub open spec fn keyword_at(src: Seq<char>, i: int) -> Option<(TokenKind, nat)> {
    if text_at(src, i, "fn "@) {
        Some((TokenKind::Fn, 3))
    } else if word_at(src, i, "if"@) {
        Some((TokenKind::If, 2))
    } else if word_at(src, i, "elif"@) {
        Some((TokenKind::Elif, 4))
    } else if word_at(src, i, "else"@) {
        Some((TokenKind::Else, 4))
    } else if word_at(src, i, "for"@) {
        Some((TokenKind::For, 3))
    } else if word_at(src, i, "while"@) {
        Some((TokenKind::While, 5))
    } else if word_at(src, i, "return"@) {
        Some((TokenKind::Return, 6))
    } else if text_at(src, i, "var "@) {
        Some((TokenKind::Var, 4))
    } else if word_at(src, i, "false"@) {
        Some((TokenKind::False, 5))
    } else if word_at(src, i, "true"@) {
        Some((TokenKind::True, 4))
    } else {
        None
    }
}

pub proof fn lemma_keyword_fits(src: Seq<char>, i: int)
    ensures
        keyword_at(src, i) matches Some((_, n)) ==> 1 <= n && i + n <= src.len(),
{
    reveal_strlit("fn ");
    reveal_strlit("if");
    reveal_strlit("elif");
    reveal_strlit("else");
    reveal_strlit("for");
    reveal_strlit("while");
    reveal_strlit("return");
    reveal_strlit("var ");
    reveal_strlit("false");
    reveal_strlit("true");
}

/// Adds the keyword or boolean literal at the cursor, if there is one.
/// Returns whether it did.
pub fn lex_keyword(l: &mut Lexer) -> (r: bool)
    requires
        old(l).wf(),
    ensures
        final(l).wf(),
        final(l).src == old(l).src,
        match keyword_at(old(l).src@, old(l).i as int) {
            Some((k, n)) => r && final(l).i == old(l).i + n && final(l).tokens@ == old(
                l,
            ).tokens@.push(Token { kind: k, size: n as usize }),
            None => !r && final(l).i == old(l).i && final(l).tokens == old(l).tokens,
        },
{
    proof {
        lemma_keyword_fits(l.src@, l.i as int);
    }
    let i = l.i;
    if has_text(&l.src, i, "fn ") {
        l.emit(TokenKind::Fn, 3);
    } else if has_word(&l.src, i, "if") {
        l.emit(TokenKind::If, 2);
    } else if has_word(&l.src, i, "elif") {
        l.emit(TokenKind::Elif, 4);
    } else if has_word(&l.src, i, "else") {
        l.emit(TokenKind::Else, 4);
    } else if has_word(&l.src, i, "for") {
        l.emit(TokenKind::For, 3);
    } else if has_word(&l.src, i, "while") {
        l.emit(TokenKind::While, 5);
    } else if has_word(&l.src, i, "return") {
        l.emit(TokenKind::Return, 6);
    } else if has_text(&l.src, i, "var ") {
        l.emit(TokenKind::Var, 4);
    } else if has_word(&l.src, i, "false") {
        l.emit(TokenKind::False, 5);
    } else if has_word(&l.src, i, "true") {
        l.emit(TokenKind::True, 4);
    } else {
        return false;
    }
    true
}

} // verus!
