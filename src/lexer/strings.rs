//! String and character literals.
use vstd::prelude::*;

use super::{at, has_char, has_text, text_at, LexError, Lexeme, Lexer, Scan, Token, TokenKind};

verus! {

/// The contents of a string literal whose body starts at `j`, and the position
/// just past it.  A body ends at the first `"` that no backslash escapes,
/// which is consumed; `\"` stands for `"`, and every other character for
/// itself.  A body that is never closed runs to the end of the source.
pub open spec fn string_body(src: Seq<char>, j: int) -> (Seq<char>, int)
    decreases src.len() - j,
{
    if j < 0 || j >= src.len() {
        (Seq::empty(), src.len() as int)
    } else if src[j] == '"' {
        (Seq::empty(), j + 1)
    } else if text_at(src, j, "\\\""@) {
        proof {
            reveal_strlit("\\\"");
        }
        let rest = string_body(src, j + 2);
        (seq!['"'] + rest.0, rest.1)
    } else {
        let rest = string_body(src, j + 1);
        (seq![src[j]] + rest.0, rest.1)
    }
}

/// The string literal at `i`, if one starts there.
pub open spec fn string_at(src: Seq<char>, i: int) -> Option<Scan> {
    if at(src, i, '"') {
        let body = string_body(src, i + 1);
        Some(Scan::Emit(Lexeme::Text(body.0), (body.1 - i) as nat))
    } else {
        None
    }
}

/// The character literal at `i`, if one starts there: a quote, then `\'`,
/// `\\` or any one character, then a closing quote.
pub open spec fn char_literal_at(src: Seq<char>, i: int) -> Option<Scan> {
    if !at(src, i, '\'') {
        None
    } else {
        let (c, close) = if text_at(src, i + 1, "\\'"@) {
            ('\'', i + 3)
        } else if text_at(src, i + 1, "\\\\"@) {
            ('\\', i + 3)
        } else if i + 1 < src.len() {
            (src[i + 1], i + 2)
        } else {
            (' ', i + 1)
        };
        if at(src, close, '\'') {
            Some(Scan::Emit(Lexeme::Fixed(TokenKind::CharLiteral(c)), (close + 1 - i) as nat))
        } else {
            Some(Scan::Fail(LexError::MissingQuote(i as usize)))
        }
    }
}

pub proof fn lemma_string_body_bounds(src: Seq<char>, j: int)
    requires
        0 <= j,
    ensures
        j <= string_body(src, j).1 <= src.len() || (j > src.len() && string_body(src, j).1
            == src.len()),
    decreases src.len() - j,
{
    reveal_strlit("\\\"");
    if 0 <= j < src.len() && src[j] != '"' {
        if text_at(src, j, "\\\""@) {
            lemma_string_body_bounds(src, j + 2);
        } else {
            lemma_string_body_bounds(src, j + 1);
        }
    }
}

/// Adds the string literal at the cursor, if one starts there.
pub fn lex_string(l: &mut Lexer)
    requires
        old(l).wf(),
    ensures
        final(l).wf(),
        final(l).src == old(l).src,
        match string_at(old(l).src@, old(l).i as int) {
            Some(Scan::Emit(x, n)) => final(l).i == old(l).i + n && final(l).tokens@.len()
                == old(l).tokens@.len() + 1 && final(l).tokens@.drop_last() == old(l).tokens@
                && final(l).tokens@.last()@ == (x, n),
            _ => final(l).i == old(l).i && final(l).tokens == old(l).tokens,
        },
{
    if !has_char(&l.src, l.i, '"') {
        return ;
    }
    let ghost start = l.i as int;
    let mut res = String::new();
    let mut ctr: usize = 1;
    l.advance();
    loop
        invariant_except_break
            string_body(l.src@, start + 1).0 == res@ + string_body(l.src@, l.i as int).0,
            string_body(l.src@, start + 1).1 == string_body(l.src@, l.i as int).1,
        invariant
            l.wf(),
            l.src == old(l).src,
            l.tokens == old(l).tokens,
            l.src@.len() <= usize::MAX,
            0 <= start, start + 1 <= l.i,
            ctr == l.i - start,
        ensures
            string_body(l.src@, start + 1) == (res@, l.i as int),
        decreases l.src.len() - l.i,
    {
        if l.i >= l.src.len() {
            proof {
                assert(res@ + Seq::<char>::empty() =~= res@);
            }
            break ;
        }
        if l.src[l.i] == '"' {
            proof {
                assert(res@ + Seq::<char>::empty() =~= res@);
            }
            l.advance();
            ctr += 1;
            break ;
        }
        let ghost old_res = res@;
        if has_text(&l.src, l.i, "\\\"") {
            proof {
                reveal_strlit("\\\"");
            }
            l.advance_with(2);
            ctr += 2;
            push_char(&mut res, '"');
            proof {
                let rest = string_body(l.src@, l.i as int);
                assert(old_res + (seq!['"'] + rest.0) =~= res@ + rest.0);
            }
        } else {
            let c = l.src[l.i];
            l.advance();
            ctr += 1;
            push_char(&mut res, c);
            proof {
                let rest = string_body(l.src@, l.i as int);
                assert(old_res + (seq![c] + rest.0) =~= res@ + rest.0);
            }
        }
    }
    l.add_token(Token { kind: TokenKind::StringLiteral(res), size: ctr });
}

/// Relies on `String::push`: appends one character to the end of the string.
#[verifier::external_body]
pub(crate) fn push_char(s: &mut String, c: char)
    ensures
        final(s)@ == old(s)@.push(c),
{
    s.push(c)
}

/// Adds the character literal at the cursor, if one starts there.
/// Returns whether it did, or the error of a literal without its closing quote.
pub fn lex_char(l: &mut Lexer) -> (r: Result<bool, LexError>)
    requires
        old(l).wf(),
    ensures
        final(l).wf(),
        final(l).src == old(l).src,
        match char_literal_at(old(l).src@, old(l).i as int) {
            None => {
                &&& r == Ok::<bool, LexError>(false)
                &&& final(l).i == old(l).i
                &&& final(l).tokens == old(l).tokens
            },
            Some(Scan::Emit(Lexeme::Fixed(k), n)) => {
                &&& r == Ok::<bool, LexError>(true)
                &&& final(l).i == old(l).i + n
                &&& final(l).tokens@ == old(l).tokens@.push(Token { kind: k, size: n as usize })
            },
            Some(Scan::Fail(e)) => r == Err::<bool, LexError>(e),
            _ => false,
        },
{
    let start = l.i;
    if !has_char(&l.src, start, '\'') {
        return Ok(false);
    }
    proof {
        reveal_strlit("\\'");
        reveal_strlit("\\\\");
    }
    let (c, close) = if has_text(&l.src, start + 1, "\\'") {
        ('\'', start + 3)
    } else if has_text(&l.src, start + 1, "\\\\") {
        ('\\', start + 3)
    } else if start + 1 < l.src.len() {
        (l.src[start + 1], start + 2)
    } else {
        (' ', start + 1)
    };
    if has_char(&l.src, close, '\'') {
        l.emit(TokenKind::CharLiteral(c), close + 1 - start);
        Ok(true)
    } else {
        Err(LexError::MissingQuote(start))
    }
}

} // verus!
