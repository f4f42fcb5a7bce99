//! Integer literals, primitive type names and identifiers.
use vstd::prelude::*;

use super::{has_text, is_ident, is_ident_char, text_at, LexError, Lexeme, Lexer, Scan, Token, TokenKind};
use super::strings::push_char;
use crate::parser::Type;

verus! {

/// A decimal digit.
pub open spec fn is_digit(c: char) -> bool {
    '0' <= c <= '9'
}

/// The value of a decimal digit.
pub open spec fn digit_value(c: char) -> int {
    (c as u32) as int - ('0' as u32) as int
}

/// The value of a run of decimal digits, most significant first.
pub open spec fn digits_value(s: Seq<char>) -> int
    decreases s.len(),
{
    if s.len() == 0 {
        0
    } else {
        10 * digits_value(s.drop_last()) + digit_value(s.last())
    }
}

/// The end of the run of digits that starts at `j`.
pub open spec fn digit_end(src: Seq<char>, j: int) -> int
    decreases src.len() - j,
{
    if 0 <= j < src.len() && is_digit(src[j]) {
        digit_end(src, j + 1)
    } else {
        j
    }
}

/// The end of the run of identifier characters that starts at `j`.
pub open spec fn ident_end(src: Seq<char>, j: int) -> int
    decreases src.len() - j,
{
    if 0 <= j < src.len() && is_ident_char(src[j]) {
        ident_end(src, j + 1)
    } else {
        j
    }
}

/// The integer literal at `i`, if a digit stands there: the whole run of
/// digits, or an error where its value does not fit in an `i64`.
pub open spec fn number_at(src: Seq<char>, i: int) -> Option<Scan> {
    let e = digit_end(src, i);
    if e == i {
        None
    } else {
        let v = digits_value(src.subrange(i, e));
        if v <= i64::MAX {
            Some(Scan::Emit(Lexeme::Fixed(TokenKind::IntegerLiteral(v as i64)), (e - i) as nat))
        } else {
            Some(Scan::Fail(LexError::IntegerTooLarge(i as usize)))
        }
    }
}

/// The primitive type name at `i`, with its size.  No boundary is asked for
/// after it: `void2` is `void` followed by `2`.
pub open spec fn type_at(src: Seq<char>, i: int) -> Option<(Type, nat)> {
    if text_at(src, i, "void"@) {
        Some((Type::Void, 4))
    } else if text_at(src, i, "i32"@) {
        Some((Type::I32, 3))
    } else if text_at(src, i, "u32"@) {
        Some((Type::U32, 3))
    } else {
        None
    }
}

/// The identifier at `i`, if an identifier character stands there.
pub open spec fn ident_at(src: Seq<char>, i: int) -> Option<Scan> {
    let e = ident_end(src, i);
    if e == i {
        None
    } else {
        Some(Scan::Emit(Lexeme::Name(src.subrange(i, e)), (e - i) as nat))
    }
}

pub proof fn lemma_digit_end(src: Seq<char>, j: int)
    requires
        0 <= j <= src.len(),
    ensures
        j <= digit_end(src, j) <= src.len(),
        forall|k: int| j <= k < digit_end(src, j) ==> is_digit(#[trigger] src[k]),
    decreases src.len() - j,
{
    if j < src.len() && is_digit(src[j]) {
        lemma_digit_end(src, j + 1);
    }
}

pub proof fn lemma_ident_end(src: Seq<char>, j: int)
    requires
        0 <= j <= src.len(),
    ensures
        j <= ident_end(src, j) <= src.len(),
    decreases src.len() - j,
{
    if j < src.len() && is_ident_char(src[j]) {
        lemma_ident_end(src, j + 1);
    }
}

pub proof fn lemma_type_fits(src: Seq<char>, i: int)
    ensures
        type_at(src, i) matches Some((_, n)) ==> 1 <= n && i + n <= src.len(),
{
    reveal_strlit("void");
    reveal_strlit("i32");
    reveal_strlit("u32");
}

/// A run of digits is worth at least as much as any prefix of it.
pub proof fn lemma_digits_prefix(s: Seq<char>, k: int)
    requires
        0 <= k <= s.len(),
        forall|m: int| 0 <= m < s.len() ==> is_digit(#[trigger] s[m]),
    ensures
        0 <= digits_value(s.subrange(0, k)) <= digits_value(s),
    decreases s.len(),
{
    if s.len() > 0 {
        let t = s.drop_last();
        if k < s.len() {
            lemma_digits_prefix(t, k);
            assert(t.subrange(0, k) =~= s.subrange(0, k));
        } else {
            lemma_digits_prefix(t, t.len() as int);
            assert(t.subrange(0, t.len() as int) =~= t);
            assert(s.subrange(0, k) =~= s);
        }
    }
}

/// Adds the integer literal at the cursor, if a digit stands there, or fails
/// where its value does not fit in an `i64`.
pub fn lex_number(l: &mut Lexer) -> (r: Result<(), LexError>)
    requires
        old(l).wf(),
    ensures
        final(l).wf(),
        final(l).src == old(l).src,
        match number_at(old(l).src@, old(l).i as int) {
            None => r is Ok && final(l).i == old(l).i && final(l).tokens == old(l).tokens,
            Some(Scan::Emit(Lexeme::Fixed(k), n)) => {
                &&& r is Ok
                &&& final(l).i == old(l).i + n
                &&& final(l).tokens@ == old(l).tokens@.push(Token { kind: k, size: n as usize })
            },
            Some(Scan::Fail(e)) => r == Err::<(), LexError>(e),
            _ => false,
        },
{
    let start = l.i;
    let mut value: i64 = 0;
    proof {
        lemma_digit_end(l.src@, start as int);
        assert(l.src@.subrange(start as int, start as int) =~= Seq::<char>::empty());
    }
    while l.i < l.src.len() && '0' <= l.src[l.i] && l.src[l.i] <= '9'
        invariant
            l.wf(),
            l.src == old(l).src,
            l.tokens == old(l).tokens,
            start == old(l).i,
            start <= l.i <= digit_end(l.src@, start as int) <= l.src@.len(),
            digit_end(l.src@, l.i as int) == digit_end(l.src@, start as int),
            forall|k: int| start <= k < digit_end(l.src@, start as int) ==> is_digit(#[trigger] l.src@[k]),
            value == digits_value(l.src@.subrange(start as int, l.i as int)),
        decreases l.src.len() - l.i,
    {
        let ghost prefix = l.src@.subrange(start as int, l.i + 1);
        proof {
            assert(prefix.drop_last() =~= l.src@.subrange(start as int, l.i as int));
            lemma_digit_end(l.src@, l.i + 1);
            assert(digit_end(l.src@, l.i as int) == digit_end(l.src@, l.i + 1));
        }
        let d = (l.src[l.i] as u32 - '0' as u32) as i64;
        let next = match value.checked_mul(10) {
            Some(m) => m.checked_add(d),
            None => None,
        };
        match next {
            Some(v) => {
                value = v;
                l.advance();
            },
            None => {
                proof {
                    let e = digit_end(l.src@, start as int);
                    let whole = l.src@.subrange(start as int, e);
                    lemma_digits_prefix(whole, l.i + 1 - start);
                    assert(whole.subrange(0, l.i + 1 - start) =~= prefix);
                    lemma_digits_prefix(prefix, prefix.len() - 1);
                    assert(prefix.subrange(0, prefix.len() - 1) =~= prefix.drop_last());
                }
                return Err(LexError::IntegerTooLarge(start));
            },
        }
    }
    if l.i == start {
        return Ok(());
    }
    let size = l.i - start;
    l.add_token(Token { kind: TokenKind::IntegerLiteral(value), size });
    Ok(())
}

/// Adds the primitive type name at the cursor, if one stands there.
pub fn lex_type(l: &mut Lexer)
    requires
        old(l).wf(),
    ensures
        final(l).wf(),
        final(l).src == old(l).src,
        match type_at(old(l).src@, old(l).i as int) {
            Some((t, n)) => final(l).i == old(l).i + n && final(l).tokens@ == old(
                l,
            ).tokens@.push(Token { kind: TokenKind::Type(t), size: n as usize }),
            None => final(l).i == old(l).i && final(l).tokens == old(l).tokens,
        },
{
    proof {
        lemma_type_fits(l.src@, l.i as int);
    }
    let i = l.i;
    if has_text(&l.src, i, "void") {
        l.emit(TokenKind::Type(Type::Void), 4);
    } else if has_text(&l.src, i, "i32") {
        l.emit(TokenKind::Type(Type::I32), 3);
    } else if has_text(&l.src, i, "u32") {
        l.emit(TokenKind::Type(Type::U32), 3);
    }
}

/// Adds the identifier at the cursor, if an identifier character stands there.
pub fn lex_unknown_or_ident(l: &mut Lexer)
    requires
        old(l).wf(),
    ensures
        final(l).wf(),
        final(l).src == old(l).src,
        match ident_at(old(l).src@, old(l).i as int) {
            Some(Scan::Emit(x, n)) => {
                &&& final(l).i == old(l).i + n
                &&& final(l).tokens@.len() == old(l).tokens@.len() + 1
                &&& final(l).tokens@.drop_last() == old(l).tokens@
                &&& final(l).tokens@.last()@ == (x, n)
            },
            _ => final(l).i == old(l).i && final(l).tokens == old(l).tokens,
        },
{
    let start = l.i;
    let mut res = String::new();
    proof {
        lemma_ident_end(l.src@, start as int);
    }
    while l.i < l.src.len() && is_ident(l.src[l.i])
        invariant
            l.wf(),
            l.src == old(l).src,
            l.tokens == old(l).tokens,
            start == old(l).i,
            start <= l.i,
            ident_end(l.src@, l.i as int) == ident_end(l.src@, start as int),
            res@ == l.src@.subrange(start as int, l.i as int),
        decreases l.src.len() - l.i,
    {
        push_char(&mut res, l.src[l.i]);
        l.advance();
        proof {
            assert(res@ =~= l.src@.subrange(start as int, l.i as int));
        }
    }
    if l.i == start {
        return ;
    }
    let size = l.i - start;
    l.add_token(Token { kind: TokenKind::Unknown(res), size });
    proof {
        assert(l.tokens@.drop_last() =~= old(l).tokens@);
    }
}

} // verus!
