//! The textual forms of literal values, and the laws that tokenizing them
//! gives the values back.
use vstd::prelude::*;

use super::comments::comment_at;
use super::keywords::keyword_at;
use super::other::{digit_end, digit_value, digits_value, is_digit, number_at};
use super::sequences::sequence_at;
use super::strings::{char_literal_at, string_at, string_body};
use super::{
    at, is_space, lex_from, prefixed, scan_at, space_end, symbol_of, text_at, tokens_of, Lexeme,
    Scan, TokenKind,
};
use crate::parser::expressions::operator_symbol;

verus! {

/// The character of a decimal digit.
pub open spec fn digit_char(d: int) -> char {
    seq!['0', '1', '2', '3', '4', '5', '6', '7', '8', '9'][d]
}

/// The decimal form of `n`, without leading zeros.
pub open spec fn decimal(n: nat) -> Seq<char>
    decreases n,
{
    if n < 10 {
        seq![digit_char(n as int)]
    } else {
        decimal(n / 10).push(digit_char((n % 10) as int))
    }
}

pub proof fn lemma_digit_char(d: int)
    requires
        0 <= d < 10,
    ensures
        is_digit(digit_char(d)),
        digit_value(digit_char(d)) == d,
{
    assert(('0' as u32) == 48);
    if d == 0 {} else if d == 1 {} else if d == 2 {} else if d == 3 {} else if d == 4 {
    } else if d == 5 {} else if d == 6 {} else if d == 7 {} else if d == 8 {} else {}
}

pub proof fn lemma_decimal(n: nat)
    ensures
        decimal(n).len() >= 1,
        forall|k: int| 0 <= k < decimal(n).len() ==> is_digit(#[trigger] decimal(n)[k]),
        digits_value(decimal(n)) == n,
    decreases n,
{
    let s = decimal(n);
    if n < 10 {
        lemma_digit_char(n as int);
        assert(s.drop_last() =~= Seq::<char>::empty());
        assert(digits_value(s.drop_last()) == 0);
    } else {
        lemma_digit_char((n % 10) as int);
        lemma_decimal(n / 10);
        assert(s.drop_last() =~= decimal(n / 10));
        assert(s.last() == digit_char((n % 10) as int));
        assert(n == 10 * (n / 10) + n % 10);
    }
}

/// A run of digits from `j` that stops at `e` ends at `e`.
pub proof fn lemma_digit_run(src: Seq<char>, j: int, e: int)
    requires
        0 <= j <= e <= src.len(),
        forall|k: int| j <= k < e ==> is_digit(#[trigger] src[k]),
        e == src.len() || !is_digit(src[e]),
    ensures
        digit_end(src, j) == e,
    decreases e - j,
{
    if j < e {
        lemma_digit_run(src, j + 1, e);
    }
}

/// A string literal's contents written out between double quotes.
pub open spec fn quoted(v: Seq<char>) -> Seq<char> {
    seq!['"'] + v + seq!['"']
}

/// A character written out as a character literal; a quote and a backslash
/// are escaped with a backslash.
pub open spec fn char_text(c: char) -> Seq<char> {
    if c == '\'' {
        seq!['\'', '\\', '\'', '\'']
    } else if c == '\\' {
        seq!['\'', '\\', '\\', '\'']
    } else {
        seq!['\'', c, '\'']
    }
}

/// The tokens of a text that holds exactly one token `x`, then `Eof`.
pub open spec fn single(x: Lexeme, n: nat) -> Seq<(Lexeme, nat)> {
    seq![(x, n), (Lexeme::Fixed(TokenKind::Eof), 0)]
}

pub proof fn lemma_text_at(src: Seq<char>, i: int, w: Seq<char>)
    ensures
        text_at(src, i, w) ==> forall|k: int| 0 <= k < w.len() ==> src[i + k] == #[trigger] w[k],
        text_at(src, i, w) && w.len() > 0 ==> src[i] == w[0],
        text_at(src, i, w) && w.len() > 1 ==> src[i + 1] == w[1],
{
    if text_at(src, i, w) {
        if w.len() > 0 {
            assert(src.subrange(i, i + w.len())[0] == src[i]);
        }
        if w.len() > 1 {
            assert(src.subrange(i, i + w.len())[1] == src[i + 1]);
        }
        assert forall|k: int| 0 <= k < w.len() implies src[i + k] == #[trigger] w[k] by {
            assert(src.subrange(i, i + w.len())[k] == src[i + k]);
        }
    }
}

/// What the first two characters of `src` at `i` must be for a comment,
/// a keyword or a two-character sequence to start there.
pub proof fn lemma_literals_at(src: Seq<char>, i: int)
    ensures
        text_at(src, i, "//"@) ==> src[i] == '/' && src[i + 1] == '/',
        text_at(src, i, "/*"@) ==> src[i] == '/' && src[i + 1] == '*',
        text_at(src, i, "fn "@) ==> src[i] == 'f' && src[i + 1] == 'n',
        text_at(src, i, "if"@) ==> src[i] == 'i' && src[i + 1] == 'f',
        text_at(src, i, "elif"@) ==> src[i] == 'e' && src[i + 1] == 'l',
        text_at(src, i, "else"@) ==> src[i] == 'e' && src[i + 1] == 'l',
        text_at(src, i, "for"@) ==> src[i] == 'f' && src[i + 1] == 'o',
        text_at(src, i, "while"@) ==> src[i] == 'w' && src[i + 1] == 'h',
        text_at(src, i, "return"@) ==> src[i] == 'r' && src[i + 1] == 'e',
        text_at(src, i, "var "@) ==> src[i] == 'v' && src[i + 1] == 'a',
        text_at(src, i, "false"@) ==> src[i] == 'f' && src[i + 1] == 'a',
        text_at(src, i, "true"@) ==> src[i] == 't' && src[i + 1] == 'r',
        text_at(src, i, "=="@) ==> src[i] == '=' && src[i + 1] == '=',
        text_at(src, i, "!="@) ==> src[i] == '!' && src[i + 1] == '=',
        text_at(src, i, ">="@) ==> src[i] == '>' && src[i + 1] == '=',
        text_at(src, i, "<="@) ==> src[i] == '<' && src[i + 1] == '=',
        text_at(src, i, "::"@) ==> src[i] == ':' && src[i + 1] == ':',
        text_at(src, i, ".."@) ==> src[i] == '.' && src[i + 1] == '.',
        text_at(src, i, "->"@) ==> src[i] == '-' && src[i + 1] == '>',
        text_at(src, i, "=>"@) ==> src[i] == '=' && src[i + 1] == '>',
{
    reveal_strlit("//");
    reveal_strlit("/*");
    reveal_strlit("fn ");
    reveal_strlit("if");
    reveal_strlit("elif");
    reveal_strlit("else");
    reveal_strlit("for");
    reveal_strlit("while");
    reveal_strlit("return");
    reveal_strlit("var ");
    reveal_strlit("false");
    reveal_strlit("true");
    reveal_strlit("==");
    reveal_strlit("!=");
    reveal_strlit(">=");
    reveal_strlit("<=");
    reveal_strlit("::");
    reveal_strlit("..");
    reveal_strlit("->");
    reveal_strlit("=>");
    lemma_text_at(src, i, "//"@);
    lemma_text_at(src, i, "/*"@);
    lemma_text_at(src, i, "fn "@);
    lemma_text_at(src, i, "if"@);
    lemma_text_at(src, i, "elif"@);
    lemma_text_at(src, i, "else"@);
    lemma_text_at(src, i, "for"@);
    lemma_text_at(src, i, "while"@);
    lemma_text_at(src, i, "return"@);
    lemma_text_at(src, i, "var "@);
    lemma_text_at(src, i, "false"@);
    lemma_text_at(src, i, "true"@);
    lemma_text_at(src, i, "=="@);
    lemma_text_at(src, i, "!="@);
    lemma_text_at(src, i, ">="@);
    lemma_text_at(src, i, "<="@);
    lemma_text_at(src, i, "::"@);
    lemma_text_at(src, i, ".."@);
    lemma_text_at(src, i, "->"@);
    lemma_text_at(src, i, "=>"@);
}

/// No comment, keyword or two-character sequence starts with a digit, a
/// double quote or a single quote.
pub proof fn lemma_plain_start(src: Seq<char>, i: int)
    requires
        0 <= i < src.len(),
        is_digit(src[i]) || src[i] == '"' || src[i] == '\'',
    ensures
        comment_at(src, i) is None,
        keyword_at(src, i) is None,
        sequence_at(src, i) is None,
        symbol_of(src[i]) is None,
{
    lemma_literals_at(src, i);
}

/// Where one step at the start of `src` yields the whole text as the token
/// `x`, the text tokenizes to `x` and `Eof`.
pub proof fn lemma_one_step(src: Seq<char>, x: Lexeme)
    requires
        src.len() > 0,
        space_end(src, 0) == 0,
        scan_at(src, 0) == Scan::Emit(x, src.len()),
    ensures
        tokens_of(src) == Ok::<Seq<(Lexeme, nat)>, super::LexError>(single(x, src.len())),
{
    assert(space_end(src, src.len() as int) == src.len());
    assert(lex_from(src, src.len() as int) == Ok::<Seq<(Lexeme, nat)>, super::LexError>(
        Seq::empty(),
    ));
    assert(seq![(x, src.len())] + Seq::<(Lexeme, nat)>::empty() =~= seq![(x, src.len())]);
    assert(seq![(x, src.len())].push((Lexeme::Fixed(TokenKind::Eof), 0)) =~= single(
        x,
        src.len(),
    ));
}

/// Tokenizing the decimal form of a non-negative `i64` gives back one
/// integer literal of that value, spanning the whole text, then `Eof`.
pub proof fn lemma_integer_round_trip(n: i64)
    requires
        n >= 0,
    ensures
        tokens_of(decimal(n as nat)) == Ok::<Seq<(Lexeme, nat)>, super::LexError>(
            single(Lexeme::Fixed(TokenKind::IntegerLiteral(n)), decimal(n as nat).len()),
        ),
{
    let s = decimal(n as nat);
    lemma_decimal(n as nat);
    lemma_plain_start(s, 0);
    lemma_digit_run(s, 0, s.len() as int);
    assert(s.subrange(0, s.len() as int) =~= s);
    assert(number_at(s, 0) == Some(
        Scan::Emit(Lexeme::Fixed(TokenKind::IntegerLiteral(n)), s.len()),
    ));
    lemma_one_step(s, Lexeme::Fixed(TokenKind::IntegerLiteral(n)));
}

pub proof fn lemma_quoted_body(v: Seq<char>, j: int)
    requires
        forall|k: int| 0 <= k < v.len() ==> v[k] != '"',
        v.len() > 0 ==> v.last() != '\\',
        1 <= j <= v.len() + 1,
    ensures
        string_body(quoted(v), j) == (v.subrange(j - 1, v.len() as int), quoted(v).len() as int),
    decreases v.len() + 1 - j,
{
    let s = quoted(v);
    assert(s.len() == v.len() + 2);
    assert(forall|k: int| 1 <= k <= v.len() ==> s[k] == v[k - 1]);
    assert(s[v.len() + 1int] == '"');
    if j == v.len() + 1 {
        assert(v.subrange(j - 1, v.len() as int) =~= Seq::<char>::empty());
    } else {
        lemma_quoted_body(v, j + 1);
        reveal_strlit("\\\"");
        lemma_text_at(s, j, "\\\""@);
        assert(s[j] == v[j - 1]);
        assert(!text_at(s, j, "\\\""@)) by {
            if text_at(s, j, "\\\""@) {
                assert(s[j + 0] == "\\\""@[0]);
                assert(s[j + 1] == "\\\""@[1]);
                if j + 1 <= v.len() {
                    assert(s[j + 1] == v[j]);
                }
            }
        }
        assert(seq![s[j]] + v.subrange(j, v.len() as int) =~= v.subrange(j - 1, v.len() as int));
    }
}

/// Tokenizing a string's contents between double quotes gives back one
/// string literal with those contents, then `Eof`, wherever the contents
/// hold no double quote and do not end with a backslash.
pub proof fn lemma_string_round_trip(v: Seq<char>)
    requires
        forall|k: int| 0 <= k < v.len() ==> v[k] != '"',
        v.len() > 0 ==> v.last() != '\\',
    ensures
        tokens_of(quoted(v)) == Ok::<Seq<(Lexeme, nat)>, super::LexError>(
            single(Lexeme::Text(v), v.len() + 2),
        ),
{
    let s = quoted(v);
    assert(s[0] == '"');
    lemma_plain_start(s, 0);
    lemma_quoted_body(v, 1);
    assert(v.subrange(0, v.len() as int) =~= v);
    assert(string_at(s, 0) == Some(Scan::Emit(Lexeme::Text(v), s.len())));
    lemma_one_step(s, Lexeme::Text(v));
}

/// Tokenizing a character literal gives back one character literal of that
/// character, then `Eof`.
pub proof fn lemma_char_round_trip(c: char)
    ensures
        tokens_of(char_text(c)) == Ok::<Seq<(Lexeme, nat)>, super::LexError>(
            single(Lexeme::Fixed(TokenKind::CharLiteral(c)), char_text(c).len()),
        ),
{
    let s = char_text(c);
    assert(s[0] == '\'');
    lemma_plain_start(s, 0);
    reveal_strlit("\\'");
    reveal_strlit("\\\\");
    lemma_text_at(s, 1, "\\'"@);
    lemma_text_at(s, 1, "\\\\"@);
    if c == '\'' {
        assert(s.subrange(1, 3) =~= "\\'"@);
        assert(text_at(s, 1, "\\'"@));
        assert(super::at(s, 3, '\''));
    } else if c == '\\' {
        assert(!text_at(s, 1, "\\'"@)) by {
            if text_at(s, 1, "\\'"@) {
                assert(s[1int + 1] == "\\'"@[1]);
            }
        }
        assert(s.subrange(1, 3) =~= "\\\\"@);
        assert(text_at(s, 1, "\\\\"@));
        assert(super::at(s, 3, '\''));
    } else {
        assert(!text_at(s, 1, "\\'"@)) by {
            if text_at(s, 1, "\\'"@) {
                assert(s[1int + 0] == "\\'"@[0]);
            }
        }
        assert(!text_at(s, 1, "\\\\"@)) by {
            if text_at(s, 1, "\\\\"@) {
                assert(s[1int + 0] == "\\\\"@[0]);
            }
        }
        assert(super::at(s, 2, '\''));
    }
    assert(char_literal_at(s, 0) == Some(
        Scan::Emit(Lexeme::Fixed(TokenKind::CharLiteral(c)), s.len()),
    ));
    lemma_one_step(s, Lexeme::Fixed(TokenKind::CharLiteral(c)));
}

/// The source text of a two-operand operator.
pub open spec fn operator_text(k: TokenKind) -> Seq<char> {
    match k {
        TokenKind::Plus => seq!['+'],
        TokenKind::Minus => seq!['-'],
        TokenKind::Star => seq!['*'],
        TokenKind::Slash => seq!['/'],
        TokenKind::Percent => seq!['%'],
        TokenKind::Caret => seq!['^'],
        TokenKind::Pipe => seq!['|'],
        TokenKind::And => seq!['&'],
        TokenKind::DoubleEquals => seq!['=', '='],
        TokenKind::BangEquals => seq!['!', '='],
        TokenKind::GtEq => seq!['>', '='],
        TokenKind::LtEq => seq!['<', '='],
        TokenKind::GreaterThan => seq!['>'],
        _ => seq!['<'],
    }
}

/// `a OP b` written out: two decimal literals with one space on each side
/// of the operator.
pub open spec fn operation_text(a: nat, op: TokenKind, b: nat) -> Seq<char> {
    decimal(a) + seq![' '] + operator_text(op) + seq![' '] + decimal(b)
}

/// One step of tokenizing: whitespace from `i` up to `j`, then a token of
/// size `n` at `j`.
pub proof fn lemma_lex_step(src: Seq<char>, i: int, j: int, x: Lexeme, n: nat)
    requires
        0 <= i <= j < src.len(),
        space_end(src, i) == j,
        scan_at(src, j) == Scan::Emit(x, n),
    ensures
        lex_from(src, i) == prefixed(seq![(x, n)], lex_from(src, j + n)),
{
}

/// An operator followed by a space is scanned as that operator.
pub proof fn lemma_operator_scan(src: Seq<char>, i: int, op: TokenKind)
    requires
        operator_symbol(op),
        text_at(src, i, operator_text(op)),
        at(src, i + operator_text(op).len(), ' '),
    ensures
        scan_at(src, i) == Scan::Emit(Lexeme::Fixed(op), operator_text(op).len()),
{
    let o = operator_text(op);
    lemma_literals_at(src, i);
    lemma_text_at(src, i, o);
    assert(src[i] == o[0]);
    if o.len() == 2 {
        assert(src[i + 1] == o[1]);
        reveal_strlit("==");
        reveal_strlit("!=");
        reveal_strlit(">=");
        reveal_strlit("<=");
        if op is DoubleEquals {
            assert("=="@ =~= o);
        } else if op is BangEquals {
            assert("!="@ =~= o);
        } else if op is GtEq {
            assert(">="@ =~= o);
        } else {
            assert("<="@ =~= o);
        }
    } else {
        assert(src[i + 1] == ' ');
    }
}

/// Tokenizing `a OP b` gives the two integer literals around the operator,
/// then `Eof`.
pub proof fn lemma_operation_tokens(a: nat, op: TokenKind, b: nat)
    requires
        a <= i64::MAX,
        b <= i64::MAX,
        operator_symbol(op),
    ensures
        tokens_of(operation_text(a, op, b)) == Ok::<Seq<(Lexeme, nat)>, super::LexError>(
            seq![
                (Lexeme::Fixed(TokenKind::IntegerLiteral(a as i64)), decimal(a).len()),
                (Lexeme::Fixed(op), operator_text(op).len()),
                (Lexeme::Fixed(TokenKind::IntegerLiteral(b as i64)), decimal(b).len()),
                (Lexeme::Fixed(TokenKind::Eof), 0),
            ],
        ),
{
    let da = decimal(a);
    let db = decimal(b);
    let o = operator_text(op);
    let s = operation_text(a, op, b);
    lemma_decimal(a);
    lemma_decimal(b);
    let la = da.len() as int;
    let lo = o.len() as int;
    let lb = db.len() as int;
    let j = la + 2 + lo;
    assert(s.len() == la + lo + lb + 2);
    assert(forall|k: int| 0 <= k < la ==> s[k] == da[k]);
    assert(s[la] == ' ');
    assert(forall|m: int| 0 <= m < lo ==> s[la + 1 + m] == o[m]);
    assert(s[la + 1 + lo] == ' ');
    assert(forall|m: int| 0 <= m < lb ==> s[j + m] == db[m]);
    assert(!is_space(o[0]) && !is_digit(o[0]));
    let xa = Lexeme::Fixed(TokenKind::IntegerLiteral(a as i64));
    let xo = Lexeme::Fixed(op);
    let xb = Lexeme::Fixed(TokenKind::IntegerLiteral(b as i64));
    // the first literal
    assert(is_digit(s[0]));
    lemma_plain_start(s, 0);
    lemma_digit_run(s, 0, la);
    assert(s.subrange(0, la) =~= da);
    assert(scan_at(s, 0) == Scan::Emit(xa, la as nat));
    lemma_lex_step(s, 0, 0, xa, la as nat);
    // the operator
    assert(space_end(s, la + 1) == la + 1);
    assert(space_end(s, la) == la + 1);
    assert(s.subrange(la + 1, la + 1 + lo) =~= o);
    lemma_operator_scan(s, la + 1, op);
    lemma_lex_step(s, la, la + 1, xo, lo as nat);
    // the second literal
    assert(s[j] == db[0]);
    assert(space_end(s, j) == j);
    assert(space_end(s, j - 1) == j);
    lemma_plain_start(s, j);
    assert forall|k: int| j <= k < s.len() implies is_digit(#[trigger] s[k]) by {
        assert(s[j + (k - j)] == db[k - j]);
    }
    lemma_digit_run(s, j, s.len() as int);
    assert(s.subrange(j, s.len() as int) =~= db);
    assert(scan_at(s, j) == Scan::Emit(xb, lb as nat));
    lemma_lex_step(s, j - 1, j, xb, lb as nat);
    assert(space_end(s, s.len() as int) == s.len());
    assert(lex_from(s, s.len() as int) == Ok::<Seq<(Lexeme, nat)>, super::LexError>(
        Seq::empty(),
    ));
    let tb = seq![(xb, lb as nat)];
    let to = seq![(xo, lo as nat)];
    let ta = seq![(xa, la as nat)];
    assert(tb + Seq::<(Lexeme, nat)>::empty() =~= tb);
    assert(lex_from(s, 0) == Ok::<Seq<(Lexeme, nat)>, super::LexError>(ta + (to + tb)));
    assert((ta + (to + tb)).push((Lexeme::Fixed(TokenKind::Eof), 0)) =~= seq![
        (xa, la as nat),
        (xo, lo as nat),
        (xb, lb as nat),
        (Lexeme::Fixed(TokenKind::Eof), 0),
    ]);
}

} // verus!
