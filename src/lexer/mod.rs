//! Turns source text into a flat, ordered stream of lexical tokens.
//!
//! The meaning of the tokenizer is given by spec functions over the source
//! characters: [`scan_at`] says what one step at a position yields, and
//! [`lex_from`] strings those steps together.  Every executable function of
//! this module is proved against them.
use vstd::prelude::*;
use vstd::string::StrSliceExecFns;

use crate::parser::Type;

pub mod comments;
pub mod keywords;
pub mod other;
pub mod round_trip;
pub mod sequences;
pub mod strings;

use comments::{comment_at, lemma_block_end_bounds, lemma_line_end_bounds, skip_comments};
use keywords::{keyword_at, lemma_keyword_fits, lex_keyword};
use other::{
    ident_at, lemma_digit_end, lemma_ident_end, lemma_type_fits, lex_number, lex_type,
    lex_unknown_or_ident, number_at, type_at,
};
use sequences::{lemma_sequence_fits, lex_sequence, sequence_at};
use strings::{char_literal_at, lemma_string_body_bounds, lex_char, lex_string, string_at};

verus! {

/// A lexical token: what it is and how many source characters it took.
#[derive(Debug)]
pub struct Token {
    /// What token it is.
    pub kind: TokenKind,
    /// How many characters were consumed to obtain it.
    pub size: usize,
}

impl From<(TokenKind, usize)> for Token {
    /// A token from its kind and size.
    fn from(tuple: (TokenKind, usize)) -> (r: Token) {
        Token { kind: tuple.0, size: tuple.1 }
    }
}

impl vstd::std_specs::convert::FromSpecImpl<(TokenKind, usize)> for Token {
    open spec fn obeys_from_spec() -> bool {
        true
    }

    open spec fn from_spec(tuple: (TokenKind, usize)) -> Token {
        Token { kind: tuple.0, size: tuple.1 }
    }
}

/// The kinds of lexical token.
#[derive(Debug, Clone)]
pub enum TokenKind {
    /// "="
    Eq,
    /// "+"
    Plus,
    /// "-"
    Minus,
    /// "%"
    Percent,
    /// "<"
    LessThan,
    /// ">"
    GreaterThan,
    /// "/"
    Slash,
    /// "*"
    Star,
    /// "&"
    And,
    /// "^"
    Caret,
    /// "|"
    Pipe,
    /// "?"
    Question,
    /// "!"
    Bang,
    /// ";"
    Semicolon,
    /// ":"
    Colon,
    /// "("
    LeftParen,
    /// ")"
    RightParen,
    /// "["
    LeftBrace,
    /// "]"
    RightBrace,
    /// "{"
    LeftBracket,
    /// "}"
    RightBracket,
    /// ","
    Comma,
    /// "."
    Dot,
    /// "'"
    Quote,
    /// "var"
    Var,
    /// "fn"
    Fn,
    /// "if"
    If,
    /// "elif"
    Elif,
    /// "else"
    Else,
    /// "while"
    While,
    /// "for"
    For,
    /// "return"
    Return,
    /// "mut"
    Mut,
    /// "const"
    Const,
    /// "false"
    False,
    /// "true"
    True,
    /// An integer literal (value)
    IntegerLiteral(i64),
    /// A string literal (data)
    StringLiteral(String),
    /// A char literal (character)
    CharLiteral(char),
    /// Unknown or identifier (identifier text)
    Unknown(String),
    /// "::"
    DoubleColon,
    /// "=="
    DoubleEquals,
    /// "!="
    BangEquals,
    /// ">="
    GtEq,
    /// "<="
    LtEq,
    /// ".."
    DoubleDot,
    /// "=>"
    FatArrow,
    /// "->"
    Arrow,
    /// A primitive type
    Type(Type),
    /// End of input
    Eof,
}

/// The tag of a token kind, with every payload left out.
pub open spec fn kind_tag(k: TokenKind) -> int {
    match k {
        TokenKind::Eq => 0,
        TokenKind::Plus => 1,
        TokenKind::Minus => 2,
        TokenKind::Percent => 3,
        TokenKind::LessThan => 4,
        TokenKind::GreaterThan => 5,
        TokenKind::Slash => 6,
        TokenKind::Star => 7,
        TokenKind::And => 8,
        TokenKind::Caret => 9,
        TokenKind::Pipe => 10,
        TokenKind::Question => 11,
        TokenKind::Bang => 12,
        TokenKind::Semicolon => 13,
        TokenKind::Colon => 14,
        TokenKind::LeftParen => 15,
        TokenKind::RightParen => 16,
        TokenKind::LeftBrace => 17,
        TokenKind::RightBrace => 18,
        TokenKind::LeftBracket => 19,
        TokenKind::RightBracket => 20,
        TokenKind::Comma => 21,
        TokenKind::Dot => 22,
        TokenKind::Quote => 23,
        TokenKind::Var => 24,
        TokenKind::Fn => 25,
        TokenKind::If => 26,
        TokenKind::Elif => 27,
        TokenKind::Else => 28,
        TokenKind::While => 29,
        TokenKind::For => 30,
        TokenKind::Return => 31,
        TokenKind::Mut => 32,
        TokenKind::Const => 33,
        TokenKind::False => 34,
        TokenKind::True => 35,
        TokenKind::IntegerLiteral(_) => 36,
        TokenKind::StringLiteral(_) => 37,
        TokenKind::CharLiteral(_) => 38,
        TokenKind::Unknown(_) => 39,
        TokenKind::DoubleColon => 40,
        TokenKind::DoubleEquals => 41,
        TokenKind::BangEquals => 42,
        TokenKind::GtEq => 43,
        TokenKind::LtEq => 44,
        TokenKind::DoubleDot => 45,
        TokenKind::FatArrow => 46,
        TokenKind::Arrow => 47,
        TokenKind::Type(_) => 48,
        TokenKind::Eof => 49,
    }
}

/// Kind-shape equality: two kinds are equal when they have the same tag.
/// The payloads of integer, string, identifier and type tokens are ignored;
/// two character literals are equal only when they hold the same character.
pub open spec fn same_kind(a: TokenKind, b: TokenKind) -> bool {
    match (a, b) {
        (TokenKind::CharLiteral(x), TokenKind::CharLiteral(y)) => x == y,
        _ => kind_tag(a) == kind_tag(b),
    }
}

impl TokenKind {
    /// The tag of this kind (see [`kind_tag`]).
    pub fn tag(&self) -> (r: u8)
        ensures
            r as int == kind_tag(*self),
    {
        match self {
            TokenKind::Eq => 0,
            TokenKind::Plus => 1,
            TokenKind::Minus => 2,
            TokenKind::Percent => 3,
            TokenKind::LessThan => 4,
            TokenKind::GreaterThan => 5,
            TokenKind::Slash => 6,
            TokenKind::Star => 7,
            TokenKind::And => 8,
            TokenKind::Caret => 9,
            TokenKind::Pipe => 10,
            TokenKind::Question => 11,
            TokenKind::Bang => 12,
            TokenKind::Semicolon => 13,
            TokenKind::Colon => 14,
            TokenKind::LeftParen => 15,
            TokenKind::RightParen => 16,
            TokenKind::LeftBrace => 17,
            TokenKind::RightBrace => 18,
            TokenKind::LeftBracket => 19,
            TokenKind::RightBracket => 20,
            TokenKind::Comma => 21,
            TokenKind::Dot => 22,
            TokenKind::Quote => 23,
            TokenKind::Var => 24,
            TokenKind::Fn => 25,
            TokenKind::If => 26,
            TokenKind::Elif => 27,
            TokenKind::Else => 28,
            TokenKind::While => 29,
            TokenKind::For => 30,
            TokenKind::Return => 31,
            TokenKind::Mut => 32,
            TokenKind::Const => 33,
            TokenKind::False => 34,
            TokenKind::True => 35,
            TokenKind::IntegerLiteral(_) => 36,
            TokenKind::StringLiteral(_) => 37,
            TokenKind::CharLiteral(_) => 38,
            TokenKind::Unknown(_) => 39,
            TokenKind::DoubleColon => 40,
            TokenKind::DoubleEquals => 41,
            TokenKind::BangEquals => 42,
            TokenKind::GtEq => 43,
            TokenKind::LtEq => 44,
            TokenKind::DoubleDot => 45,
            TokenKind::FatArrow => 46,
            TokenKind::Arrow => 47,
            TokenKind::Type(_) => 48,
            TokenKind::Eof => 49,
        }
    }
}

impl PartialEq for TokenKind {
    fn eq(&self, other: &TokenKind) -> (r: bool) {
        match (self, other) {
            (TokenKind::CharLiteral(x), TokenKind::CharLiteral(y)) => *x == *y,
            _ => self.tag() == other.tag(),
        }
    }
}

impl vstd::std_specs::cmp::PartialEqSpecImpl for TokenKind {
    open spec fn obeys_eq_spec() -> bool {
        true
    }

    open spec fn eq_spec(&self, other: &TokenKind) -> bool {
        same_kind(*self, *other)
    }
}

/// What a token stands for, with its text payload as a character sequence:
/// a string literal's contents, an identifier's name, or any other kind as it is.
pub enum Lexeme {
    Fixed(TokenKind),
    Text(Seq<char>),
    Name(Seq<char>),
}

/// The lexeme that a token kind stands for.
pub open spec fn lexeme_of(k: TokenKind) -> Lexeme {
    match k {
        TokenKind::StringLiteral(s) => Lexeme::Text(s@),
        TokenKind::Unknown(s) => Lexeme::Name(s@),
        _ => Lexeme::Fixed(k),
    }
}

impl View for Token {
    type V = (Lexeme, nat);

    open spec fn view(&self) -> (Lexeme, nat) {
        (lexeme_of(self.kind), self.size as nat)
    }
}

/// The lexemes and sizes of a token sequence.
pub open spec fn lexemes(ts: Seq<Token>) -> Seq<(Lexeme, nat)> {
    ts.map_values(|t: Token| t@)
}

/// What one step of the tokenizer does at a position: go on at a later
/// position without a token, yield a token of the given size, or fail.
pub enum Scan {
    Skip(int),
    Emit(Lexeme, nat),
    Fail(LexError),
}

/// Why source text could not be tokenized.
#[derive(Debug, Clone, Copy, PartialEq, Eq, Structural)]
pub enum LexError {
    /// A `/*` comment with no `*/` after it; holds the comment's start.
    UnterminatedComment(usize),
    /// A character literal without its closing quote; holds the literal's start.
    MissingQuote(usize),
    /// An integer literal larger than `i64::MAX`; holds the literal's start.
    IntegerTooLarge(usize),
    /// A character that no rule accepts; holds its position.
    UnknownCharacter(usize),
}

/// Is `c` at position `i` of `src`?
pub open spec fn at(src: Seq<char>, i: int, c: char) -> bool {
    0 <= i < src.len() && src[i] == c
}

/// Does `w` stand in `src` from position `i` on?
pub open spec fn text_at(src: Seq<char>, i: int, w: Seq<char>) -> bool {
    0 <= i && i + w.len() <= src.len() && src.subrange(i, i + w.len()) == w
}

/// Whitespace: space, tab, line feed, carriage return, vertical tab, form feed.
pub open spec fn is_space(c: char) -> bool {
    c == ' ' || c == '\t' || c == '\n' || c == '\r' || c == '\u{000B}' || c == '\u{000C}'
}

/// The first position at or after `i` that does not hold whitespace.
pub open spec fn space_end(src: Seq<char>, i: int) -> int
    decreases src.len() - i,
{
    if 0 <= i < src.len() && is_space(src[i]) {
        space_end(src, i + 1)
    } else {
        i
    }
}

/// Does `w` stand in `src` from position `i` on?
pub fn has_text(src: &Vec<char>, i: usize, w: &str) -> (r: bool)
    ensures
        r == text_at(src@, i as int, w@),
{
    let n = w.unicode_len();
    if n > src.len() || i > src.len() - n {
        return false;
    }
    let mut k: usize = 0;
    while k < n
        invariant
            n == w@.len(),
            i + n <= src@.len() <= usize::MAX,
            k <= n,
            forall|m: int| 0 <= m < k ==> src@[i + m] == w@[m],
        decreases n - k,
    {
        if src[i + k] != w.get_char(k) {
            assert(src@.subrange(i as int, i + n)[k as int] != w@[k as int]);
            return false;
        }
        k += 1;
    }
    assert(src@.subrange(i as int, i + n) =~= w@);
    true
}

/// A character that may stand in an identifier: an ASCII letter or digit, or `_`.
pub open spec fn is_ident_char(c: char) -> bool {
    ('a' <= c <= 'z') || ('A' <= c <= 'Z') || ('0' <= c <= '9') || c == '_'
}

/// No identifier character stands at position `k`.
pub open spec fn boundary_at(src: Seq<char>, k: int) -> bool {
    !(0 <= k < src.len() && is_ident_char(src[k]))
}

/// The word `w` stands at `i`, and no identifier character follows it.
pub open spec fn word_at(src: Seq<char>, i: int, w: Seq<char>) -> bool {
    text_at(src, i, w) && boundary_at(src, i + w.len())
}

/// May `c` stand in an identifier?
pub fn is_ident(c: char) -> (r: bool)
    ensures
        r == is_ident_char(c),
{
    ('a' <= c && c <= 'z') || ('A' <= c && c <= 'Z') || ('0' <= c && c <= '9') || c == '_'
}

/// Does the word `w` stand at `i`, with no identifier character after it?
pub fn has_word(src: &Vec<char>, i: usize, w: &str) -> (r: bool)
    ensures
        r == word_at(src@, i as int, w@),
{
    if !has_text(src, i, w) {
        return false;
    }
    let len = src.len();
    let k = i + w.unicode_len();
    k >= len || !is_ident(src[k])
}

/// Is `c` at position `i` of `src`?
pub fn has_char(src: &Vec<char>, i: usize, c: char) -> (r: bool)
    ensures
        r == at(src@, i as int, c),
{
    i < src.len() && src[i] == c
}

/// The tokenizer's state: the source characters, a cursor into them, and the
/// tokens found so far.
#[derive(Debug)]
pub struct Lexer {
    pub i: usize,
    pub src: Vec<char>,
    pub tokens: Vec<Token>,
}

impl Lexer {
    /// The cursor stands within the source or just after it.
    pub open spec fn wf(&self) -> bool {
        self.i <= self.src.len()
    }

    /// A lexer at the start of `src`, with no tokens yet.
    pub fn new(src: &str) -> (r: Lexer)
        ensures
            r.i == 0,
            r.src@ == src@,
            r.tokens@.len() == 0,
            r.wf(),
    {
        let mut v: Vec<char> = Vec::new();
        for c in it: src.chars()
            invariant
                v@ == it.seq().take(it.index() as int),
        {
            v.push(c);
        }
        assert(v@ =~= src@);
        Lexer { i: 0, src: v, tokens: Vec::new() }
    }

    /// Advances the cursor by one.
    pub fn advance(&mut self)
        requires
            old(self).i < old(self).src.len(),
        ensures
            final(self).i == old(self).i + 1,
            final(self).src == old(self).src,
            final(self).tokens == old(self).tokens,
    {
        self.i += 1;
    }

    /// Advances the cursor by `val`.
    pub fn advance_with(&mut self, val: usize)
        requires
            old(self).i + val <= old(self).src.len(),
        ensures
            final(self).i == old(self).i + val,
            final(self).src == old(self).src,
            final(self).tokens == old(self).tokens,
    {
        self.i += val;
    }

    /// Appends `token` to the tokens found so far.
    pub fn add_token(&mut self, token: Token)
        ensures
            final(self).i == old(self).i,
            final(self).src == old(self).src,
            final(self).tokens@ == old(self).tokens@.push(token),
    {
        self.tokens.push(token)
    }

    /// Appends a token of `size` characters and moves the cursor past them.
    pub fn emit(&mut self, kind: TokenKind, size: usize)
        requires
            old(self).i + size <= old(self).src.len(),
        ensures
            final(self).i == old(self).i + size,
            final(self).src == old(self).src,
            final(self).tokens@ == old(self).tokens@.push(Token { kind, size }),
    {
        self.advance_with(size);
        self.add_token(Token { kind, size });
    }

    /// Is `c` whitespace?
    pub fn is_whitespace(c: char) -> (r: bool)
        ensures
            r == is_space(c),
    {
        c == ' ' || c == '\t' || c == '\n' || c == '\r' || c == '\u{000B}' || c == '\u{000C}'
    }

    /// Skips whitespace characters.
    pub fn skip_whitespace(&mut self)
        requires
            old(self).wf(),
        ensures
            final(self).wf(),
            final(self).i == space_end(old(self).src@, old(self).i as int),
            final(self).src == old(self).src,
            final(self).tokens == old(self).tokens,
    {
        while self.i < self.src.len() && Lexer::is_whitespace(self.src[self.i])
            invariant
                self.wf(),
                self.src == old(self).src,
                self.tokens == old(self).tokens,
                space_end(self.src@, self.i as int) == space_end(old(self).src@, old(self).i as int),
            decreases self.src.len() - self.i,
        {
            self.advance();
        }
    }
}

/// The single-character token that `c` stands for, if any.
pub open spec fn symbol_of(c: char) -> Option<TokenKind> {
    if c == '=' {
        Some(TokenKind::Eq)
    } else if c == '(' {
        Some(TokenKind::LeftParen)
    } else if c == ')' {
        Some(TokenKind::RightParen)
    } else if c == '[' {
        Some(TokenKind::LeftBrace)
    } else if c == ']' {
        Some(TokenKind::RightBrace)
    } else if c == '{' {
        Some(TokenKind::LeftBracket)
    } else if c == '}' {
        Some(TokenKind::RightBracket)
    } else if c == '!' {
        Some(TokenKind::Bang)
    } else if c == '.' {
        Some(TokenKind::Dot)
    } else if c == ',' {
        Some(TokenKind::Comma)
    } else if c == ';' {
        Some(TokenKind::Semicolon)
    } else if c == ':' {
        Some(TokenKind::Colon)
    } else if c == '*' {
        Some(TokenKind::Star)
    } else if c == '/' {
        Some(TokenKind::Slash)
    } else if c == '<' {
        Some(TokenKind::LessThan)
    } else if c == '>' {
        Some(TokenKind::GreaterThan)
    } else if c == '?' {
        Some(TokenKind::Question)
    } else if c == '+' {
        Some(TokenKind::Plus)
    } else if c == '-' {
        Some(TokenKind::Minus)
    } else if c == '^' {
        Some(TokenKind::Caret)
    } else if c == '|' {
        Some(TokenKind::Pipe)
    } else if c == '&' {
        Some(TokenKind::And)
    } else if c == '%' {
        Some(TokenKind::Percent)
    } else {
        None
    }
}

/// The single-character token that `c` stands for, if any.
pub fn symbol(c: char) -> (r: Option<TokenKind>)
    ensures
        r == symbol_of(c),
{
    if c == '=' {
        Some(TokenKind::Eq)
    } else if c == '(' {
        Some(TokenKind::LeftParen)
    } else if c == ')' {
        Some(TokenKind::RightParen)
    } else if c == '[' {
        Some(TokenKind::LeftBrace)
    } else if c == ']' {
        Some(TokenKind::RightBrace)
    } else if c == '{' {
        Some(TokenKind::LeftBracket)
    } else if c == '}' {
        Some(TokenKind::RightBracket)
    } else if c == '!' {
        Some(TokenKind::Bang)
    } else if c == '.' {
        Some(TokenKind::Dot)
    } else if c == ',' {
        Some(TokenKind::Comma)
    } else if c == ';' {
        Some(TokenKind::Semicolon)
    } else if c == ':' {
        Some(TokenKind::Colon)
    } else if c == '*' {
        Some(TokenKind::Star)
    } else if c == '/' {
        Some(TokenKind::Slash)
    } else if c == '<' {
        Some(TokenKind::LessThan)
    } else if c == '>' {
        Some(TokenKind::GreaterThan)
    } else if c == '?' {
        Some(TokenKind::Question)
    } else if c == '+' {
        Some(TokenKind::Plus)
    } else if c == '-' {
        Some(TokenKind::Minus)
    } else if c == '^' {
        Some(TokenKind::Caret)
    } else if c == '|' {
        Some(TokenKind::Pipe)
    } else if c == '&' {
        Some(TokenKind::And)
    } else if c == '%' {
        Some(TokenKind::Percent)
    } else {
        None
    }
}

/// One step of the tokenizer at position `i`, which holds no whitespace.
/// The rules are tried in this order: comments, keywords, two-character
/// sequences, character literals, single-character symbols, integer
/// literals, string literals, type names, identifiers.  A character that
/// none of them accepts is an error.
pub open spec fn scan_at(src: Seq<char>, i: int) -> Scan {
    if comment_at(src, i) is Some {
        comment_at(src, i)->0
    } else if let Some((k, n)) = keyword_at(src, i) {
        Scan::Emit(Lexeme::Fixed(k), n)
    } else if sequence_at(src, i) is Some {
        Scan::Emit(Lexeme::Fixed(sequence_at(src, i)->0), 2)
    } else if char_literal_at(src, i) is Some {
        char_literal_at(src, i)->0
    } else if 0 <= i < src.len() && symbol_of(src[i]) is Some {
        Scan::Emit(Lexeme::Fixed(symbol_of(src[i])->0), 1)
    } else if number_at(src, i) is Some {
        number_at(src, i)->0
    } else if string_at(src, i) is Some {
        string_at(src, i)->0
    } else if let Some((t, n)) = type_at(src, i) {
        Scan::Emit(Lexeme::Fixed(TokenKind::Type(t)), n)
    } else if ident_at(src, i) is Some {
        ident_at(src, i)->0
    } else {
        Scan::Fail(LexError::UnknownCharacter(i as usize))
    }
}

/// Every step moves forward and stays within the source.
pub proof fn lemma_scan_progress(src: Seq<char>, i: int)
    requires
        0 <= i < src.len(),
    ensures
        scan_at(src, i) matches Scan::Skip(k) ==> i < k <= src.len(),
        scan_at(src, i) matches Scan::Emit(_, n) ==> 1 <= n && i + n <= src.len(),
{
    reveal_strlit("//");
    reveal_strlit("/*");
    lemma_line_end_bounds(src, i + 2);
    lemma_block_end_bounds(src, i + 2);
    lemma_keyword_fits(src, i);
    lemma_sequence_fits(src, i);
    lemma_digit_end(src, i);
    lemma_string_body_bounds(src, i + 1);
    lemma_type_fits(src, i);
    lemma_ident_end(src, i);
}

pub proof fn lemma_space_end(src: Seq<char>, i: int)
    requires
        0 <= i <= src.len(),
    ensures
        i <= space_end(src, i) <= src.len(),
    decreases src.len() - i,
{
    if i < src.len() && is_space(src[i]) {
        lemma_space_end(src, i + 1);
    }
}

/// `p` followed by whatever `r` yields, or the error of `r`.
pub open spec fn prefixed<T, E>(p: Seq<T>, r: Result<Seq<T>, E>) -> Result<Seq<T>, E> {
    match r {
        Ok(s) => Ok(p + s),
        Err(e) => Err(e),
    }
}

/// The lexemes and sizes of the tokens found from position `i` to the end of
/// `src`: whitespace is skipped, then one step is taken, until only
/// whitespace is left.
pub open spec fn lex_from(src: Seq<char>, i: int) -> Result<Seq<(Lexeme, nat)>, LexError>
    decreases src.len() - i,
{
    let j = space_end(src, i);
    if i < 0 || i > src.len() || j >= src.len() {
        Ok(Seq::empty())
    } else {
        proof {
            lemma_space_end(src, i);
            lemma_scan_progress(src, j);
        }
        match scan_at(src, j) {
            Scan::Skip(k) => lex_from(src, k),
            Scan::Emit(x, n) => prefixed(seq![(x, n)], lex_from(src, j + n)),
            Scan::Fail(e) => Err(e),
        }
    }
}

/// The whole token stream of `src`: every token found, then one `Eof` of size 0.
pub open spec fn tokens_of(src: Seq<char>) -> Result<Seq<(Lexeme, nat)>, LexError> {
    match lex_from(src, 0) {
        Ok(s) => Ok(s.push((Lexeme::Fixed(TokenKind::Eof), 0))),
        Err(e) => Err(e),
    }
}

pub proof fn lemma_lexemes_push(ts: Seq<Token>, t: Token)
    ensures
        lexemes(ts.push(t)) == lexemes(ts).push(t@),
{
    assert(lexemes(ts.push(t)) =~= lexemes(ts).push(t@));
}

pub proof fn lemma_prefixed_assoc<T, E>(p: Seq<T>, q: Seq<T>, r: Result<Seq<T>, E>)
    ensures
        prefixed(p, prefixed(q, r)) == prefixed(p + q, r),
{
    if let Ok(s) = r {
        assert(p + (q + s) =~= (p + q) + s);
    }
}

/// Adds the single-character token at the cursor, if the character there
/// stands for one.  Returns whether it did.
pub fn lex_symbol(l: &mut Lexer) -> (r: bool)
    requires
        old(l).wf(),
    ensures
        final(l).wf(),
        final(l).src == old(l).src,
        if 0 <= old(l).i < old(l).src@.len() && symbol_of(old(l).src@[old(l).i as int]) is Some {
            &&& r
            &&& final(l).i == old(l).i + 1
            &&& final(l).tokens@ == old(l).tokens@.push(
                Token { kind: symbol_of(old(l).src@[old(l).i as int])->0, size: 1 },
            )
        } else {
            !r && final(l).i == old(l).i && final(l).tokens == old(l).tokens
        },
{
    if l.i >= l.src.len() {
        return false;
    }
    match symbol(l.src[l.i]) {
        Some(kind) => {
            l.emit(kind, 1);
            true
        },
        None => false,
    }
}

/// Takes one step of the tokenizer at the cursor, which must stand on a
/// character that is not whitespace (see [`scan_at`]).
pub fn lex_step(l: &mut Lexer) -> (r: Result<(), LexError>)
    requires
        old(l).wf(),
        old(l).i < old(l).src.len(),
    ensures
        final(l).wf(),
        final(l).src == old(l).src,
        match scan_at(old(l).src@, old(l).i as int) {
            Scan::Skip(k) => r is Ok && final(l).i == k && final(l).tokens == old(l).tokens,
            Scan::Emit(x, n) => {
                &&& r is Ok
                &&& final(l).i == old(l).i + n
                &&& lexemes(final(l).tokens@) == lexemes(old(l).tokens@).push((x, n))
            },
            Scan::Fail(e) => r == Err::<(), LexError>(e),
        },
{
    let ghost src = l.src@;
    let ghost toks = l.tokens@;
    let start = l.i;
    proof {
        lemma_scan_progress(src, start as int);
    }
    match skip_comments(l) {
        Err(e) => return Err(e),
        Ok(true) => return Ok(()),
        Ok(false) => {},
    }
    if lex_keyword(l) {
        proof {
            lemma_lexemes_push(toks, l.tokens@.last());
        }
        return Ok(());
    }
    if lex_sequence(l) {
        proof {
            lemma_lexemes_push(toks, l.tokens@.last());
        }
        return Ok(());
    }
    match lex_char(l) {
        Err(e) => return Err(e),
        Ok(true) => {
            proof {
                lemma_lexemes_push(toks, l.tokens@.last());
            }
            return Ok(());
        },
        Ok(false) => {},
    }
    if lex_symbol(l) {
        proof {
            lemma_lexemes_push(toks, l.tokens@.last());
        }
        return Ok(());
    }
    match lex_number(l) {
        Err(e) => return Err(e),
        Ok(()) => {},
    }
    if l.i != start {
        proof {
            lemma_lexemes_push(toks, l.tokens@.last());
        }
        return Ok(());
    }
    lex_string(l);
    if l.i != start {
        proof {
            lemma_lexemes_push(toks, l.tokens@.last());
            assert(l.tokens@ =~= toks.push(l.tokens@.last()));
        }
        return Ok(());
    }
    lex_type(l);
    if l.i != start {
        proof {
            lemma_lexemes_push(toks, l.tokens@.last());
        }
        return Ok(());
    }
    lex_unknown_or_ident(l);
    if l.i != start {
        proof {
            lemma_lexemes_push(toks, l.tokens@.last());
            assert(l.tokens@ =~= toks.push(l.tokens@.last()));
        }
        return Ok(());
    }
    Err(LexError::UnknownCharacter(start))
}

/// Tokenizes `src`: the tokens in source order, ended by one `Eof` of size 0,
/// or the first error met.
pub fn lexer(src: &str) -> (r: Result<Vec<Token>, LexError>)
    ensures
        match tokens_of(src@) {
            Ok(m) => r is Ok && lexemes(r->Ok_0@) == m,
            Err(e) => r == Err::<Vec<Token>, LexError>(e),
        },
{
    let mut l = Lexer::new(src);
    proof {
        assert(lexemes(l.tokens@) =~= Seq::<(Lexeme, nat)>::empty());
        assert(Seq::<(Lexeme, nat)>::empty() + Seq::<(Lexeme, nat)>::empty() =~= Seq::<(Lexeme, nat)>::empty());
    }
    loop
        invariant
            l.wf(),
            l.src@ == src@,
            lex_from(src@, 0) == prefixed(lexemes(l.tokens@), lex_from(src@, l.i as int)),
        ensures
            lex_from(src@, 0) == Ok::<Seq<(Lexeme, nat)>, LexError>(lexemes(l.tokens@)),
        decreases l.src.len() - l.i,
    {
        let ghost i0 = l.i as int;
        proof {
            lemma_space_end(src@, i0);
        }
        l.skip_whitespace();
        if l.i >= l.src.len() {
            proof {
                assert(lexemes(l.tokens@) + Seq::<(Lexeme, nat)>::empty() =~= lexemes(l.tokens@));
            }
            break ;
        }
        let ghost done = lexemes(l.tokens@);
        let ghost j = l.i as int;
        proof {
            lemma_scan_progress(src@, j);
            assert(lex_from(src@, i0) == match scan_at(src@, j) {
                Scan::Skip(k) => lex_from(src@, k),
                Scan::Emit(x, n) => prefixed(seq![(x, n)], lex_from(src@, j + n)),
                Scan::Fail(e) => Err(e),
            });
        }
        match lex_step(&mut l) {
            Err(e) => return Err(e),
            Ok(()) => {},
        }
        proof {
            if let Scan::Emit(x, n) = scan_at(src@, j) {
                lemma_prefixed_assoc(done, seq![(x, n)], lex_from(src@, l.i as int));
                assert(done.push((x, n)) =~= done + seq![(x, n)]);
            }
        }
    }
    l.add_token(Token { kind: TokenKind::Eof, size: 0 });
    proof {
        lemma_lexemes_push(l.tokens@.drop_last(), l.tokens@.last());
        assert(l.tokens@.drop_last().push(l.tokens@.last()) =~= l.tokens@);
    }
    Ok(l.tokens)
}

} // verus!
