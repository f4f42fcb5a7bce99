use toylang::lexer::{lexer, LexError, Token, TokenKind};
use toylang::parser::expressions::{
    fill, fill_binary, pack, parse_expression, CompileError, ExprKind, ExprToken, Expression,
    OpKind,
};
use toylang::parser::expressions::Token as ExprTok;

fn compile(src: &str) -> Result<Expression, CompileError> {
    parse_expression(lexer(src).unwrap())
}

fn folded(src: &str) -> ExprKind {
    match compile(src).unwrap().expr {
        ExprToken::Other(k) => k,
        other => panic!("not folded: {:?}", other),
    }
}

fn kinds(src: &str) -> String {
    let tokens = lexer(src).unwrap();
    let kinds: Vec<String> = tokens
        .iter()
        .map(|t| format!("{:?}/{}", t.kind, t.size))
        .collect();
    kinds.join(" ")
}

#[test]
fn fn_main_tokenizes_exactly() {
    assert_eq!(
        kinds("fn main() {}"),
        "Fn/3 Unknown(\"main\")/4 LeftParen/1 RightParen/1 LeftBracket/1 RightBracket/1 Eof/0"
    );
}

#[test]
fn literal_operations_fold_like_native_operators() {
    let pairs: [(i64, i64); 4] = [(7, 3), (12, 5), (0, 9), (100, 7)];
    for (a, b) in pairs {
        assert_eq!(folded(&format!("{} + {}", a, b)), ExprKind::Num(a + b));
        assert_eq!(folded(&format!("{} - {}", a, b)), ExprKind::Num(a - b));
        assert_eq!(folded(&format!("{} * {}", a, b)), ExprKind::Num(a * b));
        assert_eq!(folded(&format!("{} / {}", a, b)), ExprKind::Num(a / b));
        assert_eq!(folded(&format!("{} % {}", a, b)), ExprKind::Num(a % b));
        assert_eq!(folded(&format!("{} ^ {}", a, b)), ExprKind::Num(a ^ b));
        assert_eq!(folded(&format!("{} | {}", a, b)), ExprKind::Num(a | b));
        assert_eq!(folded(&format!("{} & {}", a, b)), ExprKind::Num(a & b));
        assert_eq!(folded(&format!("{} == {}", a, b)), ExprKind::Boolean(a == b));
        assert_eq!(folded(&format!("{} != {}", a, b)), ExprKind::Boolean(a != b));
        assert_eq!(folded(&format!("{} >= {}", a, b)), ExprKind::Boolean(a >= b));
        assert_eq!(folded(&format!("{} <= {}", a, b)), ExprKind::Boolean(a <= b));
        assert_eq!(folded(&format!("{} > {}", a, b)), ExprKind::Boolean(a > b));
        assert_eq!(folded(&format!("{} < {}", a, b)), ExprKind::Boolean(a < b));
    }
}

#[test]
fn exact_folded_values() {
    assert_eq!(folded("7 - 3"), ExprKind::Num(4));
    assert_eq!(folded("7 / 2"), ExprKind::Num(3));
    assert_eq!(folded("7 % 3"), ExprKind::Num(1));
    assert_eq!(folded("6 ^ 3"), ExprKind::Num(5));
    assert_eq!(folded("6 | 3"), ExprKind::Num(7));
    assert_eq!(folded("6 & 3"), ExprKind::Num(2));
    assert_eq!(folded("3 >= 3"), ExprKind::Boolean(true));
    assert_eq!(folded("2 < 1"), ExprKind::Boolean(false));
}

#[test]
fn parentheses_fold_before_the_outer_operator() {
    assert_eq!(
        format!("{:?}", compile("(1 + 2) * 3").unwrap()),
        "Expression { expr: Other(Num(9)) }"
    );
}

#[test]
fn precedence_and_left_to_right_grouping() {
    assert_eq!(folded("1 + 2 * 3"), ExprKind::Num(7));
    assert_eq!(folded("2 * 3 + 1"), ExprKind::Num(7));
    assert_eq!(folded("8 - 3 - 2"), ExprKind::Num(3));
    assert_eq!(folded("16 / 4 / 2"), ExprKind::Num(2));
    assert_eq!(folded("1 + 1 == 2"), ExprKind::Boolean(true));
    assert_eq!(folded("6 & 3 | 8"), ExprKind::Num(10));
}

#[test]
fn identifier_plus_literal_stays_unevaluated() {
    assert_eq!(
        format!("{:?}", compile("abc + 4").unwrap()),
        "Expression { expr: Add(Ident(\"abc\"), Num(4)) }"
    );
}

#[test]
fn identifier_not_equals_literal() {
    assert_eq!(
        format!("{:?}", compile("abc != 3").unwrap()),
        "Expression { expr: NotEquals(Ident(\"abc\"), Num(3)) }"
    );
}

#[test]
fn two_identifiers_combine() {
    assert_eq!(
        format!("{:?}", compile("a * b").unwrap()),
        "Expression { expr: Mul(Ident(\"a\"), Ident(\"b\")) }"
    );
}

#[test]
fn lone_literal_and_identifier() {
    assert_eq!(
        format!("{:?}", compile("42").unwrap()),
        "Expression { expr: Other(Num(42)) }"
    );
    assert_eq!(
        format!("{:?}", compile("true").unwrap()),
        "Expression { expr: Other(Boolean(true)) }"
    );
    assert_eq!(
        format!("{:?}", compile("x").unwrap()),
        "Expression { expr: Other(Ident(\"x\")) }"
    );
}

#[test]
fn empty_parentheses_are_rejected() {
    assert_eq!(compile("()"), Err(CompileError::ValueCount(0)));
    assert_eq!(compile(""), Err(CompileError::ValueCount(0)));
}

#[test]
fn several_values_are_rejected() {
    assert_eq!(compile("1 2"), Err(CompileError::ValueCount(2)));
    assert_eq!(compile("(1) (2) (3)"), Err(CompileError::ValueCount(3)));
}

#[test]
fn compile_errors() {
    assert_eq!(compile("1 / 0"), Err(CompileError::DivisionByZero));
    assert_eq!(compile("1 % 0"), Err(CompileError::DivisionByZero));
    assert_eq!(compile("9223372036854775807 + 1"), Err(CompileError::Overflow));
    assert_eq!(compile("0 - 9223372036854775807 - 2"), Err(CompileError::Overflow));
    assert_eq!(compile("(1 + 2"), Err(CompileError::UnmatchedParen));
    assert_eq!(compile("1 + 2)"), Err(CompileError::UnmatchedParen));
    assert_eq!(compile("+"), Err(CompileError::MissingOperand));
    assert_eq!(compile("true + abc"), Err(CompileError::TypeMismatch));
    assert_eq!(compile("true == false"), Err(CompileError::TypeMismatch));
    assert_eq!(compile("abc + 1 + 2"), Err(CompileError::TypeMismatch));
    assert_eq!(compile("1 ; 2"), Err(CompileError::InvalidToken(1)));
}

#[test]
fn compiling_stops_at_eof() {
    let mut tokens = lexer("1 + 2").unwrap();
    tokens.push(Token { kind: TokenKind::Semicolon, size: 1 });
    assert_eq!(
        format!("{:?}", parse_expression(tokens).unwrap()),
        "Expression { expr: Other(Num(3)) }"
    );
}

#[test]
fn packer_rejects_parentheses() {
    assert_eq!(pack(vec![ExprTok::LeftParen]), Err(CompileError::UnexpectedToken));
    assert_eq!(
        pack(vec![ExprTok::Num(1), ExprTok::Operator(OpKind::Inc)]).unwrap(),
        Expression { expr: ExprToken::Other(ExprKind::Num(1)) }
    );
}

#[test]
fn fill_builds_operator_nodes() {
    assert_eq!(
        fill(&OpKind::Sub, ExprKind::Num(1), ExprKind::Ident("y".to_string())),
        ExprToken::Sub(ExprKind::Num(1), ExprKind::Ident("y".to_string()))
    );
    assert_eq!(
        fill_binary(&OpKind::Dec, ExprKind::Ident("i".to_string())),
        ExprToken::Dec(ExprKind::Ident("i".to_string()))
    );
}

#[test]
fn literals_tokenize_back_to_their_values() {
    assert_eq!(kinds("12345"), "IntegerLiteral(12345)/5 Eof/0");
    assert_eq!(kinds("0"), "IntegerLiteral(0)/1 Eof/0");
    assert_eq!(
        kinds("9223372036854775807"),
        "IntegerLiteral(9223372036854775807)/19 Eof/0"
    );
    assert_eq!(kinds("\"abc def\""), "StringLiteral(\"abc def\")/9 Eof/0");
    assert_eq!(kinds("\"\""), "StringLiteral(\"\")/2 Eof/0");
    assert_eq!(kinds("'x'"), "CharLiteral('x')/3 Eof/0");
    assert_eq!(kinds("'\\''"), "CharLiteral('\\'')/4 Eof/0");
    assert_eq!(kinds("'\\\\'"), "CharLiteral('\\\\')/4 Eof/0");
}

#[test]
fn keywords_need_a_boundary() {
    assert_eq!(kinds("trueasd"), "Unknown(\"trueasd\")/7 Eof/0");
    assert_eq!(kinds("iffy"), "Unknown(\"iffy\")/4 Eof/0");
    assert_eq!(kinds("variable"), "Unknown(\"variable\")/8 Eof/0");
    assert_eq!(kinds("format"), "Unknown(\"format\")/6 Eof/0");
    assert_eq!(kinds("true)"), "True/4 RightParen/1 Eof/0");
}

#[test]
fn types_and_sequences() {
    assert_eq!(kinds("void i32 u32"), "Type(Void)/4 Type(I32)/3 Type(U32)/3 Eof/0");
    assert_eq!(
        kinds("== != >= <= :: .. -> =>"),
        "DoubleEquals/2 BangEquals/2 GtEq/2 LtEq/2 DoubleColon/2 DoubleDot/2 Arrow/2 FatArrow/2 Eof/0"
    );
    assert_eq!(kinds("a=b"), "Unknown(\"a\")/1 Eq/1 Unknown(\"b\")/1 Eof/0");
}

#[test]
fn whitespace_and_comments_yield_nothing() {
    assert_eq!(kinds(""), "Eof/0");
    assert_eq!(kinds(" \t\r\n\u{000B}\u{000C}"), "Eof/0");
    assert_eq!(kinds("1 "), "IntegerLiteral(1)/1 Eof/0");
    assert_eq!(kinds("1 // two\n3 /* four */ 5"), "IntegerLiteral(1)/1 IntegerLiteral(3)/1 IntegerLiteral(5)/1 Eof/0");
}

#[test]
fn unterminated_string_runs_to_the_end() {
    assert_eq!(kinds("\"ab"), "StringLiteral(\"ab\")/3 Eof/0");
    assert_eq!(kinds("\"a\\\"b\""), "StringLiteral(\"a\\\"b\")/6 Eof/0");
}

#[test]
fn lex_errors() {
    assert_eq!(lexer("1 /* abc").unwrap_err(), LexError::UnterminatedComment(2));
    assert_eq!(lexer("'a").unwrap_err(), LexError::MissingQuote(0));
    assert_eq!(lexer("x = '").unwrap_err(), LexError::MissingQuote(4));
    assert_eq!(
        lexer("99999999999999999999").unwrap_err(),
        LexError::IntegerTooLarge(0)
    );
    assert_eq!(lexer("a @").unwrap_err(), LexError::UnknownCharacter(2));
}

#[test]
fn kind_shape_equality() {
    assert_eq!(TokenKind::IntegerLiteral(1), TokenKind::IntegerLiteral(2));
    assert_eq!(
        TokenKind::StringLiteral("a".to_string()),
        TokenKind::StringLiteral("b".to_string())
    );
    assert_eq!(TokenKind::Plus, TokenKind::Plus);
    assert_ne!(TokenKind::Plus, TokenKind::Minus);
    assert_ne!(TokenKind::CharLiteral('a'), TokenKind::CharLiteral('b'));
    assert_eq!(TokenKind::CharLiteral('a'), TokenKind::CharLiteral('a'));
    assert_ne!(TokenKind::Unknown("a".to_string()), TokenKind::IntegerLiteral(1));
}

#[test]
fn token_from_kind_and_size() {
    let t = Token::from((TokenKind::Comma, 1));
    assert_eq!(format!("{:?}", t), "Token { kind: Comma, size: 1 }");
    let u: Token = (TokenKind::IntegerLiteral(7), 2).into();
    assert_eq!(format!("{:?}", u), "Token { kind: IntegerLiteral(7), size: 2 }");
}
