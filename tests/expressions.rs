use toylang::lexer::lexer;
use toylang::parser::expressions::{convert, pack, tokenize};

#[test]
fn test_tokenize() {
    let i0 = lexer("1 + 2").unwrap();
    let i1 = lexer("12 / 3").unwrap();
    let i2 = lexer("(1 + 2) * 3").unwrap();
    let i3 = lexer("abc / 3").unwrap();
    let i4 = lexer("1 == 2").unwrap();

    let t0 = format!("{:?}", tokenize(i0).unwrap());
    let t1 = format!("{:?}", tokenize(i1).unwrap());
    let t2 = format!("{:?}", tokenize(i2).unwrap());
    let t3 = format!("{:?}", tokenize(i3).unwrap());
    let t4 = format!("{:?}", tokenize(i4).unwrap());

    let e0 = "[Num(1), Operator(Add), Num(2)]".to_string();
    let e1 = "[Num(12), Operator(Div), Num(3)]".to_string();
    let e2 = "[LeftParen, Num(1), Operator(Add), Num(2), RightParen, Operator(Mul), Num(3)]"
        .to_string();
    let e3 = "[Ident(\"abc\"), Operator(Div), Num(3)]".to_string();
    let e4 = "[Num(1), Operator(Equals), Num(2)]".to_string();

    assert_eq!(t0, e0, "Test case 1 failed");
    assert_eq!(t1, e1, "Test case 2 failed");
    assert_eq!(t2, e2, "Test case 3 failed");
    assert_eq!(t3, e3, "Test case 4 failed");
    assert_eq!(t4, e4, "Test case 5 failed");
}

#[test]
fn test_convert() {
    let i0 = lexer("1 + 2").unwrap();
    let i1 = lexer("12 / 3").unwrap();
    let i2 = lexer("(1 + 2) * 3").unwrap();
    let i3 = lexer("abc / 3").unwrap();
    let i4 = lexer("1 == 2").unwrap();

    let o0 = format!("{:?}", convert(tokenize(i0).unwrap()).unwrap());
    let o1 = format!("{:?}", convert(tokenize(i1).unwrap()).unwrap());
    let o2 = format!("{:?}", convert(tokenize(i2).unwrap()).unwrap());
    let o3 = format!("{:?}", convert(tokenize(i3).unwrap()).unwrap());
    let o4 = format!("{:?}", convert(tokenize(i4).unwrap()).unwrap());

    let e0 = "[Num(1), Num(2), Operator(Add)]".to_string();
    let e1 = "[Num(12), Num(3), Operator(Div)]".to_string();
    let e2 = "[Num(1), Num(2), Operator(Add), Num(3), Operator(Mul)]".to_string();
    let e3 = "[Ident(\"abc\"), Num(3), Operator(Div)]".to_string();
    let e4 = "[Num(1), Num(2), Operator(Equals)]".to_string();

    assert_eq!(o0, e0, "Test case 1 failed");
    assert_eq!(o1, e1, "Test case 2 failed");
    assert_eq!(o2, e2, "Test case 3 failed");
    assert_eq!(o3, e3, "Test case 4 failed");
    assert_eq!(o4, e4, "Test case 5 failed");
}

#[test]
fn test_pack() {
    let i0 = lexer("1 + 2").unwrap();
    let i1 = lexer("12 + 3").unwrap();
    let i2 = lexer("(1 + 2) * 3").unwrap();
    let i3 = lexer("abc + 4").unwrap();
    let i4 = lexer("4 + abc").unwrap();
    let i5 = lexer("1 == 2").unwrap();
    let i6 = lexer("abc != 3").unwrap();

    let o0 = format!("{:?}", pack(convert(tokenize(i0).unwrap()).unwrap()).unwrap());
    let o1 = format!("{:?}", pack(convert(tokenize(i1).unwrap()).unwrap()).unwrap());
    let o2 = format!("{:?}", pack(convert(tokenize(i2).unwrap()).unwrap()).unwrap());
    let o3 = format!("{:?}", pack(convert(tokenize(i3).unwrap()).unwrap()).unwrap());
    let o4 = format!("{:?}", pack(convert(tokenize(i4).unwrap()).unwrap()).unwrap());
    let o5 = format!("{:?}", pack(convert(tokenize(i5).unwrap()).unwrap()).unwrap());
    let o6 = format!("{:?}", pack(convert(tokenize(i6).unwrap()).unwrap()).unwrap());

    let e0 = "Expression { expr: Other(Num(3)) }".to_string();
    let e1 = "Expression { expr: Other(Num(15)) }".to_string();
    let e2 = "Expression { expr: Other(Num(9)) }".to_string();
    let e3 = "Expression { expr: Add(Ident(\"abc\"), Num(4)) }".to_string();
    let e4 = "Expression { expr: Add(Num(4), Ident(\"abc\")) }".to_string();
    let e5 = "Expression { expr: Other(Boolean(false)) }".to_string();
    let e6 = "Expression { expr: NotEquals(Ident(\"abc\"), Num(3)) }".to_string();

    assert_eq!(o0, e0, "Test case 1 failed");
    assert_eq!(o1, e1, "Test case 2 failed");
    assert_eq!(o2, e2, "Test case 3 failed");
    assert_eq!(o3, e3, "Test case 4 failed");
    assert_eq!(o4, e4, "Test case 5 failed");
    assert_eq!(o5, e5, "Test case 6 failed");
    assert_eq!(o6, e6, "Test case 7 failed");
}
