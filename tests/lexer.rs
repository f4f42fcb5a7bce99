use toylang::lexer::comments::{skip_block_comment, skip_line_comment};
use toylang::lexer::keywords::lex_keyword;
use toylang::lexer::other::lex_type;
use toylang::lexer::sequences::lex_sequence;
use toylang::lexer::strings::{lex_char, lex_string};
use toylang::lexer::{lexer, Lexer, Token, TokenKind};
use toylang::parser::Type;

#[test]
fn test_skip_line_comment() {
    let c0 = "// hello world\na";
    let c1 = "// hello world\n";

    let mut l0 = Lexer::new(c0);
    let mut l1 = Lexer::new(c1);

    skip_line_comment(&mut l0);
    skip_line_comment(&mut l1);

    assert_eq!(l0.src.get(l0.i), Some('a').as_ref(), "Test case 1 failed");
    assert_eq!(l1.src.get(l1.i), None, "Test case 2 failed");
}

#[test]
fn test_skip_block_comment() {
    let c0 = "/* hello world */a";
    let c1 = "/* hello\n world */b";
    let c2 = "/* hello world */";

    let mut l0 = Lexer::new(c0);
    let mut l1 = Lexer::new(c1);
    let mut l2 = Lexer::new(c2);

    skip_block_comment(&mut l0);
    skip_block_comment(&mut l1);
    skip_block_comment(&mut l2);

    assert_eq!(l0.src.get(l0.i), Some('a').as_ref(), "Test case 1 failed");
    assert_eq!(l1.src.get(l1.i), Some('b').as_ref(), "Test case 2 failed");
    assert_eq!(l2.src.get(l2.i), None, "Test case 3 failed");
}

#[test]
fn test_lexer_with_line_comments() {
    let c0 = "// hello world\n";
    let c1 = "// hello world\n;";

    let t0 = lexer(c0).unwrap();
    let t1 = lexer(c1).unwrap();

    let o0 = format!("{:?}", t0);
    let o1 = format!("{:?}", t1);

    let e0 = format!(
        "{:?}",
        vec![Token {
            kind: TokenKind::Eof,
            size: 0
        }]
    );
    let e1 = format!(
        "{:?}",
        vec![
            Token {
                kind: TokenKind::Semicolon,
                size: 1
            },
            Token {
                kind: TokenKind::Eof,
                size: 0
            }
        ]
    );

    assert_eq!(o0, e0, "Test case 1 failed");
    assert_eq!(o1, e1, "Test case 2 failed");
}

#[test]
fn test_lexer_with_block_comments() {
    let c0 = "/* hello world */";
    let c1 = "/* hello world */;";
    let c2 = "/* hello\n world */;";

    let t0 = lexer(c0).unwrap();
    let t1 = lexer(c1).unwrap();
    let t2 = lexer(c2).unwrap();

    let o0 = format!("{:?}", t0);
    let o1 = format!("{:?}", t1);
    let o2 = format!("{:?}", t2);

    let e0 = format!(
        "{:?}",
        vec![Token {
            kind: TokenKind::Eof,
            size: 0
        }]
    );
    let e1 = format!(
        "{:?}",
        vec![
            Token {
                kind: TokenKind::Semicolon,
                size: 1
            },
            Token {
                kind: TokenKind::Eof,
                size: 0
            }
        ]
    );
    let e2 = format!(
        "{:?}",
        vec![
            Token {
                kind: TokenKind::Semicolon,
                size: 1
            },
            Token {
                kind: TokenKind::Eof,
                size: 0
            }
        ]
    );

    assert_eq!(o0, e0, "Test case 1 failed");
    assert_eq!(o1, e1, "Test case 2 failed");
    assert_eq!(o2, e2, "Test case 3 failed");
}

#[test]
fn test_lex_keyword_fn() {
    let src = "fn main() {}";
    let mut lexer = Lexer::new(src);

    lex_keyword(&mut lexer);

    let a = format!("{:?}", lexer.tokens.last().unwrap());
    let b = format!(
        "{:?}",
        Token {
            kind: TokenKind::Fn,
            size: 3
        }
    );

    assert_eq!(a, b);
    assert_eq!(lexer.src[lexer.i], 'm');
}

#[test]
fn test_lex_keyword_if() {
    let src = "if(a == b) {}";
    let mut lexer = Lexer::new(src);

    lex_keyword(&mut lexer);

    let a = format!("{:?}", lexer.tokens.last().unwrap());
    let b = format!(
        "{:?}",
        Token {
            kind: TokenKind::If,
            size: 2
        }
    );

    assert_eq!(a, b);
    assert_eq!(lexer.src[lexer.i], '(');
}

#[test]
fn test_lex_keyword_elif() {
    let src = "elif(a == b) {}";
    let mut lexer = Lexer::new(src);

    lex_keyword(&mut lexer);

    let a = format!("{:?}", lexer.tokens.last().unwrap());
    let b = format!(
        "{:?}",
        Token {
            kind: TokenKind::Elif,
            size: 4
        }
    );

    assert_eq!(a, b);
    assert_eq!(lexer.src[lexer.i], '(');
}

#[test]
fn test_lex_keyword_else() {
    let src = "else {}";
    let mut lexer = Lexer::new(src);

    lex_keyword(&mut lexer);

    let a = format!("{:?}", lexer.tokens.last().unwrap());
    let b = format!(
        "{:?}",
        Token {
            kind: TokenKind::Else,
            size: 4
        }
    );

    assert_eq!(a, b);
    assert_eq!(lexer.src[lexer.i], ' ');
}

#[test]
fn test_lex_keyword_for() {
    let src = "for(a = 1; b < 2; a++) {}";
    let mut lexer = Lexer::new(src);

    lex_keyword(&mut lexer);

    let a = format!("{:?}", lexer.tokens.last().unwrap());
    let b = format!(
        "{:?}",
        Token {
            kind: TokenKind::For,
            size: 3
        }
    );

    assert_eq!(a, b);
    assert_eq!(lexer.src[lexer.i], '(');
}

#[test]
fn test_lex_keyword_while() {
    let src = "while(a == b) {}";
    let mut lexer = Lexer::new(src);

    lex_keyword(&mut lexer);

    let a = format!("{:?}", lexer.tokens.last().unwrap());
    let b = format!(
        "{:?}",
        Token {
            kind: TokenKind::While,
            size: 5
        }
    );

    assert_eq!(a, b);
    assert_eq!(lexer.src[lexer.i], '(');
}

#[test]
fn test_lex_keyword_return() {
    let src = "return a;";
    let mut lexer = Lexer::new(src);

    lex_keyword(&mut lexer);

    let a = format!("{:?}", lexer.tokens.last().unwrap());
    let b = format!(
        "{:?}",
        Token {
            kind: TokenKind::Return,
            size: 6
        }
    );

    assert_eq!(a, b);
    assert_eq!(lexer.src[lexer.i], ' ');
}

#[test]
fn test_lex_keyword_var() {
    let src = "var something = 3;";
    let mut lexer = Lexer::new(src);

    lex_keyword(&mut lexer);

    let a = format!("{:?}", lexer.tokens.last().unwrap());
    let b = format!(
        "{:?}",
        Token {
            kind: TokenKind::Var,
            size: 4
        }
    );

    assert_eq!(a, b);
    assert_eq!(lexer.src[lexer.i], 's');
}

#[test]
fn test_lex_keyword_false() {
    let src = "false";
    let mut lexer = Lexer::new(src);

    lex_keyword(&mut lexer);

    let a = format!("{:?}", lexer.tokens.last().unwrap());
    let b = format!(
        "{:?}",
        Token {
            kind: TokenKind::False,
            size: 5
        }
    );

    assert_eq!(a, b);
}

#[test]
fn test_lex_keyword_true() {
    let src = "true";
    let mut lexer = Lexer::new(src);

    lex_keyword(&mut lexer);

    let a = format!("{:?}", lexer.tokens.last().unwrap());
    let b = format!(
        "{:?}",
        Token {
            kind: TokenKind::True,
            size: 4
        }
    );

    assert_eq!(a, b);
}

#[test]
fn test_lexer() {
    let code = "fn main() {}";

    let tokens = lexer(code).unwrap();

    let a = format!("{:?}", tokens);
    let b = format!(
        "{:?}",
        vec![
            Token {
                kind: TokenKind::Fn,
                size: 3
            },
            Token {
                kind: TokenKind::Unknown("main".to_string()),
                size: 4
            },
            Token {
                kind: TokenKind::LeftParen,
                size: 1
            },
            Token {
                kind: TokenKind::RightParen,
                size: 1
            },
            Token {
                kind: TokenKind::LeftBracket,
                size: 1
            },
            Token {
                kind: TokenKind::RightBracket,
                size: 1
            },
            Token {
                kind: TokenKind::Eof,
                size: 0
            }
        ]
    );

    assert_eq!(a, b);
}

#[test]
fn test_partialeq_impl_for_tokenkind_with_unknown() {
    let token = Token {
        kind: TokenKind::Unknown("main".to_string()),
        size: 3,
    };

    // This returns true, which is expected behaviour.
    // I know it's weird, but I was lazy. Make it better if it bothers you.
    // Warning: You have to fix ~200 lines of code that rely on that as well.
    assert_eq!(token.kind, TokenKind::Unknown("".to_string()))
}

#[test]
fn test_type_void() {
    let src = " void2";
    let mut lexer = Lexer::new(src);

    lexer.advance();

    lex_type(&mut lexer);

    let a = format!("{:?}", lexer.tokens.last().unwrap());
    let b = format!(
        "{:?}",
        Token {
            kind: TokenKind::Type(Type::Void),
            size: 4
        }
    );

    assert_eq!(a, b);
    assert_eq!(lexer.src[lexer.i], '2');
}

#[test]
fn test_type_i32() {
    let src = " i320";
    let mut lexer = Lexer::new(src);

    lexer.advance();

    lex_type(&mut lexer);

    let a = format!("{:?}", lexer.tokens.last().unwrap());
    let b = format!(
        "{:?}",
        Token {
            kind: TokenKind::Type(Type::I32),
            size: 3
        }
    );

    assert_eq!(a, b);
    assert_eq!(lexer.src[lexer.i], '0');
}

#[test]
fn test_type_u32() {
    let src = " u320";
    let mut lexer = Lexer::new(src);

    lexer.advance();

    lex_type(&mut lexer);

    let a = format!("{:?}", lexer.tokens.last().unwrap());
    let b = format!(
        "{:?}",
        Token {
            kind: TokenKind::Type(Type::U32),
            size: 3
        }
    );

    assert_eq!(a, b);
    assert_eq!(lexer.src[lexer.i], '0');
}

#[test]
fn test_sequence_double_colon() {
    let src = "a::b";
    let mut lexer = Lexer::new(src);

    lexer.advance();

    lex_sequence(&mut lexer);

    let a = format!("{:?}", lexer.tokens.last().unwrap());
    let b = format!(
        "{:?}",
        Token {
            kind: TokenKind::DoubleColon,
            size: 2
        }
    );

    assert_eq!(a, b);
    assert_eq!(lexer.src[lexer.i], 'b');
}

#[test]
fn test_sequence_double_dot() {
    let src = "0..23";
    let mut lexer = Lexer::new(src);

    lexer.advance();

    lex_sequence(&mut lexer);

    let a = format!("{:?}", lexer.tokens.last().unwrap());
    let b = format!(
        "{:?}",
        Token {
            kind: TokenKind::DoubleDot,
            size: 2
        }
    );

    assert_eq!(a, b);
    assert_eq!(lexer.src[lexer.i], '2');
}

#[test]
fn test_lex_char() {
    let c0 = "'a'";
    let c1 = "'1'";
    let c2 = "';'";
    let c3 = "'\''";
    let c4 = "'\\\\'";

    let mut l0 = Lexer::new(c0);
    let mut l1 = Lexer::new(c1);
    let mut l2 = Lexer::new(c2);
    let mut l3 = Lexer::new(c3);
    let mut l4 = Lexer::new(c4);

    lex_char(&mut l0).unwrap();
    lex_char(&mut l1).unwrap();
    lex_char(&mut l2).unwrap();
    lex_char(&mut l3).unwrap();
    lex_char(&mut l4).unwrap();

    let o0 = format!("{:?}", l0.tokens);
    let o1 = format!("{:?}", l1.tokens);
    let o2 = format!("{:?}", l2.tokens);
    let o3 = format!("{:?}", l3.tokens);
    let o4 = format!("{:?}", l4.tokens);

    let e0 = format!(
        "{:?}",
        vec![Token {
            kind: TokenKind::CharLiteral('a'),
            size: 3
        }]
    );
    let e1 = format!(
        "{:?}",
        vec![Token {
            kind: TokenKind::CharLiteral('1'),
            size: 3
        }]
    );
    let e2 = format!(
        "{:?}",
        vec![Token {
            kind: TokenKind::CharLiteral(';'),
            size: 3
        }]
    );
    let e3 = format!(
        "{:?}",
        vec![Token {
            kind: TokenKind::CharLiteral('\''),
            size: 3
        }]
    );
    let e4 = format!(
        "{:?}",
        vec![Token {
            kind: TokenKind::CharLiteral('\\'),
            size: 4
        }]
    );

    assert_eq!(o0, e0, "Test case 1 failed");
    assert_eq!(o1, e1, "Test case 2 failed");
    assert_eq!(o2, e2, "Test case 3 failed");
    assert_eq!(o3, e3, "Test case 4 failed");
    assert_eq!(o4, e4, "Test case 5 failed");
}

#[test]
fn test_lex_string() {
    let str0 = "\"Hello, World!\"";
    let str1 = "\"Hello, World!\";";
    let str2 = "\"Hello,\\\" World!\"";

    let mut l0 = Lexer::new(str0);
    let mut l1 = Lexer::new(str1);
    let mut l2 = Lexer::new(str2);

    lex_string(&mut l0);
    lex_string(&mut l1);
    lex_string(&mut l2);

    let o0 = format!("{:?}", l0.tokens);
    let o1 = format!("{:?}", l1.tokens);
    let o2 = format!("{:?}", l2.tokens);

    let expected = format!(
        "{:?}",
        vec![Token {
            kind: TokenKind::StringLiteral("Hello, World!".to_string()),
            size: 15
        }]
    );
    let expected2 = format!(
        "{:?}",
        vec![Token {
            kind: TokenKind::StringLiteral("Hello,\" World!".to_string()),
            size: 17
        }]
    );

    assert_eq!(o0, expected, "Test case 1 failed");
    assert_eq!(o1, expected, "Test case 2 failed");
    assert_eq!(o2, expected2, "Test case 3 failed");
}

#[test]
fn test_lexer_with_strings() {
    let str0 = "\"Hello, World!\"";
    let str1 = "\"Hello, World!\";";
    let str2 = ";\"Hello, World!\"";
    let str3 = "\"Hello,\\\" World!\"";

    let t0 = lexer(str0).unwrap();
    let t1 = lexer(str1).unwrap();
    let t2 = lexer(str2).unwrap();
    let t3 = lexer(str3).unwrap();

    let o0 = format!("{:?}", t0);
    let o1 = format!("{:?}", t1);
    let o2 = format!("{:?}", t2);
    let o3 = format!("{:?}", t3);

    let e0 = format!(
        "{:?}",
        vec![
            Token {
                kind: TokenKind::StringLiteral("Hello, World!".to_string()),
                size: 15
            },
            Token {
                kind: TokenKind::Eof,
                size: 0
            }
        ]
    );
    let e1 = format!(
        "{:?}",
        vec![
            Token {
                kind: TokenKind::StringLiteral("Hello, World!".to_string()),
                size: 15
            },
            Token {
                kind: TokenKind::Semicolon,
                size: 1
            },
            Token {
                kind: TokenKind::Eof,
                size: 0
            }
        ]
    );
    let e2 = format!(
        "{:?}",
        vec![
            Token {
                kind: TokenKind::Semicolon,
                size: 1
            },
            Token {
                kind: TokenKind::StringLiteral("Hello, World!".to_string()),
                size: 15
            },
            Token {
                kind: TokenKind::Eof,
                size: 0
            }
        ]
    );
    let e3 = format!(
        "{:?}",
        vec![
            Token {
                kind: TokenKind::StringLiteral("Hello,\" World!".to_string()),
                size: 17
            },
            Token {
                kind: TokenKind::Eof,
                size: 0
            }
        ]
    );

    assert_eq!(o0, e0, "Test case 1 failed");
    assert_eq!(o1, e1, "Test case 2 failed");
    assert_eq!(o2, e2, "Test case 3 failed");
    assert_eq!(o3, e3, "Test case 4 failed");
}

#[test]
fn test_lexer_with_characters() {
    let c0 = "'a'";
    let c1 = "'1'";
    let c2 = "';'";

    let t0 = lexer(c0).unwrap();
    let t1 = lexer(c1).unwrap();
    let t2 = lexer(c2).unwrap();

    let o0 = format!("{:?}", t0);
    let o1 = format!("{:?}", t1);
    let o2 = format!("{:?}", t2);

    let e0 = format!(
        "{:?}",
        vec![
            Token {
                kind: TokenKind::CharLiteral('a'),
                size: 3
            },
            Token {
                kind: TokenKind::Eof,
                size: 0
            }
        ]
    );
    let e1 = format!(
        "{:?}",
        vec![
            Token {
                kind: TokenKind::CharLiteral('1'),
                size: 3
            },
            Token {
                kind: TokenKind::Eof,
                size: 0
            }
        ]
    );
    let e2 = format!(
        "{:?}",
        vec![
            Token {
                kind: TokenKind::CharLiteral(';'),
                size: 3
            },
            Token {
                kind: TokenKind::Eof,
                size: 0
            }
        ]
    );

    assert_eq!(o0, e0, "Test case 1 failed");
    assert_eq!(o1, e1, "Test case 2 failed");
    assert_eq!(o2, e2, "Test case 3 failed");
}

#[test]
fn test_lexer_with_characters_with_escapes() {
    let c0 = "'\\''";
    let c1 = "'\\\\'";

    let t0 = lexer(c0).unwrap();
    let t1 = lexer(c1).unwrap();

    let o0 = format!("{:?}", t0);
    let o1 = format!("{:?}", t1);

    let e0 = format!(
        "{:?}",
        vec![
            Token {
                kind: TokenKind::CharLiteral('\''),
                size: 4
            },
            Token {
                kind: TokenKind::Eof,
                size: 0
            }
        ]
    );
    let e1 = format!(
        "{:?}",
        vec![
            Token {
                kind: TokenKind::CharLiteral('\\'),
                size: 4
            },
            Token {
                kind: TokenKind::Eof,
                size: 0
            }
        ]
    );

    assert_eq!(o0, e0, "Test case 1 failed");
    assert_eq!(o1, e1, "Test case 2 failed");
}
