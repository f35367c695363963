use dynspire::lexer::{Lexer, TokenKind};

fn lex(src: &str) -> Vec<TokenKind> {
    Lexer::new(src).tokenize().unwrap().into_iter().map(|t| t.kind).collect()
}

#[test]
fn test_basic_punctuation() {
    assert_eq!(
        lex("{ } ( ) [ ] < > & , : ; ->"),
        vec![
            TokenKind::LBrace, TokenKind::RBrace,
            TokenKind::LParen, TokenKind::RParen,
            TokenKind::LBracket, TokenKind::RBracket,
            TokenKind::Lt, TokenKind::Gt,
            TokenKind::Amp,
            TokenKind::Comma, TokenKind::Colon, TokenKind::Semicolon,
            TokenKind::Arrow,
            TokenKind::Eof,
        ]
    );
}

#[test]
fn test_keywords() {
    assert_eq!(
        lex("interface struct enum opaque fn mut"),
        vec![
            TokenKind::Interface, TokenKind::Struct, TokenKind::Enum,
            TokenKind::Opaque, TokenKind::Fn, TokenKind::Mut,
            TokenKind::Eof,
        ]
    );
}

#[test]
fn test_identifiers() {
    assert_eq!(
        lex("Rle compress u8 Vec Option String"),
        vec![
            TokenKind::Ident("Rle".into()),
            TokenKind::Ident("compress".into()),
            TokenKind::Ident("u8".into()),
            TokenKind::Ident("Vec".into()),
            TokenKind::Ident("Option".into()),
            TokenKind::Ident("String".into()),
            TokenKind::Eof,
        ]
    );
}

#[test]
fn test_comments() {
    assert_eq!(
        lex("// comment\nfn"),
        vec![TokenKind::Fn, TokenKind::Eof],
    );
}

#[test]
fn test_arrow_vs_minus() {
    assert_eq!(
        lex("->"),
        vec![TokenKind::Arrow, TokenKind::Eof],
    );
}

#[test]
fn test_unexpected_char() {
    let err = Lexer::new("@").tokenize().unwrap_err();
    assert!(err.msg.contains("unexpected character"));
    assert_eq!(err.line, 1);
    assert_eq!(err.col, 1);
}

#[test]
fn test_line_col_tracking() {
    let tokens = Lexer::new("interface\n  fn").tokenize().unwrap();
    assert_eq!(tokens[0].line, 1);
    assert_eq!(tokens[0].col, 1);
    assert_eq!(tokens[1].line, 2);
    assert_eq!(tokens[1].col, 3);
}

#[test]
fn lexer_keyword_for_directives() {
    assert_eq!(
        lex("include \"a b.dspi\";"),
        vec![
            TokenKind::Include,
            TokenKind::Str("a b.dspi".to_string()),
            TokenKind::Semicolon,
            TokenKind::Eof,
        ]
    );
}

#[test]
fn lexer_string_may_hold_any_character() {
    assert_eq!(
        lex("\"\u{e9}t\u{e9} \u{4e2d}\""),
        vec![TokenKind::Str("\u{e9}t\u{e9} \u{4e2d}".to_string()), TokenKind::Eof]
    );
}

#[test]
fn lexer_integers() {
    assert_eq!(
        lex("0 16 16x"),
        vec![
            TokenKind::Int(0),
            TokenKind::Int(16),
            TokenKind::Int(16),
            TokenKind::Ident("x".to_string()),
            TokenKind::Eof,
        ]
    );
}

#[test]
fn lexer_integer_out_of_range() {
    let err = Lexer::new("  99999999999999999999999").tokenize().unwrap_err();
    assert_eq!(err.msg, "integer literal out of range");
    assert_eq!(err.col, 3);
}

#[test]
fn lexer_unterminated_string() {
    let err = Lexer::new("\n\"abc").tokenize().unwrap_err();
    assert_eq!(err.msg, "unterminated string literal");
    assert_eq!(err.to_string(), "2:1: unterminated string literal");
}

#[test]
fn lexer_unexpected_character_message() {
    let err = Lexer::new("fn - x").tokenize().unwrap_err();
    assert_eq!(err.to_string(), "1:4: unexpected character `-`");
}

#[test]
fn lexer_ends_once_with_eof() {
    let tokens = lex("struct A { } // trailing");
    let eofs = tokens.iter().filter(|t| matches!(t, TokenKind::Eof)).count();
    assert_eq!(eofs, 1);
    assert_eq!(tokens.last(), Some(&TokenKind::Eof));
}

#[test]
fn lexer_kind_names() {
    assert_eq!(TokenKind::Arrow.kind_name(), "`->`");
    assert_eq!(TokenKind::Include.kind_name(), "keyword `include`");
    assert_eq!(TokenKind::Ident("x".to_string()).kind_name(), "identifier");
    assert_eq!(TokenKind::Eof.kind_name(), "end of file");
}

#[test]
fn gaps_between_tokens_do_not_matter() {
    let plain = lex("fn m(x: u8) -> Vec<u8>;");
    assert_eq!(lex("fn // a name\n m ( x\t:\r\n u8 ) // the end\n// more\n-> Vec < u8 > ;"), plain);
    assert_eq!(lex("// first\n\nfn m(x: u8)\n->\nVec<u8>; // last"), plain);
    assert_ne!(lex("f n m(x: u8) -> Vec<u8>;"), plain);
}

#[test]
fn gaps_may_be_put_between_all_tokens() {
    let src = "interface I{enum E{A(u8),B}fn m(x:[u8;16],e:E)->(u8,&str);}";
    let plain = lex(src);
    let mut spaced = String::from("// before\n");
    for (i, c) in src.chars().enumerate() {
        let word = |c: char| c.is_alphanumeric();
        let next = src[i + 1..].chars().next();
        spaced.push(c);
        let inside = word(c) && next.map_or(false, word) || c == '-';
        if !inside {
            spaced.push_str(if i % 2 == 0 { " // gap\n" } else { "\t\r\n" });
        }
    }
    assert_eq!(lex(&spaced), plain);
    assert_eq!(lex("12 ab"), lex("12ab"));
    assert_eq!(lex("fn //x //y\nm"), lex("fn //x\nm"));
}
