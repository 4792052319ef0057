use lox_front::token::number_literal_text;
use lox_front::{ScanError, Scanner, SingleTokenError, Token, TokenKind, UnterminatedStringError};

fn scan_all(src: &str) -> Vec<Result<Token, ScanError<'_>>> {
    let mut scanner = Scanner::new(src);
    let mut out = Vec::new();
    while let Some(item) = scanner.next() {
        out.push(item);
    }
    out
}

fn tokens(src: &str) -> Vec<Token> {
    scan_all(src).into_iter().map(|r| r.expect("no scan error")).collect()
}

fn kinds(src: &str) -> Vec<TokenKind> {
    tokens(src).iter().map(|t| t.kind).collect()
}

fn listing(src: &str) -> Vec<String> {
    scan_all(src)
        .iter()
        .map(|r| match r {
            Ok(t) => t.render(),
            Err(e) => e.render(),
        })
        .collect()
}

#[test]
fn integer_renders_with_fraction() {
    assert_eq!(listing("123"), vec!["NUMBER 123 123.0"]);
}

#[test]
fn decimal_renders_as_written() {
    assert_eq!(listing("123.456"), vec!["NUMBER 123.456 123.456"]);
}

#[test]
fn string_literal_keeps_quotes_in_lexeme() {
    let toks = tokens("\"foo baz\"");
    assert_eq!(toks.len(), 1);
    assert_eq!(toks[0].kind, TokenKind::String);
    assert_eq!(toks[0].lexeme, "\"foo baz\"");
    assert_eq!(toks[0].offset, 0);
    assert_eq!(toks[0].render(), "STRING \"foo baz\" foo baz");
}

#[test]
fn unterminated_string_is_one_error_and_ends_scan() {
    let items = scan_all("\"foo");
    assert_eq!(items.len(), 1);
    match &items[0] {
        Err(ScanError::UnterminatedString(e)) => {
            assert_eq!(e.source_code_idx, 0);
            assert_eq!(e.line(), 1);
            assert_eq!(e.render(), "[line 1] Error: Unterminated string.");
        }
        other => panic!("unexpected {:?}", other),
    }
}

#[test]
fn unterminated_string_swallows_later_tokens() {
    let items = scan_all("+ \"abc\n+ 1");
    assert_eq!(items.len(), 2);
    assert!(matches!(items[0], Ok(Token { kind: TokenKind::Plus, .. })));
    assert!(matches!(items[1], Err(ScanError::UnterminatedString(_))));
}

#[test]
fn scanning_is_grammar_agnostic() {
    let toks = tokens("(72 +5)");
    let ks: Vec<TokenKind> = toks.iter().map(|t| t.kind).collect();
    assert_eq!(
        ks,
        vec![
            TokenKind::LeftParen,
            TokenKind::Number,
            TokenKind::Plus,
            TokenKind::Number,
            TokenKind::RightParen
        ]
    );
    assert_eq!(toks[1].lexeme, "72");
    assert_eq!(toks[3].lexeme, "5");
    assert_eq!(toks[3].offset, 5);
}

#[test]
fn unexpected_character_report_and_resume() {
    let items = scan_all("@");
    assert_eq!(items.len(), 1);
    match &items[0] {
        Err(e @ ScanError::UnexpectedCharacter(inner)) => {
            assert_eq!(inner.token, '@');
            assert_eq!(e.render(), "[line 1] Error: Unexpected character: @");
        }
        other => panic!("unexpected {:?}", other),
    }
    let after = listing("@(");
    assert_eq!(
        after,
        vec!["[line 1] Error: Unexpected character: @", "LEFT_PAREN ( null"]
    );
}

#[test]
fn rendering_leaves_scanner_alone() {
    let mut scanner = Scanner::new("12 34");
    let first = scanner.next().unwrap().unwrap();
    let a = first.render();
    let b = first.render();
    assert_eq!(a, b);
    assert_eq!(a, "NUMBER 12 12.0");
    let second = scanner.next().unwrap().unwrap();
    assert_eq!(second.lexeme, "34");
    assert_eq!(first.render(), a);
}

#[test]
fn operators_take_one_following_equals() {
    assert_eq!(
        kinds("! != < <= > >= = =="),
        vec![
            TokenKind::Bang,
            TokenKind::BangEqual,
            TokenKind::Less,
            TokenKind::LessEqual,
            TokenKind::Greater,
            TokenKind::GreaterEqual,
            TokenKind::Equal,
            TokenKind::EqualEqual
        ]
    );
    let toks = tokens("===");
    assert_eq!(toks.len(), 2);
    assert_eq!(toks[0].lexeme, "==");
    assert_eq!(toks[1].lexeme, "=");
    let toks = tokens("!!=");
    assert_eq!(toks[0].lexeme, "!");
    assert_eq!(toks[1].lexeme, "!=");
}

#[test]
fn punctuation_is_one_character() {
    assert_eq!(
        listing("(){}*.,+-;/"),
        vec![
            "LEFT_PAREN ( null",
            "RIGHT_PAREN ) null",
            "LEFT_BRACE { null",
            "RIGHT_BRACE } null",
            "STAR * null",
            "DOT . null",
            "COMMA , null",
            "PLUS + null",
            "MINUS - null",
            "SEMICOLON ; null",
            "SLASH / null"
        ]
    );
}

#[test]
fn comment_hides_rest_of_line() {
    let toks = tokens("1 // ( + 2\n3");
    let lex: Vec<&str> = toks.iter().map(|t| t.lexeme.as_str()).collect();
    assert_eq!(lex, vec!["1", "3"]);
    assert_eq!(toks[1].offset, 11);
    assert!(tokens("// only a comment").is_empty());
    assert_eq!(kinds("///\n/"), vec![TokenKind::Slash]);
}

#[test]
fn comment_marker_inside_string_is_text() {
    let toks = tokens("\"a//b\" c");
    assert_eq!(toks.len(), 2);
    assert_eq!(toks[0].lexeme, "\"a//b\"");
    assert_eq!(toks[1].kind, TokenKind::Identifier);
}

#[test]
fn second_dot_ends_number() {
    let toks = tokens("1.2.3");
    let lex: Vec<&str> = toks.iter().map(|t| t.lexeme.as_str()).collect();
    assert_eq!(lex, vec!["1.2", ".", "3"]);
    assert_eq!(toks[1].kind, TokenKind::Dot);
}

#[test]
fn number_values_drop_superfluous_zeros() {
    assert_eq!(listing("007"), vec!["NUMBER 007 7.0"]);
    assert_eq!(listing("1.50"), vec!["NUMBER 1.50 1.5"]);
    assert_eq!(listing("123."), vec!["NUMBER 123. 123.0"]);
    assert_eq!(listing("0.0"), vec!["NUMBER 0.0 0.0"]);
    assert_eq!(number_literal_text("10.010"), "10.01");
}

#[test]
fn keywords_and_identifiers() {
    assert_eq!(
        kinds("and class else false for fun if nil or print return super this true var while"),
        vec![
            TokenKind::And,
            TokenKind::Class,
            TokenKind::Else,
            TokenKind::False,
            TokenKind::For,
            TokenKind::Fun,
            TokenKind::If,
            TokenKind::Nil,
            TokenKind::Or,
            TokenKind::Print,
            TokenKind::Return,
            TokenKind::Super,
            TokenKind::This,
            TokenKind::True,
            TokenKind::Var,
            TokenKind::While
        ]
    );
    assert_eq!(listing("andy _x1 While"), vec![
        "IDENTIFIER andy null",
        "IDENTIFIER _x1 null",
        "IDENTIFIER While null"
    ]);
    assert_eq!(listing("var"), vec!["VAR var null"]);
}

#[test]
fn white_space_is_skipped() {
    assert!(scan_all(" \t\r\n \u{a0}").is_empty());
    assert!(scan_all("").is_empty());
    let toks = tokens("\t+\r\n-");
    assert_eq!(toks[0].offset, 1);
    assert_eq!(toks[1].offset, 4);
}

#[test]
fn error_lines_count_line_breaks() {
    let items = scan_all("+\n\n  @\n\"x");
    match &items[1] {
        Err(ScanError::UnexpectedCharacter(e)) => {
            assert_eq!(e.source_code_idx, 5);
            assert_eq!(e.line(), 3);
        }
        other => panic!("unexpected {:?}", other),
    }
    match &items[2] {
        Err(e @ ScanError::UnterminatedString(_)) => {
            assert_eq!(e.line(), 4);
            assert_eq!(e.render(), "[line 4] Error: Unterminated string.");
        }
        other => panic!("unexpected {:?}", other),
    }
}

#[test]
fn line_numbers_above_nine() {
    let src = format!("{}#", "\n".repeat(12));
    let items = scan_all(&src);
    match &items[0] {
        Err(e) => assert_eq!(e.render(), "[line 13] Error: Unexpected character: #"),
        Ok(t) => panic!("unexpected {:?}", t),
    }
}

#[test]
fn errors_built_by_hand_compute_lines() {
    let src = "a\nb\nc";
    let e = SingleTokenError { token: 'c', source_code: src, source_code_idx: 4 };
    assert_eq!(e.line(), 3);
    let u = UnterminatedStringError { source_code: src, source_code_idx: 2 };
    assert_eq!(u.line(), 2);
}

#[test]
fn non_ascii_character_is_unexpected() {
    let items = scan_all("é1");
    match &items[0] {
        Err(e @ ScanError::UnexpectedCharacter(inner)) => {
            assert_eq!(inner.token, 'é');
            assert_eq!(e.render(), "[line 1] Error: Unexpected character: é");
        }
        other => panic!("unexpected {:?}", other),
    }
    let toks: Vec<&Token> = items[1..].iter().map(|r| r.as_ref().unwrap()).collect();
    assert_eq!(toks[0].offset, 1);
    assert_eq!(toks[0].lexeme, "1");
}

#[test]
fn string_over_lines_and_empty_string() {
    assert_eq!(listing("\"a\nb\""), vec!["STRING \"a\nb\" a\nb"]);
    assert_eq!(listing("\"\""), vec!["STRING \"\" "]);
}
