use lox_front::{ParseError, Parser, ScanError, TokenKind, TokenType};

fn parse(src: &str) -> String {
    let mut parser = Parser::new(src);
    match parser.parse_expression() {
        Ok(t) => t.render(),
        Err(e) => panic!("parse failed: {:?}", e),
    }
}

#[test]
fn not_true_renders_unary() {
    assert_eq!(parse("!true"), "(! true)");
}

#[test]
fn literals_render() {
    assert_eq!(parse("true"), "true");
    assert_eq!(parse("false"), "false");
    assert_eq!(parse("nil"), "nil");
    assert_eq!(parse("42"), "42.0");
    assert_eq!(parse("3.25"), "3.25");
    assert_eq!(parse("\"hello world\""), "hello world");
}

#[test]
fn nested_prefix_operators() {
    assert_eq!(parse("!!false"), "(! (! false))");
    assert_eq!(parse("-\"hi\""), "(- hi)");
    assert_eq!(parse("-(- 1)"), "(- (group (- 1.0)))");
}

#[test]
fn grouping_leaves_closing_parenthesis() {
    let mut parser = Parser::new("(12)");
    let t = parser.parse_expression().unwrap();
    assert_eq!(t.render(), "(group 12.0)");
    let rest = parser.scanner.next().unwrap().unwrap();
    assert_eq!(rest.kind, TokenKind::RightParen);
}

#[test]
fn string_node_keeps_lexeme() {
    let mut parser = Parser::new("\"q\"");
    match parser.parse_expression().unwrap() {
        TokenType::String(s) => assert_eq!(s, "\"q\""),
        other => panic!("unexpected {:?}", other),
    }
}

#[test]
fn end_of_input_is_an_error() {
    assert!(matches!(Parser::new("").parse_expression(), Err(ParseError::EndOfInput)));
    assert!(matches!(Parser::new("( ").parse_expression(), Err(ParseError::EndOfInput)));
    assert!(matches!(Parser::new("// nothing").parse_expression(), Err(ParseError::EndOfInput)));
}

#[test]
fn scan_error_passes_through() {
    let mut parser = Parser::new("!\n@");
    match parser.parse_expression() {
        Err(ParseError::Scan(e @ ScanError::UnexpectedCharacter(_))) => {
            assert_eq!(e.line(), 2);
            assert_eq!(e.render(), "[line 2] Error: Unexpected character: @");
        }
        other => panic!("unexpected {:?}", other),
    }
}

#[test]
fn unsupported_token_is_an_error() {
    let mut parser = Parser::new("+ 1");
    match parser.parse_expression() {
        Err(ParseError::Unsupported(t)) => {
            assert_eq!(t.kind, TokenKind::Plus);
            assert_eq!(t.lexeme, "+");
        }
        other => panic!("unexpected {:?}", other),
    }
    let next = parser.parse_expression().unwrap();
    assert_eq!(next.render(), "1.0");
    assert!(matches!(Parser::new("x").parse_expression(), Err(ParseError::Unsupported(_))));
}

#[test]
fn rendering_a_tree_twice_is_the_same() {
    let mut parser = Parser::new("-(!nil");
    let t = parser.parse_expression().unwrap();
    let a = t.render();
    assert_eq!(a, "(- (group (! nil)))");
    assert_eq!(t.render(), a);
}
