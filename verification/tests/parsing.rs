use jel::parser::ParseErrorKind;
use jel::parser::Parser;
use jel::parser::Token;

fn parse_ok(src: &str) -> Vec<Token> {
    let mut parser = Parser::new(src);
    parser.parse();
    assert!(parser.error.is_none(), "unexpected syntax error");
    parser.output
}

fn token_eq(a: &Token, b: &Token) -> bool {
    match (a, b) {
        (Token::String(x), Token::String(y)) => x == y,
        (Token::PlaceHolder(x), Token::PlaceHolder(y)) => x == y,
        (Token::Command(x), Token::Command(y)) => {
            x.name == y.name && x.arguments.len() == y.arguments.len() && x
                .arguments
                .iter()
                .zip(y.arguments.iter())
                .all(|(p, q)| token_eq(p, q))
        },
        _ => false,
    }
}

fn tokens_eq(a: &[Token], b: &[Token]) -> bool {
    a.len() == b.len() && a.iter().zip(b.iter()).all(|(p, q)| token_eq(p, q))
}

#[test]
fn parse_simple_command() {
    let out = parse_ok("print(a b)");
    assert_eq!(out.len(), 1);
    match &out[0] {
        Token::Command(c) => {
            assert_eq!(c.name, "print");
            assert_eq!(c.arguments.len(), 2);
            match &c.arguments[0] {
                Token::String(s) => assert_eq!(s, "a"),
                _ => panic!("expected a bare word"),
            }
            match &c.arguments[1] {
                Token::String(s) => assert_eq!(s, "b"),
                _ => panic!("expected a bare word"),
            }
        },
        _ => panic!("expected a command"),
    }
}

#[test]
fn parse_nested_commands() {
    let out = parse_ok("do(print(\"x\") get(y))");
    assert_eq!(out.len(), 1);
    match &out[0] {
        Token::Command(c) => {
            assert_eq!(c.name, "do");
            assert_eq!(c.arguments.len(), 2);
            match &c.arguments[0] {
                Token::Command(inner) => {
                    assert_eq!(inner.name, "print");
                    assert_eq!(inner.arguments.len(), 1);
                    match &inner.arguments[0] {
                        Token::String(s) => assert_eq!(s, "x"),
                        _ => panic!("expected a string literal"),
                    }
                },
                _ => panic!("expected an inner command"),
            }
        },
        _ => panic!("expected a command"),
    }
}

#[test]
fn parse_string_newline_escape() {
    let out = parse_ok("print(\"a\\nb\")");
    match &out[0] {
        Token::Command(c) => match &c.arguments[0] {
            Token::String(s) => assert_eq!(s, "a\nb"),
            _ => panic!("expected a string literal"),
        },
        _ => panic!("expected a command"),
    }
}

#[test]
fn parse_unterminated_string_closes_at_newline() {
    let out = parse_ok("print(\"abc\n)");
    match &out[0] {
        Token::Command(c) => {
            assert_eq!(c.arguments.len(), 1);
            match &c.arguments[0] {
                Token::String(s) => assert_eq!(s, "abc"),
                _ => panic!("expected a string literal"),
            }
        },
        _ => panic!("expected a command"),
    }
}

#[test]
fn parse_comment_is_discarded() {
    let out = parse_ok("# a comment with (parens\nprint(x)");
    assert_eq!(out.len(), 1);
    match &out[0] {
        Token::Command(c) => assert_eq!(c.name, "print"),
        _ => panic!("expected a command"),
    }
}

#[test]
fn parse_name_is_trimmed() {
    let out = parse_ok("\tspaced\t(x)");
    match &out[0] {
        Token::Command(c) => assert_eq!(c.name, "spaced"),
        _ => panic!("expected a command"),
    }
}

#[test]
fn parse_unmatched_close_is_fatal() {
    let mut parser = Parser::new("print(x))");
    parser.parse();
    let err = parser.error.expect("expected a syntax error");
    assert_eq!(err.kind, ParseErrorKind::UnmatchedClose);
    assert_eq!(err.line, 1);
}

#[test]
fn parse_stray_text_is_dropped() {
    let out = parse_ok("loose words print(x) more");
    assert_eq!(out.len(), 1);
    match &out[0] {
        Token::Command(c) => assert_eq!(c.name, "print"),
        _ => panic!("expected a command"),
    }
}

#[test]
fn round_trip_structure_preserved() {
    // the same program, rendered back to nested call form by hand, parses
    // to the identical command structure
    let a = parse_ok("do(let(x \"5\") print(get(x) lit))");
    let b = parse_ok(" do( let( x \"5\" )  print( get( x ) lit ) ) ");
    assert!(tokens_eq(&a, &b));
}

#[test]
fn round_trip_through_serializer() {
    // parse, render back to nested call form, parse again: same structure
    let first = parse_ok("do(let(x \"5\") print(get(x) lit) if(1 a b))");
    let rendered = jel::parser::serialize_program(&first);
    let second = parse_ok(&rendered);
    assert!(tokens_eq(&first, &second), "structure changed across the round trip");
}

#[test]
fn parse_empty_source() {
    let out = parse_ok("");
    assert_eq!(out.len(), 0);
}

#[test]
fn parse_empty_name_is_concat_command() {
    let out = parse_ok("(a b)");
    match &out[0] {
        Token::Command(c) => {
            assert_eq!(c.name, "");
            assert_eq!(c.arguments.len(), 2);
        },
        _ => panic!("expected a command"),
    }
}
