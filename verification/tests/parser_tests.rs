use rumil::expr::Expr;
use rumil::lexer::scan;
use rumil::parser::{parse, ParseError, Parser};
use rumil::token::{Token, TokenType};

fn file() -> String {
    "test.rml".to_string()
}

fn tokens_of(source: &str) -> Vec<Token> {
    scan(source.to_string(), &file()).unwrap()
}

fn parsed(source: &str) -> Expr {
    parse(tokens_of(source), &file()).unwrap()
}

/// The literal text of an expression that must be a Literal node.
fn literal_text(e: &Expr) -> &str {
    match e {
        Expr::Literal(l) => l.value.value.as_str(),
        _ => panic!("expected a literal node"),
    }
}

#[test]
fn single_literal() {
    let e = parsed("42");
    assert_eq!(literal_text(&e), "42");
}

#[test]
fn trailing_tokens_are_left_unread() {
    // The parser consumes one top-level expression
    let e = parsed("1 2");
    assert_eq!(literal_text(&e), "1");
}

#[test]
fn multiplication_binds_tighter_than_addition() {
    // 1 + 2 * 3 parses as Binary(1, +, Binary(2, *, 3))
    let e = parsed("1 + 2 * 3");
    match e {
        Expr::Binary(add) => {
            assert_eq!(add.operator.token_type, TokenType::Plus);
            assert_eq!(literal_text(&add.left), "1");
            match add.right {
                Expr::Binary(mul) => {
                    assert_eq!(mul.operator.token_type, TokenType::Star);
                    assert_eq!(literal_text(&mul.left), "2");
                    assert_eq!(literal_text(&mul.right), "3");
                },
                _ => panic!("expected the multiplication on the right"),
            }
        },
        _ => panic!("expected an addition at the top"),
    }
}

#[test]
fn subtraction_is_left_associative() {
    // 1 - 2 - 3 parses as Binary(Binary(1, -, 2), -, 3)
    let e = parsed("1 - 2 - 3");
    match e {
        Expr::Binary(outer) => {
            assert_eq!(outer.operator.token_type, TokenType::Minus);
            assert_eq!(literal_text(&outer.right), "3");
            match outer.left {
                Expr::Binary(inner) => {
                    assert_eq!(inner.operator.token_type, TokenType::Minus);
                    assert_eq!(literal_text(&inner.left), "1");
                    assert_eq!(literal_text(&inner.right), "2");
                },
                _ => panic!("expected the first subtraction on the left"),
            }
        },
        _ => panic!("expected a subtraction at the top"),
    }
}

#[test]
fn grouping_overrides_precedence() {
    // (1 + 2) * 3: the addition sits inside a Grouping that is the left
    // operand of the multiplication
    let e = parsed("(1 + 2) * 3");
    match e {
        Expr::Binary(mul) => {
            assert_eq!(mul.operator.token_type, TokenType::Star);
            assert_eq!(literal_text(&mul.right), "3");
            match mul.left {
                Expr::Grouping(g) => match g.expr {
                    Expr::Binary(add) => {
                        assert_eq!(add.operator.token_type, TokenType::Plus);
                        assert_eq!(literal_text(&add.left), "1");
                        assert_eq!(literal_text(&add.right), "2");
                    },
                    _ => panic!("expected the addition inside the grouping"),
                },
                _ => panic!("expected a grouping on the left"),
            }
        },
        _ => panic!("expected a multiplication at the top"),
    }
}

#[test]
fn unary_operators_nest_right() {
    let e = parsed("- - 1");
    match e {
        Expr::Unary(outer) => {
            assert_eq!(outer.operator.token_type, TokenType::Minus);
            match outer.right {
                Expr::Unary(inner) => {
                    assert_eq!(inner.operator.token_type, TokenType::Minus);
                    assert_eq!(literal_text(&inner.right), "1");
                },
                _ => panic!("expected a nested unary"),
            }
        },
        _ => panic!("expected a unary at the top"),
    }
}

#[test]
fn equality_sits_above_comparison() {
    // 1 < 2 == 3 >= 4 parses as Binary(Binary(1,<,2), ==, Binary(3,>=,4))
    let e = parsed("1 < 2 == 3 >= 4");
    match e {
        Expr::Binary(eq) => {
            assert_eq!(eq.operator.token_type, TokenType::EqualsEquals);
            match (eq.left, eq.right) {
                (Expr::Binary(l), Expr::Binary(r)) => {
                    assert_eq!(l.operator.token_type, TokenType::LeftAngle);
                    assert_eq!(r.operator.token_type, TokenType::GreaterOrEquals);
                },
                _ => panic!("expected comparisons on both sides"),
            }
        },
        _ => panic!("expected the equality at the top"),
    }
}

#[test]
fn literal_kinds_accepted_by_primary() {
    for src in ["_", "1", "1.5", "'a'", "\"s\"", "`f`"] {
        assert!(parse(tokens_of(src), &file()).is_ok(), "source {:?}", src);
    }
}

#[test]
fn unfinished_group_fails_to_parse() {
    let r = parse(tokens_of("(1 +"), &file());
    assert_eq!(r.unwrap_err(), "syntax error encountered in test.rml");
}

#[test]
fn lone_closing_paren_is_an_unexpected_token() {
    let r = parse(tokens_of(")"), &file());
    assert_eq!(r.unwrap_err(), "syntax error encountered in test.rml");
    // The structured detail distinguishes the failure
    let mut p = Parser::new(tokens_of(")"));
    assert!(matches!(p.expression(), Err(ParseError::UnexpectedToken)));
}

#[test]
fn unclosed_group_reports_the_missing_paren() {
    let mut p = Parser::new(tokens_of("(1"));
    assert!(matches!(p.expression(), Err(ParseError::MissingRightParen)));
}

#[test]
fn empty_token_sequence_fails_to_parse() {
    let r = parse(Vec::new(), &file());
    assert_eq!(r.unwrap_err(), "syntax error encountered in test.rml");
}

#[test]
fn end_of_file_marker_stops_the_parser() {
    let eof = Token::new("".to_string(), TokenType::EOF, 1, 1);
    let r = parse(vec![eof], &file());
    assert!(r.is_err());
}

#[test]
fn identifier_is_not_a_primary_expression() {
    // The expression grammar has no variable references yet
    let r = parse(tokens_of("x"), &file());
    assert!(r.is_err());
}
