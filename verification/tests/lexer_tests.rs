use rumil::lexer::{is_valid_char, scan};
use rumil::token::{parse_op, Token, TokenType};

fn file() -> String {
    "test.rml".to_string()
}

fn kinds(tokens: &Vec<Token>) -> Vec<TokenType> {
    tokens.iter().map(|t| t.token_type).collect()
}

fn texts(tokens: &Vec<Token>) -> Vec<String> {
    tokens.iter().map(|t| t.value.clone()).collect()
}

#[test]
fn empty_source_is_an_error() {
    let r = scan("".to_string(), &file());
    assert_eq!(r.unwrap_err(), "No source code found in test.rml");
}

#[test]
fn whitespace_only_source_is_an_error() {
    let r = scan("  \t\r\n  \n".to_string(), &file());
    assert_eq!(r.unwrap_err(), "No source code found in test.rml");
}

#[test]
fn simple_expression_tokens() {
    let tokens = scan("a + b".to_string(), &file()).unwrap();
    assert_eq!(
        kinds(&tokens),
        vec![TokenType::Identifier, TokenType::Plus, TokenType::Identifier]
    );
    assert_eq!(texts(&tokens), vec!["a", "+", "b"]);
    // No end-of-file marker in the returned sequence
    assert!(tokens.iter().all(|t| t.token_type != TokenType::EOF));
    // Concatenating the lexemes reconstructs the input without its whitespace
    let joined: String = texts(&tokens).concat();
    assert_eq!(joined, "a+b");
    // 1-based start positions
    assert_eq!((tokens[0].line, tokens[0].col), (1, 1));
    assert_eq!((tokens[1].line, tokens[1].col), (1, 3));
    assert_eq!((tokens[2].line, tokens[2].col), (1, 5));
}

#[test]
fn longest_match_wins() {
    let tokens = scan(">>=".to_string(), &file()).unwrap();
    assert_eq!(kinds(&tokens), vec![TokenType::RightShiftEquals]);
    assert_eq!(tokens[0].value, ">>=");

    let tokens = scan(">> =".to_string(), &file()).unwrap();
    assert_eq!(kinds(&tokens), vec![TokenType::RightShift, TokenType::Equals]);

    let tokens = scan("<<= << <= <- <".to_string(), &file()).unwrap();
    assert_eq!(
        kinds(&tokens),
        vec![
            TokenType::LeftShiftEquals,
            TokenType::LeftShift,
            TokenType::LessOrEquals,
            TokenType::LeftArrow,
            TokenType::LeftAngle,
        ]
    );

    let tokens = scan("..? .? .".to_string(), &file()).unwrap();
    assert_eq!(
        kinds(&tokens),
        vec![TokenType::DotDotQuestion, TokenType::DotQuestion, TokenType::Dot]
    );
}

#[test]
fn operator_table() {
    assert_eq!(parse_op(">>="), Some(TokenType::RightShiftEquals));
    assert_eq!(parse_op("~="), Some(TokenType::TildeEquals));
    assert_eq!(parse_op("_"), Some(TokenType::Underscore));
    assert_eq!(parse_op("=>"), Some(TokenType::EqualsArrow));
    assert_eq!(parse_op("ab"), None);
    assert_eq!(parse_op(""), None);
    assert_eq!(parse_op("<<=="), None);
}

#[test]
fn escaped_quote_stays_inside_string() {
    // "a\"b" lexes as one String token with raw content a\"b
    let tokens = scan("\"a\\\"b\"".to_string(), &file()).unwrap();
    assert_eq!(kinds(&tokens), vec![TokenType::String]);
    assert_eq!(tokens[0].value, "a\\\"b");
}

#[test]
fn escaped_backslash_before_closer() {
    // "a\\" closes: the backslash before the quote is itself escaped
    let tokens = scan("\"a\\\\\"".to_string(), &file()).unwrap();
    assert_eq!(kinds(&tokens), vec![TokenType::String]);
    assert_eq!(tokens[0].value, "a\\\\");
}

#[test]
fn unclosed_quote_is_an_error() {
    let r = scan("\"abc".to_string(), &file());
    assert_eq!(r.unwrap_err(), "1 syntax error encountered in test.rml");
}

#[test]
fn lone_quote_at_end_is_an_error() {
    let r = scan("\"".to_string(), &file());
    assert_eq!(r.unwrap_err(), "1 syntax error encountered in test.rml");
}

#[test]
fn quote_kinds() {
    let tokens = scan("\"s\" 'c' `f`".to_string(), &file()).unwrap();
    assert_eq!(
        kinds(&tokens),
        vec![TokenType::String, TokenType::Char, TokenType::FormString]
    );
    assert_eq!(texts(&tokens), vec!["s", "c", "f"]);
    // Column back-computed to the opening quote
    assert_eq!((tokens[0].line, tokens[0].col), (1, 1));
    assert_eq!((tokens[1].line, tokens[1].col), (1, 5));
    assert_eq!((tokens[2].line, tokens[2].col), (1, 9));
}

#[test]
fn char_literal_validation() {
    assert!(scan("'a'".to_string(), &file()).is_ok());
    assert!(scan("'\\n'".to_string(), &file()).is_ok());
    assert!(scan("'\\u041'".to_string(), &file()).is_ok());
    assert!(scan("'\\u0'".to_string(), &file()).is_ok());
    assert!(scan("'\\uABCDEF01'".to_string(), &file()).is_ok());
    // Not in the escape table and not a \u form
    assert_eq!(
        scan("'\\q'".to_string(), &file()).unwrap_err(),
        "1 syntax error encountered in test.rml"
    );
    // Braces are not hexadecimal digits
    assert!(scan("'\\u{1}'".to_string(), &file()).is_err());
    // \u needs at least one and at most eight hexadecimal digits
    assert!(scan("'\\u'".to_string(), &file()).is_err());
    assert!(scan("'\\uABCDEF012'".to_string(), &file()).is_err());
    // An empty char literal is invalid
    assert!(scan("''".to_string(), &file()).is_err());
    // A char that needs escaping cannot stand bare
    assert!(scan("'\\'".to_string(), &file()).is_err());
}

#[test]
fn char_literal_validity_table() {
    let v = |s: &str| is_valid_char(&s.chars().collect::<Vec<char>>());
    assert!(v("a"));
    assert!(v("Z"));
    assert!(v("\\n"));
    assert!(v("\\\\"));
    assert!(v("\\0"));
    assert!(v("\\u0"));
    assert!(v("\\uABCDEF01"));
    assert!(!v(""));
    assert!(!v("ab"));
    assert!(!v("\\q"));
    assert!(!v("\\"));
    assert!(!v("\t"));
    assert!(!v("\\u"));
    assert!(!v("\\uABCDEF012"));
    assert!(!v("\\u12G"));
}

#[test]
fn multiline_literal_advances_line_and_resets_column() {
    let tokens = scan("`ab\ncd` x".to_string(), &file()).unwrap();
    assert_eq!(kinds(&tokens), vec![TokenType::FormString, TokenType::Identifier]);
    assert_eq!(tokens[0].value, "ab\ncd");
    assert_eq!((tokens[0].line, tokens[0].col), (1, 1));
    // The token after the literal is on the next line, counted from column 0
    assert_eq!(tokens[1].value, "x");
    assert_eq!((tokens[1].line, tokens[1].col), (2, 1));
}

#[test]
fn numbers_integer_and_float() {
    let tokens = scan("12 1.5 1. 0.25".to_string(), &file()).unwrap();
    assert_eq!(
        kinds(&tokens),
        vec![
            TokenType::Int,
            TokenType::Float,
            TokenType::Int,
            TokenType::Dot,
            TokenType::Float,
        ]
    );
    assert_eq!(texts(&tokens), vec!["12", "1.5", "1", ".", "0.25"]);
}

#[test]
fn wildcard_versus_identifier() {
    let tokens = scan("_ _x x_ x1".to_string(), &file()).unwrap();
    assert_eq!(
        kinds(&tokens),
        vec![
            TokenType::Underscore,
            TokenType::Identifier,
            TokenType::Identifier,
            TokenType::Identifier,
        ]
    );
    assert_eq!(texts(&tokens), vec!["_", "_x", "x_", "x1"]);
}

#[test]
fn comment_runs_to_end_of_line() {
    let tokens = scan("; note\nx".to_string(), &file()).unwrap();
    assert_eq!(kinds(&tokens), vec![TokenType::Comment, TokenType::Identifier]);
    assert_eq!(tokens[0].value, "; note");
    assert_eq!((tokens[1].line, tokens[1].col), (2, 1));
}

#[test]
fn unrecognized_character_is_counted_and_skipped() {
    let r = scan("a \\ b".to_string(), &file());
    assert_eq!(r.unwrap_err(), "1 syntax error encountered in test.rml");
}

#[test]
fn several_errors_use_the_plural_message() {
    let r = scan("\\ \\ x".to_string(), &file());
    assert_eq!(r.unwrap_err(), "2 syntax errors encountered in test.rml");
}

#[test]
fn many_errors_print_a_multi_digit_count() {
    let r = scan("\\\\\\\\\\\\ \\\\\\\\\\\\ x".to_string(), &file());
    assert_eq!(r.unwrap_err(), "12 syntax errors encountered in test.rml");
}

#[test]
fn token_new_records_fields() {
    let t = Token::new("abc".to_string(), TokenType::Identifier, 3, 7);
    assert_eq!(t.token_type, TokenType::Identifier);
    assert_eq!(t.value, "abc");
    assert_eq!(t.line, 3);
    assert_eq!(t.col, 7);
    let u = t.clone();
    assert_eq!(u.value, "abc");
    assert_eq!((u.line, u.col), (3, 7));
}

#[test]
fn newline_counting_inside_literal_only() {
    let tokens = scan("`\na\nb` y".to_string(), &file()).unwrap();
    assert_eq!(tokens[0].value, "\na\nb");
    assert_eq!(tokens[1].value, "y");
    assert_eq!(tokens[1].line, 3);
}
