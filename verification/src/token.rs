//! Token kinds, the token record, and the operator-spelling table.
use vstd::prelude::*;

verus! {

/// The closed set of token kinds the lexer can produce.
#[derive(Clone, Copy, Debug, PartialEq, Eq, Structural)]
pub enum TokenType {
    // Single-char tokens
    Hash,         // #
    Dollar,       // $
    LeftParen,    // (
    RightParen,   // )
    LeftBracket,  // [
    RightBracket, // ]
    LeftBrace,    // {
    RightBrace,   // }
    Comma,        // ,
    Question,     // ?
    At,           // @
    Underscore,   // _
    // Single or double-char tokens by initial char
    Bang,          // !
    BangEquals,    // !=
    Percent,       // %
    PercentEquals, // %=
    And,           // &
    AndAnd,        // &&
    AndEquals,     // &=
    Star,          // *
    StarEquals,    // *=
    Plus,          // +
    PlusEquals,    // +=
    Minus,         // -
    MinusEquals,   // -=
    RightArrow,    // ->
    Slash,         // /
    SlashEquals,   // /=
    Colon,         // :
    ColonEquals,   // :=
    ColonColon,    // ::
    Equals,        // =
    EqualsEquals,  // ==
    EqualsArrow,   // =>
    Caret,         // ^
    CaretEquals,   // ^=
    Pipe,          // |
    PipePipe,      // ||
    Tilde,         // ~
    TildeEquals,   // ~=
    // Single, double, or triple-char tokens by initial char
    LeftAngle,        // <
    LeftShift,        // <<
    LeftArrow,        // <-
    LessOrEquals,     // <=
    LeftShiftEquals,  // <<=
    RightAngle,       // >
    GreaterOrEquals,  // >=
    RightShift,       // >>
    RightShiftEquals, // >>=
    Dot,              // .
    DotQuestion,      // .?
    DotDotQuestion,   // ..?
    // Literals
    Identifier, // begins with a-zA-Z
    String,     // begins with "
    FormString, // begins with `
    Char,       // begins with '
    Int,        // sequence of only 0-9
    Float,      // sequence of only 0-9 and exactly 1 non-initial, non-final .
    // Other
    Comment, // ; until end of line
    EOF,     // end of file
}

/// The kind named by a one-character operator spelling, if any.
pub open spec fn op_token_1(c: char) -> Option<TokenType> {
    if c == '#' {
        Some(TokenType::Hash)
    } else if c == '$' {
        Some(TokenType::Dollar)
    } else if c == '(' {
        Some(TokenType::LeftParen)
    } else if c == ')' {
        Some(TokenType::RightParen)
    } else if c == '[' {
        Some(TokenType::LeftBracket)
    } else if c == ']' {
        Some(TokenType::RightBracket)
    } else if c == '{' {
        Some(TokenType::LeftBrace)
    } else if c == '}' {
        Some(TokenType::RightBrace)
    } else if c == ',' {
        Some(TokenType::Comma)
    } else if c == '?' {
        Some(TokenType::Question)
    } else if c == '@' {
        Some(TokenType::At)
    } else if c == '_' {
        Some(TokenType::Underscore)
    } else if c == '~' {
        Some(TokenType::Tilde)
    } else if c == '|' {
        Some(TokenType::Pipe)
    } else if c == '^' {
        Some(TokenType::Caret)
    } else if c == '=' {
        Some(TokenType::Equals)
    } else if c == ':' {
        Some(TokenType::Colon)
    } else if c == '/' {
        Some(TokenType::Slash)
    } else if c == '-' {
        Some(TokenType::Minus)
    } else if c == '+' {
        Some(TokenType::Plus)
    } else if c == '*' {
        Some(TokenType::Star)
    } else if c == '&' {
        Some(TokenType::And)
    } else if c == '%' {
        Some(TokenType::Percent)
    } else if c == '!' {
        Some(TokenType::Bang)
    } else if c == '<' {
        Some(TokenType::LeftAngle)
    } else if c == '>' {
        Some(TokenType::RightAngle)
    } else if c == '.' {
        Some(TokenType::Dot)
    } else {
        None
    }
}

/// The kind named by a two-character operator spelling, if any.
pub open spec fn op_token_2(c0: char, c1: char) -> Option<TokenType> {
    if c0 == '~' && c1 == '=' {
        Some(TokenType::TildeEquals)
    } else if c0 == '|' && c1 == '|' {
        Some(TokenType::PipePipe)
    } else if c0 == '^' && c1 == '=' {
        Some(TokenType::CaretEquals)
    } else if c0 == '=' && c1 == '>' {
        Some(TokenType::EqualsArrow)
    } else if c0 == '=' && c1 == '=' {
        Some(TokenType::EqualsEquals)
    } else if c0 == ':' && c1 == '=' {
        Some(TokenType::ColonEquals)
    } else if c0 == ':' && c1 == ':' {
        Some(TokenType::ColonColon)
    } else if c0 == '/' && c1 == '=' {
        Some(TokenType::SlashEquals)
    } else if c0 == '-' && c1 == '>' {
        Some(TokenType::RightArrow)
    } else if c0 == '-' && c1 == '=' {
        Some(TokenType::MinusEquals)
    } else if c0 == '+' && c1 == '=' {
        Some(TokenType::PlusEquals)
    } else if c0 == '*' && c1 == '=' {
        Some(TokenType::StarEquals)
    } else if c0 == '&' && c1 == '=' {
        Some(TokenType::AndEquals)
    } else if c0 == '&' && c1 == '&' {
        Some(TokenType::AndAnd)
    } else if c0 == '%' && c1 == '=' {
        Some(TokenType::PercentEquals)
    } else if c0 == '!' && c1 == '=' {
        Some(TokenType::BangEquals)
    } else if c0 == '<' && c1 == '<' {
        Some(TokenType::LeftShift)
    } else if c0 == '<' && c1 == '=' {
        Some(TokenType::LessOrEquals)
    } else if c0 == '<' && c1 == '-' {
        Some(TokenType::LeftArrow)
    } else if c0 == '>' && c1 == '>' {
        Some(TokenType::RightShift)
    } else if c0 == '>' && c1 == '=' {
        Some(TokenType::GreaterOrEquals)
    } else if c0 == '.' && c1 == '?' {
        Some(TokenType::DotQuestion)
    } else {
        None
    }
}

/// The kind named by a three-character operator spelling, if any.
pub open spec fn op_token_3(c0: char, c1: char, c2: char) -> Option<TokenType> {
    if c0 == '<' && c1 == '<' && c2 == '=' {
        Some(TokenType::LeftShiftEquals)
    } else if c0 == '>' && c1 == '>' && c2 == '=' {
        Some(TokenType::RightShiftEquals)
    } else if c0 == '.' && c1 == '.' && c2 == '?' {
        Some(TokenType::DotDotQuestion)
    } else {
        None
    }
}

/// The kind named by an operator spelling of any length, if any.
pub open spec fn op_token(s: Seq<char>) -> Option<TokenType> {
    if s.len() == 1 {
        op_token_1(s[0])
    } else if s.len() == 2 {
        op_token_2(s[0], s[1])
    } else if s.len() == 3 {
        op_token_3(s[0], s[1], s[2])
    } else {
        None
    }
}

/// Returns the matching TokenType for a one-character operator spelling, if applicable.
pub fn parse_op_1(c: char) -> (r: Option<TokenType>)
    ensures
        r == op_token_1(c),
{
    if c == '#' {
        Some(TokenType::Hash)
    } else if c == '$' {
        Some(TokenType::Dollar)
    } else if c == '(' {
        Some(TokenType::LeftParen)
    } else if c == ')' {
        Some(TokenType::RightParen)
    } else if c == '[' {
        Some(TokenType::LeftBracket)
    } else if c == ']' {
        Some(TokenType::RightBracket)
    } else if c == '{' {
        Some(TokenType::LeftBrace)
    } else if c == '}' {
        Some(TokenType::RightBrace)
    } else if c == ',' {
        Some(TokenType::Comma)
    } else if c == '?' {
        Some(TokenType::Question)
    } else if c == '@' {
        Some(TokenType::At)
    } else if c == '_' {
        Some(TokenType::Underscore)
    } else if c == '~' {
        Some(TokenType::Tilde)
    } else if c == '|' {
        Some(TokenType::Pipe)
    } else if c == '^' {
        Some(TokenType::Caret)
    } else if c == '=' {
        Some(TokenType::Equals)
    } else if c == ':' {
        Some(TokenType::Colon)
    } else if c == '/' {
        Some(TokenType::Slash)
    } else if c == '-' {
        Some(TokenType::Minus)
    } else if c == '+' {
        Some(TokenType::Plus)
    } else if c == '*' {
        Some(TokenType::Star)
    } else if c == '&' {
        Some(TokenType::And)
    } else if c == '%' {
        Some(TokenType::Percent)
    } else if c == '!' {
        Some(TokenType::Bang)
    } else if c == '<' {
        Some(TokenType::LeftAngle)
    } else if c == '>' {
        Some(TokenType::RightAngle)
    } else if c == '.' {
        Some(TokenType::Dot)
    } else {
        None
    }
}

/// Returns the matching TokenType for a two-character operator spelling, if applicable.
pub fn parse_op_2(c0: char, c1: char) -> (r: Option<TokenType>)
    ensures
        r == op_token_2(c0, c1),
{
    if c0 == '~' && c1 == '=' {
        Some(TokenType::TildeEquals)
    } else if c0 == '|' && c1 == '|' {
        Some(TokenType::PipePipe)
    } else if c0 == '^' && c1 == '=' {
        Some(TokenType::CaretEquals)
    } else if c0 == '=' && c1 == '>' {
        Some(TokenType::EqualsArrow)
    } else if c0 == '=' && c1 == '=' {
        Some(TokenType::EqualsEquals)
    } else if c0 == ':' && c1 == '=' {
        Some(TokenType::ColonEquals)
    } else if c0 == ':' && c1 == ':' {
        Some(TokenType::ColonColon)
    } else if c0 == '/' && c1 == '=' {
        Some(TokenType::SlashEquals)
    } else if c0 == '-' && c1 == '>' {
        Some(TokenType::RightArrow)
    } else if c0 == '-' && c1 == '=' {
        Some(TokenType::MinusEquals)
    } else if c0 == '+' && c1 == '=' {
        Some(TokenType::PlusEquals)
    } else if c0 == '*' && c1 == '=' {
        Some(TokenType::StarEquals)
    } else if c0 == '&' && c1 == '=' {
        Some(TokenType::AndEquals)
    } else if c0 == '&' && c1 == '&' {
        Some(TokenType::AndAnd)
    } else if c0 == '%' && c1 == '=' {
        Some(TokenType::PercentEquals)
    } else if c0 == '!' && c1 == '=' {
        Some(TokenType::BangEquals)
    } else if c0 == '<' && c1 == '<' {
        Some(TokenType::LeftShift)
    } else if c0 == '<' && c1 == '=' {
        Some(TokenType::LessOrEquals)
    } else if c0 == '<' && c1 == '-' {
        Some(TokenType::LeftArrow)
    } else if c0 == '>' && c1 == '>' {
        Some(TokenType::RightShift)
    } else if c0 == '>' && c1 == '=' {
        Some(TokenType::GreaterOrEquals)
    } else if c0 == '.' && c1 == '?' {
        Some(TokenType::DotQuestion)
    } else {
        None
    }
}

/// Returns the matching TokenType for a three-character operator spelling, if applicable.
pub fn parse_op_3(c0: char, c1: char, c2: char) -> (r: Option<TokenType>)
    ensures
        r == op_token_3(c0, c1, c2),
{
    if c0 == '<' && c1 == '<' && c2 == '=' {
        Some(TokenType::LeftShiftEquals)
    } else if c0 == '>' && c1 == '>' && c2 == '=' {
        Some(TokenType::RightShiftEquals)
    } else if c0 == '.' && c1 == '.' && c2 == '?' {
        Some(TokenType::DotDotQuestion)
    } else {
        None
    }
}

/// Returns the matching TokenType for a string representation of an operator, if applicable.
pub fn parse_op(op: &str) -> (r: Option<TokenType>)
    ensures
        r == op_token(op@),
{
    let n: usize = op.unicode_len();
    if n == 1 {
        parse_op_1(op.get_char(0))
    } else if n == 2 {
        parse_op_2(op.get_char(0), op.get_char(1))
    } else if n == 3 {
        parse_op_3(op.get_char(0), op.get_char(1), op.get_char(2))
    } else {
        None
    }
}

/// The mathematical content of a token: its kind, its exact lexeme, and the
/// 1-based line and column where the lexeme starts.
pub struct TokenData {
    pub kind: TokenType,
    pub text: Seq<char>,
    pub line: int,
    pub col: int,
}

/// A classified lexeme. For quoted literals, `value` is the content between
/// the delimiters, without the quote characters themselves.
#[derive(Debug)]
pub struct Token {
    pub token_type: TokenType,
    pub value: std::string::String,
    pub line: i32,
    pub col: i32,
}

impl View for Token {
    type V = TokenData;

    open spec fn view(&self) -> TokenData {
        TokenData {
            kind: self.token_type,
            text: self.value@,
            line: self.line as int,
            col: self.col as int,
        }
    }
}

impl Token {
    /// Create a new Token.
    pub fn new(value: std::string::String, token_type: TokenType, line: i32, col: i32) -> (t: Token)
        ensures
            t.token_type == token_type,
            t.value@ == value@,
            t.line == line,
            t.col == col,
    {
        Token { token_type, value, line, col }
    }
}

impl Clone for Token {
    fn clone(&self) -> (t: Token)
        ensures
            t == *self,
    {
        Token {
            token_type: self.token_type,
            value: self.value.clone(),
            line: self.line,
            col: self.col,
        }
    }
}

} // verus!

