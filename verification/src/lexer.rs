//! The lexer: converts raw source text into a flat token stream.
//!
//! The executable scanner walks the input left to right; the spec functions
//! here state, character by character, which lexeme every token carries, where
//! it starts, and how many scan errors the whole input holds.
use vstd::prelude::*;
use vstd::string::*;

use crate::token::{
    op_token, op_token_1, op_token_2, op_token_3, parse_op_1, parse_op_2, parse_op_3, Token,
    TokenData, TokenType,
};

verus! {

/// Largest accepted source length, in characters. Line and column counters fit
/// comfortably in `i32` for any input no longer than this.
pub const MAX_SOURCE_LEN: usize = 0x0FFF_FFFF;

// Character classes
// -----------------

/// Whether a character is whitespace to the scanner.
pub open spec fn is_whitespace_char(c: char) -> bool {
    c == ' ' || c == '\n' || c == '\r' || c == '\t'
}

/// Whether a character is an ASCII letter.
pub open spec fn is_letter_char(c: char) -> bool {
    ('a' <= c && c <= 'z') || ('A' <= c && c <= 'Z')
}

/// Whether a character is an ASCII digit.
pub open spec fn is_digit_char(c: char) -> bool {
    '0' <= c && c <= '9'
}

/// Whether a character may continue an identifier.
pub open spec fn is_alnum_char(c: char) -> bool {
    c == '_' || is_letter_char(c) || is_digit_char(c)
}

/// Whether a character opens a quoted literal.
pub open spec fn is_quote_char(c: char) -> bool {
    c == '"' || c == '\'' || c == '`'
}

/// Utility function to tell us if a char is whitespace.
fn is_whitespace(c: char) -> (r: bool)
    ensures
        r == is_whitespace_char(c),
{
    c == ' ' || c == '\n' || c == '\r' || c == '\t'
}

/// Utility function to tell us if a char is a letter.
fn is_letter(c: char) -> (r: bool)
    ensures
        r == is_letter_char(c),
{
    ('a' <= c && c <= 'z') || ('A' <= c && c <= 'Z')
}

/// Utility function to tell us if a char is a digit.
fn is_digit(c: char) -> (r: bool)
    ensures
        r == is_digit_char(c),
{
    '0' <= c && c <= '9'
}

/// Utility function to tell us if a char is alphanumeric (including underscores).
fn is_alnum(c: char) -> (r: bool)
    ensures
        r == is_alnum_char(c),
{
    c == '_' || is_letter(c) || is_digit(c)
}

/// Utility function to tell us if a char is a quotation mark.
fn is_quote(c: char) -> (r: bool)
    ensures
        r == is_quote_char(c),
{
    c == '"' || c == '\'' || c == '`'
}

// Char-literal validity
// ---------------------

/// Whether a character can only appear in a char literal behind an escape.
pub open spec fn needs_escape(c: char) -> bool {
    c == '\\' || c == '\n' || c == '\r' || c == '\t' || c == '\'' || c == '\u{0}'
}

/// Whether a character is a hexadecimal digit.
pub open spec fn is_hex_digit_char(c: char) -> bool {
    ('0' <= c && c <= '9') || ('A' <= c && c <= 'F') || ('a' <= c && c <= 'f')
}

/// Whether a char-literal body is a Unicode escape: `\u` followed by one to
/// eight hexadecimal digits.
pub open spec fn valid_unicode_escape(s: Seq<char>) -> bool {
    &&& 3 <= s.len() <= 10
    &&& s[0] == '\\'
    &&& s[1] == 'u'
    &&& forall|i: int| 2 <= i < s.len() ==> is_hex_digit_char(#[trigger] s[i])
}

/// Whether a char-literal body is one of the recognized two-character escape
/// sequences.
pub open spec fn valid_escape_pair(s: Seq<char>) -> bool {
    &&& s.len() == 2
    &&& s[0] == '\\'
    &&& (s[1] == '\\' || s[1] == 'a' || s[1] == 'b' || s[1] == 'f' || s[1] == 'n' || s[1] == 'r'
        || s[1] == 't' || s[1] == 'v' || s[1] == '\'' || s[1] == '0')
}

/// Whether the content of a char literal is valid: a single character that
/// needs no escaping, a recognized escape pair, or a Unicode escape.
pub open spec fn valid_char_lit(s: Seq<char>) -> bool {
    ||| (s.len() == 1 && !needs_escape(s[0]))
    ||| valid_unicode_escape(s)
    ||| valid_escape_pair(s)
}

/// Utility function to tell us if a literal is an unescaped char.
pub fn is_unescaped_char(c: &Vec<char>) -> (r: bool)
    ensures
        r == (c@.len() == 1 && needs_escape(c@[0])),
{
    if c.len() != 1 {
        return false;
    }
    let x = c[0];
    x == '\\' || x == '\n' || x == '\r' || x == '\t' || x == '\'' || x == '\u{0}'
}

/// Utility function to tell us if a literal is a valid unicode point.
#[verifier::loop_isolation(false)]
pub fn is_valid_unicode_point(u: &Vec<char>) -> (r: bool)
    ensures
        r == valid_unicode_escape(u@),
{
    if u.len() < 3 || u.len() > 10 {
        return false;
    }
    if u[0] != '\\' || u[1] != 'u' {
        return false;
    }
    // Each digit past the first 2 must be a valid hexadecimal digit
    let mut i: usize = 2;
    while i < u.len()
        invariant
            2 <= i <= u@.len(),
            3 <= u@.len() <= 10,
            u@[0] == '\\',
            u@[1] == 'u',
            forall|k: int| 2 <= k < i ==> is_hex_digit_char(#[trigger] u@[k]),
        decreases u@.len() - i,
    {
        let x = u[i];
        if !(('0' <= x && x <= '9') || ('A' <= x && x <= 'F') || ('a' <= x && x <= 'f')) {
            return false;
        }
        i = i + 1;
    }
    true
}

/// Utility function to tell us if a literal is a valid escape sequence.
pub fn is_valid_escaped_char(e: &Vec<char>) -> (r: bool)
    ensures
        r == valid_escape_pair(e@),
{
    if e.len() != 2 {
        return false;
    }
    if e[0] != '\\' {
        return false;
    }
    let x = e[1];
    x == '\\' || x == 'a' || x == 'b' || x == 'f' || x == 'n' || x == 'r' || x == 't' || x == 'v'
        || x == '\'' || x == '0'
}

/// Utility function to tell us if a string of characters is a valid char literal.
pub fn is_valid_char(c: &Vec<char>) -> (r: bool)
    ensures
        r == valid_char_lit(c@),
{
    if c.len() == 1 && !is_unescaped_char(c) {
        return true;
    }
    is_valid_unicode_point(c) || is_valid_escaped_char(c)
}

// The scanner, as mathematics
// ---------------------------

/// The character at a position, with a NUL standing for "outside the input".
pub open spec fn char_at(input: Seq<char>, i: int) -> char {
    if 0 <= i && i < input.len() {
        input[i]
    } else {
        '\u{0}'
    }
}

/// The scanner's cursor: a position, 1-based line and column counters for the
/// character at that position, and the number of scan errors so far.
pub struct LexState {
    pub pos: int,
    pub line: int,
    pub col: int,
    pub errors: int,
}

/// The cursor at the start of an input.
pub open spec fn init_state() -> LexState {
    LexState { pos: 0, line: 1, col: 1, errors: 0 }
}

/// The cursor moved forward over `k` characters on one line.
pub open spec fn lex_advance(st: LexState, k: int) -> LexState {
    LexState { pos: st.pos + k, line: st.line, col: st.col + k, errors: st.errors }
}

/// The cursor after skipping whitespace: each newline advances the line
/// counter and restarts the column count.
pub open spec fn skip_ws_state(input: Seq<char>, st: LexState) -> LexState
    decreases input.len() - st.pos,
{
    let c = char_at(input, st.pos);
    if is_whitespace_char(c) {
        if c == '\n' {
            skip_ws_state(
                input,
                LexState { pos: st.pos + 1, line: st.line + 1, col: 1, errors: st.errors },
            )
        } else {
            skip_ws_state(
                input,
                LexState { pos: st.pos + 1, line: st.line, col: st.col + 1, errors: st.errors },
            )
        }
    } else {
        st
    }
}

/// Where the identifier starting at `i` ends: the first position at or after
/// `i` that does not continue an identifier.
pub open spec fn ident_end(input: Seq<char>, i: int) -> int
    decreases input.len() - i,
{
    if is_alnum_char(char_at(input, i)) {
        ident_end(input, i + 1)
    } else {
        i
    }
}

/// Where the number starting at `i` ends, and whether a fractional part was
/// seen. A dot continues the number only when the character after it is a
/// digit.
pub open spec fn number_scan(input: Seq<char>, i: int, is_float: bool) -> (int, bool)
    decreases input.len() - i,
{
    if is_digit_char(char_at(input, i)) {
        if char_at(input, i + 1) == '.' && i + 2 < input.len() && is_digit_char(
            input[i + 2],
        ) {
            number_scan(input, i + 2, true)
        } else {
            number_scan(input, i + 1, is_float)
        }
    } else {
        (i, is_float)
    }
}

/// Where the quoted literal's content ends, and whether the closing quote was
/// found. A closing quote is not recognized when the previous character was a
/// backslash that was not itself escaped.
pub open spec fn quote_scan(input: Seq<char>, q: char, i: int, last: char, last2: char) -> (
    int,
    bool,
)
    decreases input.len() - i,
{
    let c = char_at(input, i);
    if c == '\u{0}' {
        (i, false)
    } else if c == q && !(last == '\\' && last2 != '\\') {
        (i, true)
    } else {
        quote_scan(input, q, i + 1, c, last)
    }
}

/// Where the comment starting at `i` ends: at the next newline or at the end
/// of the input.
pub open spec fn comment_end(input: Seq<char>, i: int) -> int
    decreases input.len() - i,
{
    let c = char_at(input, i);
    if c == '\n' || c == '\u{0}' {
        i
    } else {
        comment_end(input, i + 1)
    }
}

/// How many characters the operator at `i` spans: the longest spelling wins,
/// trying three characters, then two, then one.
pub open spec fn op_match(input: Seq<char>, i: int) -> int {
    if i + 3 <= input.len() && op_token_3(input[i], input[i + 1], input[i + 2]) is Some {
        3
    } else if i + 2 <= input.len() && op_token_2(input[i], input[i + 1]) is Some {
        2
    } else if i + 1 <= input.len() && op_token_1(input[i]) is Some {
        1
    } else {
        0
    }
}

/// The number of newlines in a sequence of characters.
pub open spec fn newline_count(s: Seq<char>) -> int
    decreases s.len(),
{
    if s.len() == 0 {
        0
    } else {
        newline_count(s.drop_last()) + if s.last() == '\n' {
            1int
        } else {
            0int
        }
    }
}

/// The end-of-input token at a cursor.
pub open spec fn eof_token(st: LexState) -> TokenData {
    TokenData { kind: TokenType::EOF, text: Seq::empty(), line: st.line, col: st.col }
}

/// The literal kind implied by an opening quote character.
pub open spec fn quote_kind(q: char) -> TokenType {
    if q == '\'' {
        TokenType::Char
    } else if q == '`' {
        TokenType::FormString
    } else {
        TokenType::String
    }
}

/// The next token of the input at a cursor, and the cursor after it.
///
/// Whitespace is skipped first. Dispatch is on the class of the first
/// character: identifier start, digit, quote, operator, comment opener.
/// An unrecognized character counts one scan error, is stepped past, and
/// scanning continues. At the end of the input the token is `EOF`.
pub open spec fn spec_next_token(input: Seq<char>, st0: LexState) -> (TokenData, LexState)
    decreases input.len() - st0.pos,
{
    let st = skip_ws_state(input, st0);
    let c = char_at(input, st.pos);
    if c == '\u{0}' {
        (eof_token(st), st)
    } else if is_letter_char(c) || (c == '_' && st.pos + 1 < input.len() && is_alnum_char(
        input[st.pos + 1],
    )) {
        let end = ident_end(input, st.pos);
        let text = input.subrange(st.pos, end);
        (
            TokenData { kind: TokenType::Identifier, text, line: st.line, col: st.col },
            lex_advance(st, end - st.pos),
        )
    } else if is_digit_char(c) {
        let (end, isf) = number_scan(input, st.pos, false);
        let text = input.subrange(st.pos, end);
        let kind = if isf {
            TokenType::Float
        } else {
            TokenType::Int
        };
        (
            TokenData { kind, text, line: st.line, col: st.col },
            lex_advance(st, end - st.pos),
        )
    } else if is_quote_char(c) {
        let (qend, closed) = quote_scan(input, c, st.pos + 1, '\u{0}', '\u{0}');
        let text = input.subrange(st.pos + 1, qend);
        let nl = newline_count(text);
        let consumed = qend + 1 - st.pos;
        let errs = if !closed {
            1int
        } else if c == '\'' && !valid_char_lit(text) {
            1int
        } else {
            0int
        };
        let tok = TokenData { kind: quote_kind(c), text, line: st.line, col: st.col };
        let st1 = LexState {
            pos: qend + 1,
            line: if nl > 0 {
                st.line + nl
            } else {
                st.line
            },
            col: if nl > 0 {
                0
            } else {
                st.col + consumed
            },
            errors: st.errors + errs,
        };
        (tok, st1)
    } else if op_token_1(c) is Some {
        let k = op_match(input, st.pos);
        let text = input.subrange(st.pos, st.pos + k);
        let kind = op_token(text)->Some_0;
        (
            TokenData { kind, text, line: st.line, col: st.col },
            lex_advance(st, k),
        )
    } else if c == ';' {
        let end = comment_end(input, st.pos);
        let text = input.subrange(st.pos, end);
        (
            TokenData { kind: TokenType::Comment, text, line: st.line, col: st.col },
            lex_advance(st, end - st.pos),
        )
    } else {
        let st1 = LexState { pos: st.pos + 1, line: st.line, col: st.col + 1, errors: st.errors
            + 1 };
        if st0.pos < st1.pos {
            spec_next_token(input, st1)
        } else {
            (eof_token(st1), st1)
        }
    }
}

/// All tokens of the input from a cursor on, and the cursor at the end of the
/// input. The final `EOF` token is not included.
pub open spec fn spec_tokens(input: Seq<char>, st: LexState) -> (Seq<TokenData>, LexState)
    decreases input.len() + 1 - st.pos,
{
    let (t, st1) = spec_next_token(input, st);
    if t.kind == TokenType::EOF {
        (Seq::empty(), st1)
    } else if st.pos < st1.pos && st1.pos <= input.len() + 1 {
        let (rest, st2) = spec_tokens(input, st1);
        (seq![t] + rest, st2)
    } else {
        (Seq::empty(), st1)
    }
}

/// The token sequence of a whole input.
pub open spec fn lexed_tokens(input: Seq<char>) -> Seq<TokenData> {
    spec_tokens(input, init_state()).0
}

/// The number of scan errors in a whole input.
pub open spec fn lex_error_count(input: Seq<char>) -> int {
    spec_tokens(input, init_state()).1.errors
}

// Messages
// --------

/// The decimal digits of `n`, most significant first.
pub open spec fn dec_digits(n: nat) -> Seq<char>
    decreases n,
{
    if n < 10 {
        seq![digit_char(n as int)]
    } else {
        dec_digits(n / 10).push(digit_char((n % 10) as int))
    }
}

/// The character for one decimal digit.
pub open spec fn digit_char(d: int) -> char {
    if d == 0 {
        '0'
    } else if d == 1 {
        '1'
    } else if d == 2 {
        '2'
    } else if d == 3 {
        '3'
    } else if d == 4 {
        '4'
    } else if d == 5 {
        '5'
    } else if d == 6 {
        '6'
    } else if d == 7 {
        '7'
    } else if d == 8 {
        '8'
    } else {
        '9'
    }
}

/// The error returned when an input yields no tokens at all.
pub open spec fn no_source_msg(file: Seq<char>) -> Seq<char> {
    "No source code found in "@ + file
}

/// The error returned when an input yields tokens but holds scan errors.
pub open spec fn error_count_msg(n: nat, file: Seq<char>) -> Seq<char> {
    dec_digits(n) + (if n > 1 {
        " syntax errors encountered in "@
    } else {
        " syntax error encountered in "@
    }) + file
}

/// What `scan` returns on an input: the tokens, unless the input yields none
/// at all or holds scan errors.
pub open spec fn scan_result(input: Seq<char>, file: Seq<char>) -> Result<Seq<TokenData>, Seq<
    char,
>> {
    let toks = lexed_tokens(input);
    let errs = lex_error_count(input);
    if toks.len() == 0 {
        Err(no_source_msg(file))
    } else if errs > 0 {
        Err(error_count_msg(errs as nat, file))
    } else {
        Ok(toks)
    }
}

// Executable helpers
// ------------------

/// Relies on std's `FromIterator<char> for String`: collecting the characters
/// of a vector yields the string of exactly those characters, in order.
#[verifier::external_body]
fn chars_to_string(v: &Vec<char>) -> (r: String)
    ensures
        r@ == v@,
{
    v.iter().collect()
}

/// The characters of a string, as a vector.
#[verifier::loop_isolation(false)]
fn string_to_chars(s: &str) -> (r: Vec<char>)
    ensures
        r@ == s@,
{
    let n: usize = s.unicode_len();
    let mut v: Vec<char> = Vec::new();
    let mut i: usize = 0;
    while i < n
        invariant
            i <= n,
            n == s@.len(),
            v@ == s@.subrange(0, i as int),
        decreases n - i,
    {
        v.push(s.get_char(i));
        proof {
            assert(s@.subrange(0, i + 1 as int) =~= s@.subrange(0, i as int).push(s@[i as int]));
        }
        i = i + 1;
    }
    proof {
        assert(s@.subrange(0, n as int) =~= s@);
    }
    v
}

/// The decimal digits of `n`, appended to `out`.
#[verifier::loop_isolation(false)]
fn push_dec_digits(n: u32, out: &mut Vec<char>)
    ensures
        final(out)@ == old(out)@ + dec_digits(n as nat),
    decreases n,
{
    if n < 10 {
        out.push(digit_char_of(n));
    } else {
        push_dec_digits(n / 10, out);
        out.push(digit_char_of(n % 10));
    }
}

/// The character for one decimal digit.
fn digit_char_of(d: u32) -> (c: char)
    requires
        d < 10,
    ensures
        c == digit_char(d as int),
{
    if d == 0 {
        '0'
    } else if d == 1 {
        '1'
    } else if d == 2 {
        '2'
    } else if d == 3 {
        '3'
    } else if d == 4 {
        '4'
    } else if d == 5 {
        '5'
    } else if d == 6 {
        '6'
    } else if d == 7 {
        '7'
    } else if d == 8 {
        '8'
    } else {
        '9'
    }
}

// The scanner
// -----------

/// The lexer's working state: the input as individual characters, the scan
/// cursor, the character under it, and the error count.
struct Lexer {
    input: Vec<char>,  // split input source code into individual chars
    pos: usize,        // current scan position
    next: usize,       // next scan position
    cur: char,         // the char we're currently looking at
    line: i32,         // what line in the source code we're at
    col: i32,          // what column in the source code we're at
    error_count: i32,  // how many scan errors we've had
}

impl Lexer {
    /// The cursor this state stands for.
    spec fn st(&self) -> LexState {
        LexState {
            pos: self.pos as int,
            line: self.line as int,
            col: self.col as int,
            errors: self.error_count as int,
        }
    }

    /// The lexer's invariant: the cursor stays within one step of the end of
    /// the input, `cur` mirrors the character under it, and the counters are
    /// bounded by the distance already travelled.
    spec fn wf(&self) -> bool {
        &&& self.input@.len() <= MAX_SOURCE_LEN
        &&& self.next == self.pos + 1
        &&& self.pos <= self.input@.len() + 1
        &&& self.cur == char_at(self.input@, self.pos as int)
        &&& 1 <= self.line <= self.pos + 1
        &&& 0 <= self.col <= self.pos + 1
        &&& 0 <= self.error_count <= self.pos
    }

    /// Create a new Lexer positioned on the first character.
    fn new(source_code: String) -> (lexer: Lexer)
        requires
            source_code@.len() <= MAX_SOURCE_LEN,
        ensures
            lexer.wf(),
            lexer.input@ == source_code@,
            lexer.st() == init_state(),
    {
        let input = string_to_chars(source_code.as_str());
        let mut lexer = Lexer { input, pos: 0, next: 0, cur: '\u{0}', line: 1, col: 0, error_count: 0 };
        lexer.read_char();
        lexer
    }

    /// Read the character at the next position, then advance the position.
    fn read_char(&mut self)
        requires
            old(self).input@.len() <= MAX_SOURCE_LEN,
            old(self).next <= old(self).input@.len() + 1,
            0 <= old(self).col <= old(self).input@.len() + 2,
        ensures
            final(self).input == old(self).input,
            final(self).pos == old(self).next,
            final(self).next == old(self).next + 1,
            final(self).cur == char_at(final(self).input@, final(self).pos as int),
            final(self).line == old(self).line,
            final(self).col == old(self).col + 1,
            final(self).error_count == old(self).error_count,
    {
        if self.next >= self.input.len() {
            // End of input
            self.cur = '\u{0}';
        } else {
            self.cur = self.input[self.next];
        }
        self.pos = self.next;
        self.next = self.next + 1;
        self.col = self.col + 1;
    }

    /// The characters of the input between two positions.
    #[verifier::loop_isolation(false)]
    fn collect_range(&self, start: usize, end: usize) -> (v: Vec<char>)
        requires
            start <= end <= self.input@.len(),
        ensures
            v@ == self.input@.subrange(start as int, end as int),
    {
        let mut v: Vec<char> = Vec::new();
        let mut i: usize = start;
        while i < end
            invariant
                start <= i <= end <= self.input@.len(),
                v@ == self.input@.subrange(start as int, i as int),
            decreases end - i,
        {
            v.push(self.input[i]);
            proof {
                assert(self.input@.subrange(start as int, i + 1 as int) =~= self.input@.subrange(
                    start as int,
                    i as int,
                ).push(self.input@[i as int]));
            }
            i = i + 1;
        }
        v
    }

    /// Read over whitespace.
    #[verifier::loop_isolation(false)]
    fn skip_whitespace(&mut self)
        requires
            old(self).wf(),
        ensures
            final(self).wf(),
            final(self).input == old(self).input,
            final(self).st() == skip_ws_state(old(self).input@, old(self).st()),
            old(self).pos <= final(self).pos,
    {
        while is_whitespace(self.cur)
            invariant
                self.wf(),
                self.input == old(self).input,
                skip_ws_state(self.input@, self.st()) == skip_ws_state(
                    old(self).input@,
                    old(self).st(),
                ),
                old(self).pos <= self.pos,
            decreases self.input@.len() - self.pos,
        {
            if self.cur == '\n' {
                self.line = self.line + 1;
                self.col = 0;
            }
            self.read_char();
        }
    }

    /// Read an identifier.
    #[verifier::loop_isolation(false)]
    fn read_identifier(&mut self) -> (value: Vec<char>)
        requires
            old(self).wf(),
            is_alnum_char(old(self).cur),
        ensures
            final(self).wf(),
            final(self).input == old(self).input,
            final(self).pos == ident_end(final(self).input@, old(self).pos as int),
            final(self).pos <= final(self).input@.len(),
            value@ == final(self).input@.subrange(old(self).pos as int, final(self).pos as int),
            old(self).pos < final(self).pos,
            final(self).st() == lex_advance(old(self).st(), final(self).pos - old(self).pos),
    {
        let start: usize = self.pos;
        while is_alnum(self.cur)
            invariant
                self.wf(),
                self.input == old(self).input,
                start <= self.pos <= self.input@.len(),
                ident_end(self.input@, self.pos as int) == ident_end(self.input@, start as int),
                self.pos == start ==> is_alnum_char(char_at(self.input@, start as int)),
                self.line == old(self).line,
                self.col == old(self).col + (self.pos - old(self).pos),
                self.error_count == old(self).error_count,
            decreases self.input@.len() - self.pos,
        {
            self.read_char();
        }
        self.collect_range(start, self.pos)
    }

    /// Read a number literal (integer or floating point).
    #[verifier::loop_isolation(false)]
    fn read_number(&mut self) -> (r: (TokenType, Vec<char>))
        requires
            old(self).wf(),
            is_digit_char(old(self).cur),
        ensures
            final(self).wf(),
            final(self).input == old(self).input,
            (final(self).pos as int, r.0 == TokenType::Float) == number_scan(
                final(self).input@,
                old(self).pos as int,
                false,
            ),
            r.0 == TokenType::Float || r.0 == TokenType::Int,
            final(self).pos <= final(self).input@.len(),
            r.1@ == final(self).input@.subrange(old(self).pos as int, final(self).pos as int),
            old(self).pos < final(self).pos,
            final(self).st() == lex_advance(old(self).st(), final(self).pos - old(self).pos),
    {
        let start: usize = self.pos;
        let mut is_float: bool = false;
        while is_digit(self.cur)
            invariant
                self.wf(),
                self.input == old(self).input,
                start <= self.pos <= self.input@.len(),
                number_scan(self.input@, self.pos as int, is_float) == number_scan(
                    self.input@,
                    start as int,
                    false,
                ),
                self.pos == start ==> is_digit_char(char_at(self.input@, start as int)),
                self.line == old(self).line,
                self.col == old(self).col + (self.pos - old(self).pos),
                self.error_count == old(self).error_count,
            decreases self.input@.len() - self.pos,
        {
            self.read_char();
            // If we encounter a dot, we should only keep reading if the
            // following char is a digit
            if self.cur == '.' && self.next < self.input.len() && is_digit(self.input[self.next]) {
                is_float = true;
                self.read_char();
            }
        }
        let token_type = if is_float {
            TokenType::Float
        } else {
            TokenType::Int
        };
        (token_type, self.collect_range(start, self.pos))
    }

    /// Read a quoted literal; scans until the closing quote is found. If the
    /// end of the input comes first, the literal is unclosed: that is a scan
    /// error, and the content runs to the end of the input.
    fn read_quote(&mut self) -> (r: (TokenType, Vec<char>, i32))
        requires
            old(self).wf(),
            is_quote_char(old(self).cur),
        ensures
            final(self).wf(),
            final(self).input == old(self).input,
            r.0 == quote_kind(old(self).cur),
            ({
                let (qend, closed) = quote_scan(
                    final(self).input@,
                    old(self).cur,
                    old(self).pos + 1,
                    '\u{0}',
                    '\u{0}',
                );
                &&& r.1@ == final(self).input@.subrange(old(self).pos + 1, qend)
                &&& r.2 == newline_count(r.1@)
                &&& final(self).pos == qend + 1
                &&& final(self).line == old(self).line
                &&& final(self).col == old(self).col + (final(self).pos - old(self).pos)
                &&& final(self).error_count == old(self).error_count + (if !closed {
                    1int
                } else if old(self).cur == '\'' && !valid_char_lit(r.1@) {
                    1int
                } else {
                    0int
                })
            }),
            0 <= r.2 <= final(self).pos - old(self).pos,
            final(self).pos <= final(self).input@.len() + 1,
            old(self).pos + 1 < final(self).pos,
    {
        let quote: char = self.cur;
        self.read_char();
        let start: usize = self.pos;
        let mut closed: bool = true;
        let mut num_lines: i32 = 0;
        // Look back 2 chars to check if we're escaping the next char; account
        // for an escaped backslash just before the closer.
        let mut last: char = '\u{0}';
        let mut last2: char = '\u{0}';
        loop
            invariant_except_break
                closed,
            invariant
                self.wf(),
                self.input == old(self).input,
                start <= self.pos <= self.input@.len(),
                start == old(self).pos + 1,
                self.cur == char_at(self.input@, self.pos as int),
                quote == old(self).cur,
                is_quote_char(quote),
                quote_scan(self.input@, quote, self.pos as int, last, last2) == quote_scan(
                    self.input@,
                    quote,
                    start as int,
                    '\u{0}',
                    '\u{0}',
                ),
                num_lines == newline_count(self.input@.subrange(start as int, self.pos as int)),
                0 <= num_lines <= self.pos - start,
                self.line == old(self).line,
                self.col == old(self).col + (self.pos - old(self).pos),
                self.error_count == old(self).error_count,
            ensures
                self.wf(),
                self.input == old(self).input,
                start <= self.pos <= self.input@.len(),
                quote_scan(self.input@, quote, start as int, '\u{0}', '\u{0}') == (
                    self.pos as int,
                    closed,
                ),
                num_lines == newline_count(self.input@.subrange(start as int, self.pos as int)),
                0 <= num_lines <= self.pos - start,
                self.line == old(self).line,
                self.col == old(self).col + (self.pos - old(self).pos),
                self.error_count == old(self).error_count,
            decreases self.input@.len() - self.pos,
        {
            if self.cur == '\u{0}' {
                closed = false;
                break;
            }
            if self.cur == quote && !(last == '\\' && last2 != '\\') {
                break;
            }
            if self.cur == '\n' {
                num_lines = num_lines + 1;
            }
            proof {
                assert(self.input@.subrange(start as int, self.pos + 1).drop_last()
                    =~= self.input@.subrange(start as int, self.pos as int));
                assert(self.input@.subrange(start as int, self.pos + 1).last()
                    == self.input@[self.pos as int]);
            }
            last2 = last;
            last = self.cur;
            self.read_char();
        }
        let buffer = self.collect_range(start, self.pos);
        // If we've read a char literal, check that it is valid
        if closed && quote == '\'' && !is_valid_char(&buffer) {
            self.error_count = self.error_count + 1;
        } else if !closed {
            self.error_count = self.error_count + 1;
        }
        let token_type = if quote == '\'' {
            TokenType::Char
        } else if quote == '`' {
            TokenType::FormString
        } else {
            TokenType::String
        };
        self.read_char();
        (token_type, buffer, num_lines)
    }

    /// Read a comment: comments run from the opening char until the end of the
    /// line (or the end of the input).
    #[verifier::loop_isolation(false)]
    fn read_comment(&mut self) -> (value: Vec<char>)
        requires
            old(self).wf(),
            old(self).cur == ';',
        ensures
            final(self).wf(),
            final(self).input == old(self).input,
            final(self).pos == comment_end(final(self).input@, old(self).pos as int),
            final(self).pos <= final(self).input@.len(),
            value@ == final(self).input@.subrange(old(self).pos as int, final(self).pos as int),
            old(self).pos < final(self).pos,
            final(self).st() == lex_advance(old(self).st(), final(self).pos - old(self).pos),
    {
        let start: usize = self.pos;
        while self.cur != '\n' && self.cur != '\u{0}'
            invariant
                self.wf(),
                self.input == old(self).input,
                start <= self.pos <= self.input@.len(),
                comment_end(self.input@, self.pos as int) == comment_end(self.input@, start as int),
                self.pos == start ==> char_at(self.input@, start as int) == ';',
                self.line == old(self).line,
                self.col == old(self).col + (self.pos - old(self).pos),
                self.error_count == old(self).error_count,
            decreases self.input@.len() - self.pos,
        {
            self.read_char();
        }
        self.collect_range(start, self.pos)
    }

    /// Read an operator: an operator can be 1, 2, or 3 chars long, and the
    /// longest spelling wins.
    #[verifier::loop_isolation(false)]
    fn read_operator(&mut self, base: TokenType) -> (r: (TokenType, Vec<char>))
        requires
            old(self).wf(),
            op_token_1(old(self).cur) == Some(base),
            old(self).cur != '\u{0}',
        ensures
            final(self).wf(),
            final(self).input == old(self).input,
            final(self).pos == old(self).pos + op_match(final(self).input@, old(self).pos as int),
            final(self).pos <= final(self).input@.len(),
            r.1@ == final(self).input@.subrange(old(self).pos as int, final(self).pos as int),
            Some(r.0) == op_token(r.1@),
            old(self).pos < final(self).pos,
            final(self).st() == lex_advance(old(self).st(), final(self).pos - old(self).pos),
    {
        proof {
            assert(self.pos < self.input@.len());
        }
        let mut token_type = base;
        let mut to_scan: usize = 1;
        // Check the longest spellings first: 3 chars, then 2, then the 1 we have
        if self.pos + 3 <= self.input.len() {
            match parse_op_3(self.input[self.pos], self.input[self.pos + 1], self.input[self.pos + 2]) {
                Some(op_type) => {
                    token_type = op_type;
                    to_scan = 3;
                },
                None => {},
            }
        }
        if to_scan == 1 && self.pos + 2 <= self.input.len() {
            match parse_op_2(self.input[self.pos], self.input[self.pos + 1]) {
                Some(op_type) => {
                    token_type = op_type;
                    to_scan = 2;
                },
                None => {},
            }
        }
        let buffer = self.collect_range(self.pos, self.pos + to_scan);
        // Catch up the internal pointer
        let mut i: usize = 0;
        while i < to_scan
            invariant
                i <= to_scan,
                to_scan <= 3,
                self.input == old(self).input,
                self.input@.len() <= MAX_SOURCE_LEN,
                self.next == self.pos + 1,
                self.pos == old(self).pos + i,
                old(self).pos + to_scan <= self.input@.len(),
                self.cur == char_at(self.input@, self.pos as int),
                self.line == old(self).line,
                self.col == old(self).col + i,
                self.error_count == old(self).error_count,
                0 <= self.col,
                1 <= self.line <= self.pos + 1,
                0 <= self.error_count <= old(self).pos,
            decreases to_scan - i,
        {
            self.read_char();
            i = i + 1;
        }
        (token_type, buffer)
    }

    /// Create a token with the given parameters: the token's recorded column
    /// is computed back from the current one, over the lexeme's length plus
    /// two for the delimiters of a quoted literal.
    fn create_token(&self, token_type: TokenType, value: Vec<char>) -> (t: Token)
        requires
            value@.len() <= MAX_SOURCE_LEN,
            -0x4000_0000 <= self.col <= 0x4000_0000,
        ensures
            t@ == (TokenData {
                kind: token_type,
                text: value@,
                line: self.line as int,
                col: self.col - value@.len() - (if token_type == TokenType::String || token_type
                    == TokenType::FormString || token_type == TokenType::Char {
                    2int
                } else {
                    0int
                }),
            }),
    {
        let mut col_offs: i32 = value.len() as i32;
        if token_type == TokenType::String || token_type == TokenType::FormString || token_type
            == TokenType::Char {
            col_offs = col_offs + 2;
        }
        Token::new(chars_to_string(&value), token_type, self.line, self.col - col_offs)
    }

    /// Get the next token. Unrecognized characters are scan errors: each one
    /// is counted, stepped past, and scanning continues with the next
    /// character.
    #[verifier::loop_isolation(false)]
    fn next_token(&mut self) -> (t: Token)
        requires
            old(self).wf(),
        ensures
            final(self).wf(),
            final(self).input == old(self).input,
            (t@, final(self).st()) == spec_next_token(old(self).input@, old(self).st()),
            old(self).pos <= final(self).pos,
            t@.kind != TokenType::EOF ==> old(self).pos < final(self).pos,
    {
        loop
            invariant
                self.wf(),
                self.input == old(self).input,
                spec_next_token(self.input@, self.st()) == spec_next_token(
                    old(self).input@,
                    old(self).st(),
                ),
                old(self).pos <= self.pos,
            decreases self.input@.len() + 1 - self.pos,
        {
            self.skip_whitespace();
            // Reached end of input: the end-of-file token
            if self.cur == '\u{0}' {
                return self.create_token(TokenType::EOF, Vec::new());
            }
            // Scan tokens based on the class of the initial char
            if is_letter(self.cur) || (self.cur == '_' && self.next < self.input.len() && is_alnum(
                self.input[self.next],
            )) {
                let value = self.read_identifier();
                return self.create_token(TokenType::Identifier, value);
            }
            if is_digit(self.cur) {
                let (token_type, value) = self.read_number();
                return self.create_token(token_type, value);
            }
            if is_quote(self.cur) {
                let (token_type, value, num_lines) = self.read_quote();
                let qt = self.create_token(token_type, value);
                // Adjust the line and column for the lines this literal spans
                if num_lines > 0 {
                    self.line = self.line + num_lines;
                    self.col = 0;
                }
                return qt;
            }
            match parse_op_1(self.cur) {
                Some(op) => {
                    let (token_type, value) = self.read_operator(op);
                    return self.create_token(token_type, value);
                },
                None => {},
            }
            // Comment opening
            if self.cur == ';' {
                let value = self.read_comment();
                return self.create_token(TokenType::Comment, value);
            }
            // Unrecognized character: count the error and keep scanning
            self.error_count = self.error_count + 1;
            self.read_char();
        }
    }
}

/// Convert raw source code text into a vector of tokens. If the input yields
/// no tokens at all, or any scan errors, return an error message instead.
pub fn scan(source_code: String, file_path: &String) -> (r: Result<Vec<Token>, String>)
    requires
        source_code@.len() <= MAX_SOURCE_LEN,
    ensures
        r is Ok <==> scan_result(source_code@, file_path@) is Ok,
        r is Ok ==> r->Ok_0@.map_values(|t: Token| t@) == scan_result(
            source_code@,
            file_path@,
        )->Ok_0,
        r is Err ==> r->Err_0@ == scan_result(source_code@, file_path@)->Err_0,
        r is Ok ==> forall|k: int|
            0 <= k < r->Ok_0@.len() ==> (#[trigger] r->Ok_0@[k]).token_type != TokenType::EOF,
{
    let ghost input: Seq<char> = source_code@;
    let mut lexer = Lexer::new(source_code);
    let mut tokens: Vec<Token> = Vec::new();
    // Scan tokens
    loop
        invariant_except_break
            spec_tokens(input, init_state()).0 == tokens@.map_values(|t: Token| t@)
                + spec_tokens(input, lexer.st()).0,
            spec_tokens(input, init_state()).1 == spec_tokens(input, lexer.st()).1,
        invariant
            lexer.wf(),
            lexer.input@ == input,
            forall|k: int|
                0 <= k < tokens@.len() ==> (#[trigger] tokens@[k]).token_type != TokenType::EOF,
        ensures
            lexer.wf(),
            lexer.input@ == input,
            tokens@.map_values(|t: Token| t@) == spec_tokens(input, init_state()).0,
            lexer.st() == spec_tokens(input, init_state()).1,
            forall|k: int|
                0 <= k < tokens@.len() ==> (#[trigger] tokens@[k]).token_type != TokenType::EOF,
        decreases input.len() + 2 - lexer.pos,
    {
        let ghost st_before = lexer.st();
        let token = lexer.next_token();
        if token.token_type == TokenType::EOF {
            proof {
                assert(spec_tokens(input, st_before).0 =~= Seq::<TokenData>::empty());
                assert(spec_tokens(input, st_before).1 == spec_next_token(input, st_before).1);
                assert(tokens@.map_values(|t: Token| t@) + Seq::<TokenData>::empty()
                    =~= tokens@.map_values(|t: Token| t@));
            }
            break;
        }
        proof {
            let (t, st1) = spec_next_token(input, st_before);
            assert(spec_tokens(input, st_before).0 =~= seq![t] + spec_tokens(input, st1).0);
            assert((tokens@ + seq![token]).map_values(|t: Token| t@) =~= tokens@.map_values(
                |t: Token| t@,
            ) + seq![token@]);
            assert(tokens@.map_values(|t: Token| t@) + (seq![t] + spec_tokens(input, st1).0)
                =~= (tokens@ + seq![token]).map_values(|t: Token| t@) + spec_tokens(
                input,
                st1,
            ).0);
        }
        tokens.push(token);
    }
    // Report errors
    if tokens.len() == 0 {
        return Err(String::from_str("No source code found in ").concat(file_path.as_str()));
    }
    if lexer.error_count > 0 {
        let mut digits: Vec<char> = Vec::new();
        push_dec_digits(lexer.error_count as u32, &mut digits);
        let count_str = chars_to_string(&digits);
        let suffix = if lexer.error_count > 1 {
            " syntax errors encountered in "
        } else {
            " syntax error encountered in "
        };
        return Err(count_str.concat(suffix).concat(file_path.as_str()));
    }
    Ok(tokens)
}

// Laws
// ----

/// An input that holds only whitespace yields no tokens, so scanning it fails
/// with the "no source code" error.
pub proof fn lemma_whitespace_only_scan(input: Seq<char>, file: Seq<char>)
    requires
        forall|i: int| 0 <= i < input.len() ==> is_whitespace_char(#[trigger] input[i]),
    ensures
        scan_result(input, file) == Err::<Seq<TokenData>, Seq<char>>(no_source_msg(file)),
{
    lemma_skip_ws_all(input, init_state());
    let st = skip_ws_state(input, init_state());
    assert(char_at(input, st.pos) == '\u{0}');
    assert(spec_next_token(input, init_state()).0.kind == TokenType::EOF);
    assert(lexed_tokens(input) =~= Seq::<TokenData>::empty());
}

/// Skipping whitespace over an all-whitespace tail runs to the end of the
/// input.
proof fn lemma_skip_ws_all(input: Seq<char>, st: LexState)
    requires
        0 <= st.pos <= input.len(),
        forall|i: int| st.pos <= i < input.len() ==> is_whitespace_char(#[trigger] input[i]),
    ensures
        skip_ws_state(input, st).pos == input.len(),
    decreases input.len() - st.pos,
{
    if st.pos < input.len() {
        let c = char_at(input, st.pos);
        if c == '\n' {
            lemma_skip_ws_all(
                input,
                LexState { pos: st.pos + 1, line: st.line + 1, col: 1, errors: st.errors },
            );
        } else {
            lemma_skip_ws_all(
                input,
                LexState { pos: st.pos + 1, line: st.line, col: st.col + 1, errors: st.errors },
            );
        }
    } else {
        assert(!is_whitespace_char(char_at(input, st.pos)));
    }
}

} // verus!
