//! The parser: turns a flat token stream into an expression tree.
//!
//! The grammar is a strict precedence ladder (equality, comparison, additive,
//! multiplicative, unary, primary); each binary level folds its operators into
//! left-associative nodes. The spec functions here state, token by token,
//! exactly which tree every input parses to, and on which inputs parsing
//! fails and how.
use vstd::prelude::*;
use vstd::string::*;

use crate::expr::{Binary, Expr, Grouping, Literal, Unary};
use crate::token::{Token, TokenType};

verus! {

/// Why a parse failed: a token (or the end of the input) where no grammar rule
/// applies, or a grouping that was never closed.
#[derive(Clone, Copy, Debug, PartialEq, Eq, Structural)]
pub enum ParseError {
    UnexpectedToken,
    MissingRightParen,
}

/// Whether position `i` is past the parseable tokens: beyond the end of the
/// sequence, or on an end-of-file marker.
pub open spec fn at_end(tokens: Seq<Token>, i: int) -> bool {
    i >= tokens.len() || tokens[i].token_type == TokenType::EOF
}

/// The token kinds a primary expression accepts as a literal (the wildcard
/// among them).
pub open spec fn is_literal_kind(t: TokenType) -> bool {
    t == TokenType::Underscore || t == TokenType::Int || t == TokenType::Float || t
        == TokenType::Char || t == TokenType::String || t == TokenType::FormString
}

/// The prefix operators.
pub open spec fn is_unary_op(t: TokenType) -> bool {
    t == TokenType::Bang || t == TokenType::Minus
}

/// The multiplicative operators.
pub open spec fn is_factor_op(t: TokenType) -> bool {
    t == TokenType::Star || t == TokenType::Slash
}

/// The additive operators.
pub open spec fn is_term_op(t: TokenType) -> bool {
    t == TokenType::Minus || t == TokenType::Plus
}

/// The comparison operators.
pub open spec fn is_comparison_op(t: TokenType) -> bool {
    t == TokenType::RightAngle || t == TokenType::LeftAngle || t == TokenType::GreaterOrEquals || t
        == TokenType::LessOrEquals
}

/// The equality operators.
pub open spec fn is_equality_op(t: TokenType) -> bool {
    t == TokenType::BangEquals || t == TokenType::EqualsEquals
}

/// What the `primary` rule yields at position `i`: a literal token wrapped as
/// a Literal node, or a parenthesized expression wrapped as a Grouping node.
/// A missing `)` after the inner expression is the distinguished
/// missing-right-paren error; any other token is unexpected.
pub open spec fn spec_primary(tokens: Seq<Token>, i: int) -> Result<(Expr, int), ParseError>
    decreases tokens.len() - i, 0int,
{
    if !at_end(tokens, i) && is_literal_kind(tokens[i].token_type) {
        Ok((Expr::Literal(Box::new(Literal { value: tokens[i] })), i + 1))
    } else if !at_end(tokens, i) && tokens[i].token_type == TokenType::LeftParen {
        match spec_expression(tokens, i + 1) {
            Ok((e, j)) => {
                if !at_end(tokens, j) && tokens[j].token_type == TokenType::RightParen {
                    Ok((Expr::Grouping(Box::new(Grouping { expr: e })), j + 1))
                } else {
                    Err(ParseError::MissingRightParen)
                }
            },
            Err(pe) => Err(pe),
        }
    } else {
        Err(ParseError::UnexpectedToken)
    }
}

/// What the `unary` rule yields at position `i`: prefix operators apply
/// right-recursively, then a primary expression.
pub open spec fn spec_unary(tokens: Seq<Token>, i: int) -> Result<(Expr, int), ParseError>
    decreases tokens.len() - i, 1int,
{
    if !at_end(tokens, i) && is_unary_op(tokens[i].token_type) {
        match spec_unary(tokens, i + 1) {
            Ok((e, j)) => Ok((Expr::Unary(Box::new(Unary { operator: tokens[i], right: e })), j)),
            Err(pe) => Err(pe),
        }
    } else {
        spec_primary(tokens, i)
    }
}

/// The rest of a `factor` after its first operand: while the current token is
/// a multiplicative operator, fold the running result into the left side of a
/// new Binary node.
pub open spec fn spec_factor_rest(tokens: Seq<Token>, i: int, left: Expr) -> Result<
    (Expr, int),
    ParseError,
>
    decreases tokens.len() - i, 2int,
{
    if !at_end(tokens, i) && is_factor_op(tokens[i].token_type) {
        match spec_unary(tokens, i + 1) {
            Ok((right, j)) => {
                if i < j && j <= tokens.len() {
                    spec_factor_rest(
                        tokens,
                        j,
                        Expr::Binary(Box::new(Binary { left, operator: tokens[i], right })),
                    )
                } else {
                    Err(ParseError::UnexpectedToken)
                }
            },
            Err(pe) => Err(pe),
        }
    } else {
        Ok((left, i))
    }
}

/// What the `factor` rule yields at position `i`.
pub open spec fn spec_factor(tokens: Seq<Token>, i: int) -> Result<(Expr, int), ParseError>
    decreases tokens.len() - i, 3int,
{
    match spec_unary(tokens, i) {
        Ok((e, j)) => {
            if i <= j && j <= tokens.len() {
                spec_factor_rest(tokens, j, e)
            } else {
                Err(ParseError::UnexpectedToken)
            }
        },
        Err(pe) => Err(pe),
    }
}

/// The rest of a `term` after its first operand.
pub open spec fn spec_term_rest(tokens: Seq<Token>, i: int, left: Expr) -> Result<
    (Expr, int),
    ParseError,
>
    decreases tokens.len() - i, 4int,
{
    if !at_end(tokens, i) && is_term_op(tokens[i].token_type) {
        match spec_factor(tokens, i + 1) {
            Ok((right, j)) => {
                if i < j && j <= tokens.len() {
                    spec_term_rest(
                        tokens,
                        j,
                        Expr::Binary(Box::new(Binary { left, operator: tokens[i], right })),
                    )
                } else {
                    Err(ParseError::UnexpectedToken)
                }
            },
            Err(pe) => Err(pe),
        }
    } else {
        Ok((left, i))
    }
}

/// What the `term` rule yields at position `i`.
pub open spec fn spec_term(tokens: Seq<Token>, i: int) -> Result<(Expr, int), ParseError>
    decreases tokens.len() - i, 5int,
{
    match spec_factor(tokens, i) {
        Ok((e, j)) => {
            if i <= j && j <= tokens.len() {
                spec_term_rest(tokens, j, e)
            } else {
                Err(ParseError::UnexpectedToken)
            }
        },
        Err(pe) => Err(pe),
    }
}

/// The rest of a `comparison` after its first operand.
pub open spec fn spec_comparison_rest(tokens: Seq<Token>, i: int, left: Expr) -> Result<
    (Expr, int),
    ParseError,
>
    decreases tokens.len() - i, 6int,
{
    if !at_end(tokens, i) && is_comparison_op(tokens[i].token_type) {
        match spec_term(tokens, i + 1) {
            Ok((right, j)) => {
                if i < j && j <= tokens.len() {
                    spec_comparison_rest(
                        tokens,
                        j,
                        Expr::Binary(Box::new(Binary { left, operator: tokens[i], right })),
                    )
                } else {
                    Err(ParseError::UnexpectedToken)
                }
            },
            Err(pe) => Err(pe),
        }
    } else {
        Ok((left, i))
    }
}

/// What the `comparison` rule yields at position `i`.
pub open spec fn spec_comparison(tokens: Seq<Token>, i: int) -> Result<(Expr, int), ParseError>
    decreases tokens.len() - i, 7int,
{
    match spec_term(tokens, i) {
        Ok((e, j)) => {
            if i <= j && j <= tokens.len() {
                spec_comparison_rest(tokens, j, e)
            } else {
                Err(ParseError::UnexpectedToken)
            }
        },
        Err(pe) => Err(pe),
    }
}

/// The rest of an `equality` after its first operand.
pub open spec fn spec_equality_rest(tokens: Seq<Token>, i: int, left: Expr) -> Result<
    (Expr, int),
    ParseError,
>
    decreases tokens.len() - i, 8int,
{
    if !at_end(tokens, i) && is_equality_op(tokens[i].token_type) {
        match spec_comparison(tokens, i + 1) {
            Ok((right, j)) => {
                if i < j && j <= tokens.len() {
                    spec_equality_rest(
                        tokens,
                        j,
                        Expr::Binary(Box::new(Binary { left, operator: tokens[i], right })),
                    )
                } else {
                    Err(ParseError::UnexpectedToken)
                }
            },
            Err(pe) => Err(pe),
        }
    } else {
        Ok((left, i))
    }
}

/// What the `equality` rule yields at position `i`.
pub open spec fn spec_equality(tokens: Seq<Token>, i: int) -> Result<(Expr, int), ParseError>
    decreases tokens.len() - i, 9int,
{
    match spec_comparison(tokens, i) {
        Ok((e, j)) => {
            if i <= j && j <= tokens.len() {
                spec_equality_rest(tokens, j, e)
            } else {
                Err(ParseError::UnexpectedToken)
            }
        },
        Err(pe) => Err(pe),
    }
}

/// What the topmost `expression` rule yields at position `i`.
pub open spec fn spec_expression(tokens: Seq<Token>, i: int) -> Result<(Expr, int), ParseError>
    decreases tokens.len() - i, 10int,
{
    spec_equality(tokens, i)
}

/// The error returned when an input fails to parse.
pub open spec fn parse_error_msg(file: Seq<char>) -> Seq<char> {
    "syntax error encountered in "@ + file
}

/// The parser's state: the token sequence and the index of the token under
/// consideration.
pub struct Parser {
    pub tokens: Vec<Token>,  // the input tokens to parse
    pub cur: usize,          // which token index we're currently looking at
}

impl Parser {
    /// The parser's invariant: the index never passes the end of the tokens.
    pub open spec fn wf(&self) -> bool {
        self.cur <= self.tokens@.len()
    }

    /// The token sequence this parser walks.
    pub open spec fn toks(&self) -> Seq<Token> {
        self.tokens@
    }

    /// The index of the token under consideration.
    pub open spec fn at(&self) -> int {
        self.cur as int
    }

    /// Create a parser positioned on the first token.
    pub fn new(tokens: Vec<Token>) -> (p: Parser)
        ensures
            p.wf(),
            p.toks() == tokens@,
            p.at() == 0,
    {
        Parser { tokens, cur: 0 }
    }

    /// Whether we've reached the end of the token list.
    fn finished(&self) -> (r: bool)
        requires
            self.wf(),
        ensures
            r == at_end(self.toks(), self.at()),
    {
        self.cur >= self.tokens.len() || self.tokens[self.cur].token_type == TokenType::EOF
    }

    /// Consume the current token, unless we're at the end.
    fn advance(&mut self)
        requires
            old(self).wf(),
        ensures
            final(self).wf(),
            final(self).tokens == old(self).tokens,
            at_end(old(self).toks(), old(self).at()) ==> final(self).cur == old(self).cur,
            !at_end(old(self).toks(), old(self).at()) ==> final(self).cur == old(self).cur + 1,
    {
        if !self.finished() {
            let n: usize = self.tokens.len();
            proof {
                assert(self.cur < n);
            }
            self.cur = self.cur + 1;
        }
    }

    /// Check if the current token is a given type.
    fn check(&self, token_type: TokenType) -> (r: bool)
        requires
            self.wf(),
        ensures
            r == (!at_end(self.toks(), self.at()) && self.toks()[self.at()].token_type
                == token_type),
    {
        if self.finished() {
            return false;
        }
        self.tokens[self.cur].token_type == token_type
    }

    /// Check if the current token is any of the given types and consume it if
    /// so.
    #[verifier::loop_isolation(false)]
    fn match_types(&mut self, token_types: &Vec<TokenType>) -> (r: bool)
        requires
            old(self).wf(),
        ensures
            final(self).wf(),
            final(self).tokens == old(self).tokens,
            r == (!at_end(old(self).toks(), old(self).at()) && token_types@.contains(
                old(self).toks()[old(self).at()].token_type,
            )),
            r ==> final(self).cur == old(self).cur + 1,
            !r ==> final(self).cur == old(self).cur,
    {
        let mut i: usize = 0;
        while i < token_types.len()
            invariant
                self == old(self),
                self.wf(),
                i <= token_types@.len(),
                forall|k: int|
                    0 <= k < i ==> !(!at_end(self.toks(), self.at()) && self.toks()[self.at()].token_type
                        == token_types@[k]),
            decreases token_types@.len() - i,
        {
            if self.check(token_types[i]) {
                proof {
                    assert(token_types@.contains(self.toks()[self.at()].token_type));
                }
                self.advance();
                return true;
            }
            i = i + 1;
        }
        proof {
            if !at_end(self.toks(), self.at()) && token_types@.contains(
                self.toks()[self.at()].token_type,
            ) {
                let k = choose|k: int|
                    0 <= k < token_types@.len() && token_types@[k] == self.toks()[self.at()].token_type;
                assert(false);
            }
        }
        false
    }

    /// The token just consumed.
    fn previous(&self) -> (t: Token)
        requires
            self.wf(),
            1 <= self.cur,
        ensures
            t == self.toks()[self.at() - 1],
    {
        self.tokens[self.cur - 1].clone()
    }

    // Grammar rules
    // -------------

    /// The topmost grammar rule for expressions.
    pub fn expression(&mut self) -> (r: Result<Expr, ParseError>)
        requires
            old(self).wf(),
        ensures
            final(self).wf(),
            final(self).tokens == old(self).tokens,
            (match spec_expression(old(self).toks(), old(self).at()) {
                Ok((e, j)) => r == Ok::<Expr, ParseError>(e) && final(self).at() == j,
                Err(pe) => r == Err::<Expr, ParseError>(pe),
            }),
            r is Ok ==> old(self).cur < final(self).cur,
        decreases self.tokens@.len() - self.cur, 10int,
    {
        self.equality()
    }

    /// The grammar rule for equality expressions.
    #[verifier::loop_isolation(false)]
    fn equality(&mut self) -> (r: Result<Expr, ParseError>)
        requires
            old(self).wf(),
        ensures
            final(self).wf(),
            final(self).tokens == old(self).tokens,
            (match spec_equality(old(self).toks(), old(self).at()) {
                Ok((e, j)) => r == Ok::<Expr, ParseError>(e) && final(self).at() == j,
                Err(pe) => r == Err::<Expr, ParseError>(pe),
            }),
            r is Ok ==> old(self).cur < final(self).cur,
        decreases self.tokens@.len() - self.cur, 9int,
    {
        let mut types: Vec<TokenType> = Vec::new();
        types.push(TokenType::BangEquals);
        types.push(TokenType::EqualsEquals);
        let mut expr = match self.comparison() {
            Ok(e) => e,
            Err(pe) => {
                return Err(pe);
            },
        };
        loop
            invariant
                self.wf(),
                self.tokens == old(self).tokens,
                old(self).cur < self.cur,
                types@ =~= seq![TokenType::BangEquals, TokenType::EqualsEquals],
                spec_equality_rest(self.toks(), self.at(), expr) == spec_equality(
                    old(self).toks(),
                    old(self).at(),
                ),
            decreases self.tokens@.len() - self.cur,
        {
            proof {
                assert(forall|t: TokenType| types@.contains(t) <==> is_equality_op(t)) by {
                    assert(types@[0] == TokenType::BangEquals);
                    assert(types@[1] == TokenType::EqualsEquals);
                }
            }
            if !self.match_types(&types) {
                return Ok(expr);
            }
            let operator = self.previous();
            let right = match self.comparison() {
                Ok(e) => e,
                Err(pe) => {
                    return Err(pe);
                },
            };
            expr = Binary::new(expr, operator, right);
        }
    }

    /// The grammar rule for comparison expressions.
    #[verifier::loop_isolation(false)]
    fn comparison(&mut self) -> (r: Result<Expr, ParseError>)
        requires
            old(self).wf(),
        ensures
            final(self).wf(),
            final(self).tokens == old(self).tokens,
            (match spec_comparison(old(self).toks(), old(self).at()) {
                Ok((e, j)) => r == Ok::<Expr, ParseError>(e) && final(self).at() == j,
                Err(pe) => r == Err::<Expr, ParseError>(pe),
            }),
            r is Ok ==> old(self).cur < final(self).cur,
        decreases self.tokens@.len() - self.cur, 7int,
    {
        let mut types: Vec<TokenType> = Vec::new();
        types.push(TokenType::RightAngle);
        types.push(TokenType::LeftAngle);
        types.push(TokenType::GreaterOrEquals);
        types.push(TokenType::LessOrEquals);
        let mut expr = match self.term() {
            Ok(e) => e,
            Err(pe) => {
                return Err(pe);
            },
        };
        loop
            invariant
                self.wf(),
                self.tokens == old(self).tokens,
                old(self).cur < self.cur,
                types@ =~= seq![
                    TokenType::RightAngle,
                    TokenType::LeftAngle,
                    TokenType::GreaterOrEquals,
                    TokenType::LessOrEquals,
                ],
                spec_comparison_rest(self.toks(), self.at(), expr) == spec_comparison(
                    old(self).toks(),
                    old(self).at(),
                ),
            decreases self.tokens@.len() - self.cur,
        {
            proof {
                assert(forall|t: TokenType| types@.contains(t) <==> is_comparison_op(t)) by {
                    assert(types@[0] == TokenType::RightAngle);
                    assert(types@[1] == TokenType::LeftAngle);
                    assert(types@[2] == TokenType::GreaterOrEquals);
                    assert(types@[3] == TokenType::LessOrEquals);
                }
            }
            if !self.match_types(&types) {
                return Ok(expr);
            }
            let operator = self.previous();
            let right = match self.term() {
                Ok(e) => e,
                Err(pe) => {
                    return Err(pe);
                },
            };
            expr = Binary::new(expr, operator, right);
        }
    }

    /// The grammar rule for term expressions.
    #[verifier::loop_isolation(false)]
    fn term(&mut self) -> (r: Result<Expr, ParseError>)
        requires
            old(self).wf(),
        ensures
            final(self).wf(),
            final(self).tokens == old(self).tokens,
            (match spec_term(old(self).toks(), old(self).at()) {
                Ok((e, j)) => r == Ok::<Expr, ParseError>(e) && final(self).at() == j,
                Err(pe) => r == Err::<Expr, ParseError>(pe),
            }),
            r is Ok ==> old(self).cur < final(self).cur,
        decreases self.tokens@.len() - self.cur, 5int,
    {
        let mut types: Vec<TokenType> = Vec::new();
        types.push(TokenType::Minus);
        types.push(TokenType::Plus);
        let mut expr = match self.factor() {
            Ok(e) => e,
            Err(pe) => {
                return Err(pe);
            },
        };
        loop
            invariant
                self.wf(),
                self.tokens == old(self).tokens,
                old(self).cur < self.cur,
                types@ =~= seq![TokenType::Minus, TokenType::Plus],
                spec_term_rest(self.toks(), self.at(), expr) == spec_term(
                    old(self).toks(),
                    old(self).at(),
                ),
            decreases self.tokens@.len() - self.cur,
        {
            proof {
                assert(forall|t: TokenType| types@.contains(t) <==> is_term_op(t)) by {
                    assert(types@[0] == TokenType::Minus);
                    assert(types@[1] == TokenType::Plus);
                }
            }
            if !self.match_types(&types) {
                return Ok(expr);
            }
            let operator = self.previous();
            let right = match self.factor() {
                Ok(e) => e,
                Err(pe) => {
                    return Err(pe);
                },
            };
            expr = Binary::new(expr, operator, right);
        }
    }

    /// The grammar rule for factor expressions.
    #[verifier::loop_isolation(false)]
    fn factor(&mut self) -> (r: Result<Expr, ParseError>)
        requires
            old(self).wf(),
        ensures
            final(self).wf(),
            final(self).tokens == old(self).tokens,
            (match spec_factor(old(self).toks(), old(self).at()) {
                Ok((e, j)) => r == Ok::<Expr, ParseError>(e) && final(self).at() == j,
                Err(pe) => r == Err::<Expr, ParseError>(pe),
            }),
            r is Ok ==> old(self).cur < final(self).cur,
        decreases self.tokens@.len() - self.cur, 3int,
    {
        let mut types: Vec<TokenType> = Vec::new();
        types.push(TokenType::Star);
        types.push(TokenType::Slash);
        let mut expr = match self.unary() {
            Ok(e) => e,
            Err(pe) => {
                return Err(pe);
            },
        };
        loop
            invariant
                self.wf(),
                self.tokens == old(self).tokens,
                old(self).cur < self.cur,
                types@ =~= seq![TokenType::Star, TokenType::Slash],
                spec_factor_rest(self.toks(), self.at(), expr) == spec_factor(
                    old(self).toks(),
                    old(self).at(),
                ),
            decreases self.tokens@.len() - self.cur,
        {
            proof {
                assert(forall|t: TokenType| types@.contains(t) <==> is_factor_op(t)) by {
                    assert(types@[0] == TokenType::Star);
                    assert(types@[1] == TokenType::Slash);
                }
            }
            if !self.match_types(&types) {
                return Ok(expr);
            }
            let operator = self.previous();
            let right = match self.unary() {
                Ok(e) => e,
                Err(pe) => {
                    return Err(pe);
                },
            };
            expr = Binary::new(expr, operator, right);
        }
    }

    /// The grammar rule for unary expressions.
    fn unary(&mut self) -> (r: Result<Expr, ParseError>)
        requires
            old(self).wf(),
        ensures
            final(self).wf(),
            final(self).tokens == old(self).tokens,
            (match spec_unary(old(self).toks(), old(self).at()) {
                Ok((e, j)) => r == Ok::<Expr, ParseError>(e) && final(self).at() == j,
                Err(pe) => r == Err::<Expr, ParseError>(pe),
            }),
            r is Ok ==> old(self).cur < final(self).cur,
        decreases self.tokens@.len() - self.cur, 1int,
    {
        let mut types: Vec<TokenType> = Vec::new();
        types.push(TokenType::Bang);
        types.push(TokenType::Minus);
        proof {
            assert(forall|t: TokenType| types@.contains(t) <==> is_unary_op(t)) by {
                assert(types@[0] == TokenType::Bang);
                assert(types@[1] == TokenType::Minus);
            }
        }
        if self.match_types(&types) {
            let operator = self.previous();
            let right = match self.unary() {
                Ok(e) => e,
                Err(pe) => {
                    return Err(pe);
                },
            };
            return Ok(Unary::new(operator, right));
        }
        self.primary()
    }

    /// The grammar rule for primary expressions.
    fn primary(&mut self) -> (r: Result<Expr, ParseError>)
        requires
            old(self).wf(),
        ensures
            final(self).wf(),
            final(self).tokens == old(self).tokens,
            (match spec_primary(old(self).toks(), old(self).at()) {
                Ok((e, j)) => r == Ok::<Expr, ParseError>(e) && final(self).at() == j,
                Err(pe) => r == Err::<Expr, ParseError>(pe),
            }),
            r is Ok ==> old(self).cur < final(self).cur,
        decreases self.tokens@.len() - self.cur, 0int,
    {
        let mut types: Vec<TokenType> = Vec::new();
        types.push(TokenType::Underscore);
        types.push(TokenType::Int);
        types.push(TokenType::Float);
        types.push(TokenType::Char);
        types.push(TokenType::String);
        types.push(TokenType::FormString);
        proof {
            assert(forall|t: TokenType| types@.contains(t) <==> is_literal_kind(t)) by {
                assert(types@[0] == TokenType::Underscore);
                assert(types@[1] == TokenType::Int);
                assert(types@[2] == TokenType::Float);
                assert(types@[3] == TokenType::Char);
                assert(types@[4] == TokenType::String);
                assert(types@[5] == TokenType::FormString);
            }
        }
        if self.match_types(&types) {
            return Ok(Literal::new(self.previous()));
        }
        if self.check(TokenType::LeftParen) {
            self.advance();
            let expr = match self.expression() {
                Ok(e) => e,
                Err(pe) => {
                    return Err(pe);
                },
            };
            if self.check(TokenType::RightParen) {
                self.advance();
                return Ok(Grouping::new(expr));
            }
            return Err(ParseError::MissingRightParen);
        }
        Err(ParseError::UnexpectedToken)
    }
}

/// Parse tokens into an expression tree. On any parse failure the caller gets
/// one coarse syntax-error message.
pub fn parse(tokens: Vec<Token>, file_path: &String) -> (r: Result<Expr, String>)
    ensures
        (match spec_expression(tokens@, 0) {
            Ok((e, j)) => r == Ok::<Expr, String>(e),
            Err(_) => r is Err && r->Err_0@ == parse_error_msg(file_path@),
        }),
        r is Ok ==> r->Ok_0.well_formed(),
{
    proof {
        lemma_parse_well_formed(tokens@);
    }
    let mut parser: Parser = Parser::new(tokens);
    match parser.expression() {
        Ok(res) => Ok(res),
        Err(_) => Err(String::from_str("syntax error encountered in ").concat(file_path.as_str())),
    }
}

// Laws
// ----

/// Every tree the grammar yields is well formed: no operator token of a node
/// is an end-of-file marker, and every literal wraps a literal kind or the
/// wildcard.
pub proof fn lemma_parse_well_formed(tokens: Seq<Token>)
    ensures
        spec_expression(tokens, 0) matches Ok(r) ==> r.0.well_formed(),
{
    lemma_equality_wf(tokens, 0);
}

proof fn lemma_primary_wf(tokens: Seq<Token>, i: int)
    ensures
        spec_primary(tokens, i) matches Ok(r) ==> r.0.well_formed(),
    decreases tokens.len() - i, 0int,
{
    if !at_end(tokens, i) && is_literal_kind(tokens[i].token_type) {
    } else if !at_end(tokens, i) && tokens[i].token_type == TokenType::LeftParen {
        lemma_equality_wf(tokens, i + 1);
    }
}

proof fn lemma_unary_wf(tokens: Seq<Token>, i: int)
    ensures
        spec_unary(tokens, i) matches Ok(r) ==> r.0.well_formed(),
    decreases tokens.len() - i, 1int,
{
    if !at_end(tokens, i) && is_unary_op(tokens[i].token_type) {
        lemma_unary_wf(tokens, i + 1);
    } else {
        lemma_primary_wf(tokens, i);
    }
}

proof fn lemma_factor_rest_wf(tokens: Seq<Token>, i: int, left: Expr)
    requires
        left.well_formed(),
    ensures
        spec_factor_rest(tokens, i, left) matches Ok(r) ==> r.0.well_formed(),
    decreases tokens.len() - i, 2int,
{
    if !at_end(tokens, i) && is_factor_op(tokens[i].token_type) {
        lemma_unary_wf(tokens, i + 1);
        match spec_unary(tokens, i + 1) {
            Ok((right, j)) => {
                if i < j && j <= tokens.len() {
                    lemma_factor_rest_wf(
                        tokens,
                        j,
                        Expr::Binary(Box::new(Binary { left, operator: tokens[i], right })),
                    );
                }
            },
            Err(_) => {},
        }
    }
}

proof fn lemma_factor_wf(tokens: Seq<Token>, i: int)
    ensures
        spec_factor(tokens, i) matches Ok(r) ==> r.0.well_formed(),
    decreases tokens.len() - i, 3int,
{
    lemma_unary_wf(tokens, i);
    match spec_unary(tokens, i) {
        Ok((e, j)) => {
            if i <= j && j <= tokens.len() {
                lemma_factor_rest_wf(tokens, j, e);
            }
        },
        Err(_) => {},
    }
}

proof fn lemma_term_rest_wf(tokens: Seq<Token>, i: int, left: Expr)
    requires
        left.well_formed(),
    ensures
        spec_term_rest(tokens, i, left) matches Ok(r) ==> r.0.well_formed(),
    decreases tokens.len() - i, 4int,
{
    if !at_end(tokens, i) && is_term_op(tokens[i].token_type) {
        lemma_factor_wf(tokens, i + 1);
        match spec_factor(tokens, i + 1) {
            Ok((right, j)) => {
                if i < j && j <= tokens.len() {
                    lemma_term_rest_wf(
                        tokens,
                        j,
                        Expr::Binary(Box::new(Binary { left, operator: tokens[i], right })),
                    );
                }
            },
            Err(_) => {},
        }
    }
}

proof fn lemma_term_wf(tokens: Seq<Token>, i: int)
    ensures
        spec_term(tokens, i) matches Ok(r) ==> r.0.well_formed(),
    decreases tokens.len() - i, 5int,
{
    lemma_factor_wf(tokens, i);
    match spec_factor(tokens, i) {
        Ok((e, j)) => {
            if i <= j && j <= tokens.len() {
                lemma_term_rest_wf(tokens, j, e);
            }
        },
        Err(_) => {},
    }
}

proof fn lemma_comparison_rest_wf(tokens: Seq<Token>, i: int, left: Expr)
    requires
        left.well_formed(),
    ensures
        spec_comparison_rest(tokens, i, left) matches Ok(r) ==> r.0.well_formed(),
    decreases tokens.len() - i, 6int,
{
    if !at_end(tokens, i) && is_comparison_op(tokens[i].token_type) {
        lemma_term_wf(tokens, i + 1);
        match spec_term(tokens, i + 1) {
            Ok((right, j)) => {
                if i < j && j <= tokens.len() {
                    lemma_comparison_rest_wf(
                        tokens,
                        j,
                        Expr::Binary(Box::new(Binary { left, operator: tokens[i], right })),
                    );
                }
            },
            Err(_) => {},
        }
    }
}

proof fn lemma_comparison_wf(tokens: Seq<Token>, i: int)
    ensures
        spec_comparison(tokens, i) matches Ok(r) ==> r.0.well_formed(),
    decreases tokens.len() - i, 7int,
{
    lemma_term_wf(tokens, i);
    match spec_term(tokens, i) {
        Ok((e, j)) => {
            if i <= j && j <= tokens.len() {
                lemma_comparison_rest_wf(tokens, j, e);
            }
        },
        Err(_) => {},
    }
}

proof fn lemma_equality_rest_wf(tokens: Seq<Token>, i: int, left: Expr)
    requires
        left.well_formed(),
    ensures
        spec_equality_rest(tokens, i, left) matches Ok(r) ==> r.0.well_formed(),
    decreases tokens.len() - i, 8int,
{
    if !at_end(tokens, i) && is_equality_op(tokens[i].token_type) {
        lemma_comparison_wf(tokens, i + 1);
        match spec_comparison(tokens, i + 1) {
            Ok((right, j)) => {
                if i < j && j <= tokens.len() {
                    lemma_equality_rest_wf(
                        tokens,
                        j,
                        Expr::Binary(Box::new(Binary { left, operator: tokens[i], right })),
                    );
                }
            },
            Err(_) => {},
        }
    }
}

proof fn lemma_equality_wf(tokens: Seq<Token>, i: int)
    ensures
        spec_equality(tokens, i) matches Ok(r) ==> r.0.well_formed(),
    decreases tokens.len() - i, 9int,
{
    lemma_comparison_wf(tokens, i);
    match spec_comparison(tokens, i) {
        Ok((e, j)) => {
            if i <= j && j <= tokens.len() {
                lemma_equality_rest_wf(tokens, j, e);
            }
        },
        Err(_) => {},
    }
}

} // verus!
