//! Precedence-climbing parser for the expression language.
//!
//! The parser holds the token vector with whitespace already filtered out
//! and a cursor into it. `spec_parse_expr` is the mathematical parser the
//! executable one is proved equal to: a primary expression is a number or
//! a parenthesized expression; after a primary, operators of sufficient
//! precedence are consumed and their right-hand sides parsed at one tier
//! above the operator's own, which groups chains of equal precedence to
//! the left. Every failure is a `ParseError` carrying the character
//! position of the offending token; an unmatched opening parenthesis is
//! the `ExpectedRightParen` error rather than a silent absence, so a
//! caller can always tell a clean end of input from a malformed one.

use crate::ast::ASTBinaryOperator;
use crate::ast::ASTBinaryOperatorKind;
use crate::ast::ASTExpression;
use crate::ast::ASTStatement;
use crate::ast::operator_precedence;
use crate::ast::statement_expr;
use crate::lexer::Token;
use crate::lexer::TokenKind;
use vstd::prelude::*;

verus! {

/// Why a parse failed, with the character position of the token at fault.
#[derive(Clone, Copy, PartialEq, Eq, Structural, Debug)]
pub enum ParseError {
    /// The token at this position cannot start a primary expression.
    ExpectedExpression { position: usize },
    /// A parenthesized expression was not closed; the token at this
    /// position stands where `)` was required.
    ExpectedRightParen { position: usize },
    /// The token vector ran out without an `EOF` token to stop at.
    UnexpectedEnd,
}

/// The operator kind a token stands for, if any.
pub open spec fn token_operator(kind: TokenKind) -> Option<ASTBinaryOperatorKind> {
    match kind {
        TokenKind::Plus => Some(ASTBinaryOperatorKind::Plus),
        TokenKind::Minus => Some(ASTBinaryOperatorKind::Minus),
        TokenKind::Asterisk => Some(ASTBinaryOperatorKind::Multiply),
        TokenKind::Slash => Some(ASTBinaryOperatorKind::Divide),
        _ => None,
    }
}

/// The tokens that remain after discarding whitespace, in their original
/// order.
pub open spec fn without_whitespace(tokens: Seq<Token>) -> Seq<Token>
    decreases tokens.len(),
{
    if tokens.len() == 0 {
        Seq::empty()
    } else if tokens.first().kind == TokenKind::Whitespace {
        without_whitespace(tokens.drop_first())
    } else {
        seq![tokens.first()] + without_whitespace(tokens.drop_first())
    }
}

/// Discarding whitespace distributes over appending one token.
proof fn lemma_without_whitespace_push(tokens: Seq<Token>, t: Token)
    ensures
        without_whitespace(tokens.push(t)) == without_whitespace(tokens) + (if t.kind
            == TokenKind::Whitespace {
            Seq::<Token>::empty()
        } else {
            seq![t]
        }),
    decreases tokens.len(),
{
    let tail = (if t.kind == TokenKind::Whitespace {
        Seq::<Token>::empty()
    } else {
        seq![t]
    });
    if tokens.len() == 0 {
        assert(tokens.push(t).first() == t);
        assert(tokens.push(t).drop_first() =~= Seq::<Token>::empty());
        assert(without_whitespace(Seq::<Token>::empty()) =~= Seq::<Token>::empty());
        assert(without_whitespace(tokens.push(t)) =~= tail);
        assert(without_whitespace(tokens) + tail =~= tail);
    } else {
        assert(tokens.push(t).first() == tokens.first());
        assert(tokens.push(t).drop_first() =~= tokens.drop_first().push(t));
        lemma_without_whitespace_push(tokens.drop_first(), t);
        if tokens.first().kind != TokenKind::Whitespace {
            assert(seq![tokens.first()] + (without_whitespace(tokens.drop_first()) + tail) =~= (
            seq![tokens.first()] + without_whitespace(tokens.drop_first())) + tail);
        }
    }
}

/// The result of parsing one primary expression at `pos`: a number token
/// becomes a leaf, an opening parenthesis wraps a full expression that
/// must be closed by `)`, and anything else is an error. On success the
/// second component is the position just past what was consumed.
pub open spec fn spec_parse_primary(toks: Seq<Token>, pos: int) -> Result<
    (ASTExpression, int),
    ParseError,
>
    decreases toks.len() - pos, 0int,
{
    if !(0 <= pos < toks.len()) {
        Err(ParseError::UnexpectedEnd)
    } else {
        match toks[pos].kind {
            TokenKind::Number(value) => Ok((ASTExpression::Number { value }, pos + 1)),
            TokenKind::LeftParen => match spec_parse_binary(toks, pos + 1, 0) {
                Ok((inner, pos2)) => if !(0 <= pos2 < toks.len()) {
                    Err(ParseError::UnexpectedEnd)
                } else if toks[pos2].kind == TokenKind::RightParen {
                    Ok((ASTExpression::Parenthesized { inner: Box::new(inner) }, pos2 + 1))
                } else {
                    Err(ParseError::ExpectedRightParen { position: toks[pos2].span.start })
                },
                Err(e) => Err(e),
            },
            _ => Err(ParseError::ExpectedExpression { position: toks[pos].span.start }),
        }
    }
}

/// After `left` has been parsed up to `pos`, the result of consuming every
/// following operator of precedence at least `min_prec` together with its
/// right-hand side. Each right-hand side is parsed one tier above the
/// operator's own precedence, so operators of equal precedence group left
/// to right.
pub open spec fn spec_parse_rest(
    toks: Seq<Token>,
    pos: int,
    min_prec: int,
    left: ASTExpression,
) -> Result<(ASTExpression, int), ParseError>
    decreases toks.len() - pos, 2int,
{
    if !(0 <= pos < toks.len()) {
        Ok((left, pos))
    } else {
        match token_operator(toks[pos].kind) {
            None => Ok((left, pos)),
            Some(op_kind) => if operator_precedence(op_kind) < min_prec {
                Ok((left, pos))
            } else {
                match spec_parse_binary(toks, pos + 1, operator_precedence(op_kind) + 1) {
                    // The bound check keeps the recursion visibly
                    // decreasing; a successful parse always advances the
                    // position, so the other branch never holds.
                    Ok((right, pos2)) => if pos < pos2 <= toks.len() {
                        spec_parse_rest(
                            toks,
                            pos2,
                            min_prec,
                            ASTExpression::Binary {
                                operator: ASTBinaryOperator { kind: op_kind, token: toks[pos] },
                                left: Box::new(left),
                                right: Box::new(right),
                            },
                        )
                    } else {
                        Err(ParseError::UnexpectedEnd)
                    },
                    Err(e) => Err(e),
                }
            },
        }
    }
}

/// The result of parsing a full binary expression at `pos` with minimum
/// operator precedence `min_prec`: one primary expression, then the
/// operator chain.
pub open spec fn spec_parse_binary(toks: Seq<Token>, pos: int, min_prec: int) -> Result<
    (ASTExpression, int),
    ParseError,
>
    decreases toks.len() - pos, 1int,
{
    match spec_parse_primary(toks, pos) {
        // As in spec_parse_rest, the bound check only keeps the recursion
        // visibly decreasing.
        Ok((left, pos1)) => if pos < pos1 <= toks.len() {
            spec_parse_rest(toks, pos1, min_prec, left)
        } else {
            Err(ParseError::UnexpectedEnd)
        },
        Err(e) => Err(e),
    }
}

/// The result of parsing one whole expression starting at `pos`.
pub open spec fn spec_parse_expr(toks: Seq<Token>, pos: int) -> Result<
    (ASTExpression, int),
    ParseError,
> {
    spec_parse_binary(toks, pos, 0)
}

/// The parser: the token vector with whitespace removed, and a cursor.
pub struct Parser {
    pub tokens: Vec<Token>,
    pub current: usize,
}

impl Parser {
    /// The parser's cursor never stands past the end of its tokens.
    pub open spec fn wf(self) -> bool {
        self.current <= self.tokens@.len()
    }

    /// Creates a parser over the given tokens, discarding the whitespace
    /// tokens and keeping the rest in order.
    pub fn new(tokens: Vec<Token>) -> (p: Parser)
        ensures
            p.tokens@ == without_whitespace(tokens@),
            p.current == 0,
            p.wf(),
    {
        let mut filtered: Vec<Token> = Vec::new();
        let mut i: usize = 0;
        while i < tokens.len()
            invariant
                i <= tokens@.len(),
                filtered@ == without_whitespace(tokens@.subrange(0, i as int)),
            decreases tokens@.len() - i,
        {
            proof {
                assert(tokens@.subrange(0, i as int + 1) =~= tokens@.subrange(0, i as int).push(
                    tokens@[i as int],
                ));
                lemma_without_whitespace_push(tokens@.subrange(0, i as int), tokens@[i as int]);
            }
            let t = &tokens[i];
            if !(t.kind == TokenKind::Whitespace) {
                filtered.push(t.clone());
                proof {
                    assert(filtered@ =~= without_whitespace(tokens@.subrange(0, i as int + 1)));
                }
            }
            i = i + 1;
        }
        proof {
            assert(tokens@.subrange(0, tokens@.len() as int) =~= tokens@);
        }
        Parser { tokens: filtered, current: 0 }
    }

    /// Creates a parser from a vector of tokens; the same as `new`.
    pub fn from_tokens(tokens: Vec<Token>) -> (p: Parser)
        ensures
            p.tokens@ == without_whitespace(tokens@),
            p.current == 0,
            p.wf(),
    {
        Parser::new(tokens)
    }

    /// The token at the cursor, if the cursor is inside the tokens.
    fn current(&self) -> (r: Option<&Token>)
        ensures
            match r {
                Some(t) => self.current < self.tokens@.len() && *t == self.tokens@[
                    self.current as int
                ],
                None => self.current >= self.tokens@.len(),
            },
    {
        if self.current < self.tokens.len() {
            Some(&self.tokens[self.current])
        } else {
            None
        }
    }

    /// Consumes the token at the cursor and advances past it.
    fn consume(&mut self) -> (r: Option<Token>)
        ensures
            final(self).tokens == old(self).tokens,
            match r {
                Some(t) => old(self).current < old(self).tokens@.len() && t == old(self).tokens@[
                    old(self).current as int
                ] && final(self).current == old(self).current + 1,
                None => old(self).current >= old(self).tokens@.len() && final(self).current == old(
                    self,
                ).current,
            },
    {
        if self.current < self.tokens.len() {
            let t = self.tokens[self.current].clone();
            self.current = self.current + 1;
            Some(t)
        } else {
            None
        }
    }

    /// The operator the token at the cursor stands for, if it stands for
    /// one; the cursor does not move.
    fn parse_binary_operator(&self) -> (r: Option<ASTBinaryOperator>)
        ensures
            match r {
                Some(op) => self.current < self.tokens@.len() && token_operator(
                    self.tokens@[self.current as int].kind,
                ) == Some(op.kind) && op.token == self.tokens@[self.current as int],
                None => self.current >= self.tokens@.len() || token_operator(
                    self.tokens@[self.current as int].kind,
                ) is None,
            },
    {
        let token = match self.current() {
            Some(t) => t,
            None => {
                return None;
            },
        };
        match token.kind {
            TokenKind::Plus => Some(
                ASTBinaryOperator::new(ASTBinaryOperatorKind::Plus, token.clone()),
            ),
            TokenKind::Minus => Some(
                ASTBinaryOperator::new(ASTBinaryOperatorKind::Minus, token.clone()),
            ),
            TokenKind::Asterisk => Some(
                ASTBinaryOperator::new(ASTBinaryOperatorKind::Multiply, token.clone()),
            ),
            TokenKind::Slash => Some(
                ASTBinaryOperator::new(ASTBinaryOperatorKind::Divide, token.clone()),
            ),
            _ => None,
        }
    }

    /// Parses one primary expression: a number leaf, or a parenthesized
    /// expression that must be closed by `)`.
    fn parse_primary_expression(&mut self) -> (r: Result<ASTExpression, ParseError>)
        requires
            old(self).wf(),
        ensures
            final(self).tokens == old(self).tokens,
            final(self).wf(),
            match r {
                Ok(expr) => spec_parse_primary(old(self).tokens@, old(self).current as int) == Ok::<
                    _,
                    ParseError,
                >((expr, final(self).current as int)) && old(self).current < final(self).current,
                Err(e) => spec_parse_primary(old(self).tokens@, old(self).current as int)
                    == Err::<(ASTExpression, int), _>(e),
            },
        decreases self.tokens@.len() - self.current, 0int,
    {
        let token = match self.consume() {
            Some(t) => t,
            None => {
                return Err(ParseError::UnexpectedEnd);
            },
        };
        match token.kind {
            TokenKind::Number(value) => Ok(ASTExpression::number(value)),
            TokenKind::LeftParen => {
                let inner = match self.parse_expression() {
                    Ok(e) => e,
                    Err(e) => {
                        return Err(e);
                    },
                };
                let close = match self.consume() {
                    Some(t) => t,
                    None => {
                        return Err(ParseError::UnexpectedEnd);
                    },
                };
                if close.kind == TokenKind::RightParen {
                    Ok(ASTExpression::parenthesized(inner))
                } else {
                    Err(ParseError::ExpectedRightParen { position: close.span.start })
                }
            },
            _ => Err(ParseError::ExpectedExpression { position: token.span.start }),
        }
    }

    /// Parses a full expression.
    fn parse_expression(&mut self) -> (r: Result<ASTExpression, ParseError>)
        requires
            old(self).wf(),
        ensures
            final(self).tokens == old(self).tokens,
            final(self).wf(),
            match r {
                Ok(expr) => spec_parse_expr(old(self).tokens@, old(self).current as int) == Ok::<
                    _,
                    ParseError,
                >((expr, final(self).current as int)) && old(self).current < final(self).current,
                Err(e) => spec_parse_expr(old(self).tokens@, old(self).current as int)
                    == Err::<(ASTExpression, int), _>(e),
            },
        decreases self.tokens@.len() - self.current, 3int,
    {
        self.parse_binary_expression(0)
    }

    /// Parses a binary expression whose operators all have precedence at
    /// least `min_precedence`.
    fn parse_binary_expression(&mut self, min_precedence: u8) -> (r: Result<
        ASTExpression,
        ParseError,
    >)
        requires
            old(self).wf(),
        ensures
            final(self).tokens == old(self).tokens,
            final(self).wf(),
            match r {
                Ok(expr) => spec_parse_binary(
                    old(self).tokens@,
                    old(self).current as int,
                    min_precedence as int,
                ) == Ok::<_, ParseError>((expr, final(self).current as int)) && old(self).current
                    < final(self).current,
                Err(e) => spec_parse_binary(
                    old(self).tokens@,
                    old(self).current as int,
                    min_precedence as int,
                ) == Err::<(ASTExpression, int), _>(e),
            },
        decreases self.tokens@.len() - self.current, 1int,
    {
        let left = match self.parse_primary_expression() {
            Ok(e) => e,
            Err(e) => {
                return Err(e);
            },
        };
        self.parse_binary_rest(min_precedence, left)
    }

    /// Having parsed `left`, consumes every following operator of
    /// precedence at least `min_precedence` together with its right-hand
    /// side, folding the results onto `left` from the left.
    fn parse_binary_rest(&mut self, min_precedence: u8, left: ASTExpression) -> (r: Result<
        ASTExpression,
        ParseError,
    >)
        requires
            old(self).wf(),
        ensures
            final(self).tokens == old(self).tokens,
            final(self).wf(),
            match r {
                Ok(expr) => spec_parse_rest(
                    old(self).tokens@,
                    old(self).current as int,
                    min_precedence as int,
                    left,
                ) == Ok::<_, ParseError>((expr, final(self).current as int)) && old(self).current
                    <= final(self).current,
                Err(e) => spec_parse_rest(
                    old(self).tokens@,
                    old(self).current as int,
                    min_precedence as int,
                    left,
                ) == Err::<(ASTExpression, int), _>(e),
            },
        decreases self.tokens@.len() - self.current, 2int,
    {
        let operator = match self.parse_binary_operator() {
            Some(op) => op,
            None => {
                return Ok(left);
            },
        };
        let operator_prec = operator.precedence();
        if operator_prec < min_precedence {
            return Ok(left);
        }
        self.consume();
        let right = match self.parse_binary_expression(operator_prec + 1) {
            Ok(e) => e,
            Err(e) => {
                return Err(e);
            },
        };
        let combined = ASTExpression::binary(operator, left, right);
        self.parse_binary_rest(min_precedence, combined)
    }

    /// Parses one statement: a single expression.
    fn parse_statement(&mut self) -> (r: Result<ASTStatement, ParseError>)
        requires
            old(self).wf(),
        ensures
            final(self).tokens == old(self).tokens,
            final(self).wf(),
            match r {
                Ok(stmt) => spec_parse_expr(old(self).tokens@, old(self).current as int) == Ok::<
                    _,
                    ParseError,
                >((statement_expr(stmt), final(self).current as int)),
                Err(e) => spec_parse_expr(old(self).tokens@, old(self).current as int)
                    == Err::<(ASTExpression, int), _>(e),
            },
    {
        let expr = match self.parse_expression() {
            Ok(e) => e,
            Err(e) => {
                return Err(e);
            },
        };
        Ok(ASTStatement::expression(expr))
    }

    /// Parses the next statement. `Ok(None)` means a clean end of input:
    /// the cursor stands at the `EOF` token (or past every token).
    /// Otherwise the tokens at the cursor are parsed as one expression,
    /// yielding either its statement or the error that stopped it.
    pub fn next_statement(&mut self) -> (r: Result<Option<ASTStatement>, ParseError>)
        requires
            old(self).wf(),
        ensures
            final(self).tokens == old(self).tokens,
            final(self).wf(),
            ({
                let toks = old(self).tokens@;
                let p = old(self).current as int;
                match r {
                    Ok(opt) => match opt {
                        None => (p >= toks.len() || toks[p].kind == TokenKind::EOF) && *final(self)
                            == *old(self),
                        Some(stmt) => p < toks.len() && toks[p].kind != TokenKind::EOF
                            && spec_parse_expr(toks, p) == Ok::<_, ParseError>(
                            (statement_expr(stmt), final(self).current as int),
                        ),
                    },
                    Err(e) => p < toks.len() && toks[p].kind != TokenKind::EOF && spec_parse_expr(
                        toks,
                        p,
                    ) == Err::<(ASTExpression, int), _>(e),
                }
            }),
    {
        let at_end = match self.current() {
            None => true,
            Some(t) => t.kind == TokenKind::EOF,
        };
        if at_end {
            return Ok(None);
        }
        match self.parse_statement() {
            Ok(stmt) => Ok(Some(stmt)),
            Err(e) => Err(e),
        }
    }
}

} // verus!
