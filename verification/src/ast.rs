//! The abstract syntax tree of the expression language, and its meaning.
//!
//! An expression is a number literal, a binary operation, or a
//! parenthesized expression; each node exclusively owns its children, so
//! the tree has no sharing and no cycles. `eval_expr` gives every tree its
//! mathematical value over unbounded integers, and `eval_defined` says on
//! which trees a 64-bit evaluation runs without a fault: no division by
//! zero and no intermediate result outside the `i64` range.

use crate::lexer::Token;
use vstd::prelude::*;

verus! {

/// The four binary operators of the language.
#[derive(Clone, Copy, PartialEq, Eq, Structural, Debug)]
pub enum ASTBinaryOperatorKind {
    Plus,
    Minus,
    Multiply,
    Divide,
}

/// The precedence tier of an operator: multiplication and division bind
/// tighter than addition and subtraction.
pub open spec fn operator_precedence(kind: ASTBinaryOperatorKind) -> int {
    match kind {
        ASTBinaryOperatorKind::Plus => 1,
        ASTBinaryOperatorKind::Minus => 1,
        ASTBinaryOperatorKind::Multiply => 2,
        ASTBinaryOperatorKind::Divide => 2,
    }
}

/// A binary operator as it occurred in the source: its kind and the token
/// it came from.
#[derive(Debug)]
pub struct ASTBinaryOperator {
    pub kind: ASTBinaryOperatorKind,
    pub token: Token,
}

impl ASTBinaryOperator {
    /// Creates an operator node from its kind and originating token.
    pub fn new(kind: ASTBinaryOperatorKind, token: Token) -> (r: Self)
        ensures
            r.kind == kind,
            r.token == token,
    {
        ASTBinaryOperator { kind, token }
    }

    /// The operator's fixed precedence.
    pub fn precedence(&self) -> (p: u8)
        ensures
            p as int == operator_precedence(self.kind),
    {
        match self.kind {
            ASTBinaryOperatorKind::Plus => 1,
            ASTBinaryOperatorKind::Minus => 1,
            ASTBinaryOperatorKind::Multiply => 2,
            ASTBinaryOperatorKind::Divide => 2,
        }
    }
}

/// An expression: a number literal, a binary operation over two owned
/// subexpressions, or a parenthesized expression.
#[derive(Debug)]
pub enum ASTExpression {
    Number { value: i64 },
    Binary { operator: ASTBinaryOperator, left: Box<ASTExpression>, right: Box<ASTExpression> },
    Parenthesized { inner: Box<ASTExpression> },
}

impl ASTExpression {
    /// A number literal node.
    pub fn number(value: i64) -> (r: Self)
        ensures
            r == (ASTExpression::Number { value }),
    {
        ASTExpression::Number { value }
    }

    /// A binary node owning its two operands.
    pub fn binary(operator: ASTBinaryOperator, left: ASTExpression, right: ASTExpression) -> (r:
        Self)
        ensures
            r == (ASTExpression::Binary {
                operator,
                left: Box::new(left),
                right: Box::new(right),
            }),
    {
        ASTExpression::Binary { operator, left: Box::new(left), right: Box::new(right) }
    }

    /// A parenthesized node owning its inner expression.
    pub fn parenthesized(inner: ASTExpression) -> (r: Self)
        ensures
            r == (ASTExpression::Parenthesized { inner: Box::new(inner) }),
    {
        ASTExpression::Parenthesized { inner: Box::new(inner) }
    }
}

/// A statement; the only kind of statement is a single expression.
#[derive(Debug)]
pub enum ASTStatement {
    Expression(ASTExpression),
}

impl ASTStatement {
    /// A statement holding one expression.
    pub fn expression(expr: ASTExpression) -> (r: Self)
        ensures
            r == ASTStatement::Expression(expr),
    {
        ASTStatement::Expression(expr)
    }
}

/// The expression a statement consists of.
pub open spec fn statement_expr(stmt: ASTStatement) -> ASTExpression {
    match stmt {
        ASTStatement::Expression(expr) => expr,
    }
}

/// Integer division truncating toward zero, as the host's 64-bit division
/// does: the quotient of the absolute values, negated when the operands'
/// signs differ.
pub open spec fn trunc_div(x: int, d: int) -> int
    recommends
        d != 0,
{
    if x == 0 {
        0
    } else if x > 0 && d > 0 {
        x / d
    } else if x < 0 && d < 0 {
        (x * -1) / (d * -1)
    } else if x < 0 {
        ((x * -1) / d) * -1
    } else {
        (x / (d * -1)) * -1
    }
}

/// The value an operator combines two operands into, over unbounded
/// integers.
pub open spec fn operator_value(kind: ASTBinaryOperatorKind, l: int, r: int) -> int {
    match kind {
        ASTBinaryOperatorKind::Plus => l + r,
        ASTBinaryOperatorKind::Minus => l - r,
        ASTBinaryOperatorKind::Multiply => l * r,
        ASTBinaryOperatorKind::Divide => trunc_div(l, r),
    }
}

/// The mathematical value of an expression: literals stand for themselves,
/// parentheses are transparent, and a binary node combines the values of
/// its children with its operator.
pub open spec fn eval_expr(expr: ASTExpression) -> int
    decreases expr,
{
    match expr {
        ASTExpression::Number { value } => value as int,
        ASTExpression::Binary { operator, left, right } => operator_value(
            operator.kind,
            eval_expr(*left),
            eval_expr(*right),
        ),
        ASTExpression::Parenthesized { inner } => eval_expr(*inner),
    }
}

/// Whether evaluating the expression over 64-bit integers faults nowhere:
/// every divisor is non-zero and every binary node's result fits in an
/// `i64` (number literals fit by construction).
pub open spec fn eval_defined(expr: ASTExpression) -> bool
    decreases expr,
{
    match expr {
        ASTExpression::Number { value } => true,
        ASTExpression::Binary { operator, left, right } => {
            &&& eval_defined(*left)
            &&& eval_defined(*right)
            &&& (operator.kind == ASTBinaryOperatorKind::Divide ==> eval_expr(*right) != 0)
            &&& i64::MIN <= operator_value(operator.kind, eval_expr(*left), eval_expr(*right))
                <= i64::MAX
        },
        ASTExpression::Parenthesized { inner } => eval_defined(*inner),
    }
}

/// An ordered sequence of top-level statements, in source order.
#[derive(Debug)]
pub struct Ast {
    pub statements: Vec<ASTStatement>,
}

impl Ast {
    /// An empty tree, ready to receive statements.
    pub fn new() -> (r: Self)
        ensures
            r.statements@.len() == 0,
    {
        Ast { statements: Vec::new() }
    }

    /// Appends a statement, preserving the order of those already added.
    pub fn add_statement(&mut self, statement: ASTStatement)
        ensures
            final(self).statements@ == old(self).statements@.push(statement),
    {
        self.statements.push(statement);
    }
}

} // verus!
