//! Tree-walking evaluator for the expression language.
//!
//! `ASTEvaluator` is the visitor over the tree: it keeps one piece of
//! state, the value of the last node visited, and folds a statement to a
//! single 64-bit integer. Its visit methods require the tree to evaluate
//! without a fault (`eval_defined`); beside them, `evaluate_expression`
//! and `Ast::evaluate` check every step with checked arithmetic and
//! return `None` exactly where a division by zero or an overflow would
//! fault, so they can be called on any tree.

use crate::ast::ASTBinaryOperatorKind;
use crate::ast::ASTExpression;
use crate::ast::ASTStatement;
use crate::ast::Ast;
use crate::ast::eval_defined;
use crate::ast::eval_expr;
use crate::ast::statement_expr;
use vstd::prelude::*;

verus! {

/// The evaluator: a visitor holding the value of the last node visited.
pub struct ASTEvaluator {
    pub last_value: Option<i64>,
}

impl ASTEvaluator {
    /// Creates an evaluator that has not visited anything yet.
    pub fn new() -> (r: Self)
        ensures
            r.last_value is None,
    {
        ASTEvaluator { last_value: None }
    }

    /// Visits a number literal: its value becomes the current state.
    pub fn visit_number(&mut self, value: i64)
        ensures
            final(self).last_value == Some(value),
    {
        self.last_value = Some(value);
    }

    /// Visits a binary node: evaluates the left child, then the right,
    /// then combines the two values with the node's operator.
    pub fn visit_binary_expression(&mut self, expr: &ASTExpression)
        requires
            expr is Binary,
            eval_defined(*expr),
        ensures
            final(self).last_value matches Some(v) && v as int == eval_expr(*expr),
        decreases *expr, 0int,
    {
        match expr {
            ASTExpression::Binary { operator, left, right } => {
                self.visit_expression(left);
                let l = self.last_value.unwrap();
                self.visit_expression(right);
                let r = self.last_value.unwrap();
                let value = match operator.kind {
                    ASTBinaryOperatorKind::Plus => l + r,
                    ASTBinaryOperatorKind::Minus => l - r,
                    ASTBinaryOperatorKind::Multiply => l * r,
                    ASTBinaryOperatorKind::Divide => l.checked_div(r).unwrap(),
                };
                self.last_value = Some(value);
            },
            _ => {
                proof {
                    assert(false);
                }
            },
        }
    }

    /// Visits any expression, dispatching on its variant; a parenthesized
    /// node is transparent, its inner expression is visited directly.
    pub fn visit_expression(&mut self, expr: &ASTExpression)
        requires
            eval_defined(*expr),
        ensures
            final(self).last_value matches Some(v) && v as int == eval_expr(*expr),
        decreases *expr, 1int,
    {
        match expr {
            ASTExpression::Number { value } => self.visit_number(*value),
            ASTExpression::Binary { .. } => self.visit_binary_expression(expr),
            ASTExpression::Parenthesized { inner } => self.visit_expression(inner),
        }
    }

    /// Visits a statement: its expression is evaluated into the state.
    pub fn visit_statement(&mut self, statement: &ASTStatement)
        requires
            eval_defined(statement_expr(*statement)),
        ensures
            final(self).last_value matches Some(v) && v as int == eval_expr(
                statement_expr(*statement),
            ),
    {
        match statement {
            ASTStatement::Expression(expr) => self.visit_expression(expr),
        }
    }
}

/// Evaluates an expression with every step checked: returns its value
/// exactly when the evaluation faults nowhere, and `None` on the first
/// division by zero or result outside the `i64` range.
pub fn evaluate_expression(expr: &ASTExpression) -> (r: Option<i64>)
    ensures
        eval_defined(*expr) ==> (r matches Some(v) && v as int == eval_expr(*expr)),
        !eval_defined(*expr) ==> r is None,
    decreases *expr,
{
    match expr {
        ASTExpression::Number { value } => Some(*value),
        ASTExpression::Binary { operator, left, right } => {
            let l = match evaluate_expression(left) {
                Some(v) => v,
                None => {
                    return None;
                },
            };
            let r = match evaluate_expression(right) {
                Some(v) => v,
                None => {
                    return None;
                },
            };
            match operator.kind {
                ASTBinaryOperatorKind::Plus => l.checked_add(r),
                ASTBinaryOperatorKind::Minus => l.checked_sub(r),
                ASTBinaryOperatorKind::Multiply => l.checked_mul(r),
                ASTBinaryOperatorKind::Divide => l.checked_div(r),
            }
        },
        ASTExpression::Parenthesized { inner } => evaluate_expression(inner),
    }
}

/// Evaluates a statement with every step checked, as
/// `evaluate_expression` does for its expression.
pub fn evaluate_statement(statement: &ASTStatement) -> (r: Option<i64>)
    ensures
        eval_defined(statement_expr(*statement)) ==> (r matches Some(v) && v as int == eval_expr(
            statement_expr(*statement),
        )),
        !eval_defined(statement_expr(*statement)) ==> r is None,
{
    match statement {
        ASTStatement::Expression(expr) => evaluate_expression(expr),
    }
}

impl Ast {
    /// Visits every statement in order with the given evaluator; after the
    /// last one, the evaluator's state holds that statement's value. With
    /// no statements the evaluator is left untouched.
    pub fn visit(&self, evaluator: &mut ASTEvaluator)
        requires
            forall|i: int|
                0 <= i < self.statements@.len() ==> eval_defined(
                    statement_expr(#[trigger] self.statements@[i]),
                ),
        ensures
            self.statements@.len() == 0 ==> *final(evaluator) == *old(evaluator),
            self.statements@.len() > 0 ==> (final(evaluator).last_value matches Some(v) && v
                as int == eval_expr(statement_expr(self.statements@.last()))),
    {
        let ghost initial = *evaluator;
        let mut i: usize = 0;
        while i < self.statements.len()
            invariant
                i <= self.statements@.len(),
                forall|j: int|
                    0 <= j < self.statements@.len() ==> eval_defined(
                        statement_expr(#[trigger] self.statements@[j]),
                    ),
                i == 0 ==> *evaluator == initial,
                i > 0 ==> (evaluator.last_value matches Some(v) && v as int == eval_expr(
                    statement_expr(self.statements@[i - 1]),
                )),
            decreases self.statements@.len() - i,
        {
            evaluator.visit_statement(&self.statements[i]);
            i = i + 1;
        }
    }

    /// Evaluates every statement in order with every step checked: the
    /// value of the last statement exactly when there is at least one
    /// statement and none of them faults, and `None` otherwise.
    pub fn evaluate(&self) -> (r: Option<i64>)
        ensures
            ({
                let stmts = self.statements@;
                if stmts.len() > 0 && (forall|i: int|
                    0 <= i < stmts.len() ==> eval_defined(statement_expr(#[trigger] stmts[i]))) {
                    r matches Some(v) && v as int == eval_expr(statement_expr(stmts.last()))
                } else {
                    r is None
                }
            }),
    {
        let mut result: Option<i64> = None;
        let mut i: usize = 0;
        while i < self.statements.len()
            invariant
                i <= self.statements@.len(),
                forall|j: int|
                    0 <= j < i ==> eval_defined(statement_expr(#[trigger] self.statements@[j])),
                i == 0 ==> result is None,
                i > 0 ==> (result matches Some(v) && v as int == eval_expr(
                    statement_expr(self.statements@[i - 1]),
                )),
            decreases self.statements@.len() - i,
        {
            match evaluate_statement(&self.statements[i]) {
                Some(v) => {
                    result = Some(v);
                },
                None => {
                    return None;
                },
            }
            i = i + 1;
        }
        result
    }
}

} // verus!
