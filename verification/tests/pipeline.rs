//! End-to-end tests for the lexer, parser, and evaluator.

use fusion_compiler::ast::ASTBinaryOperatorKind;
use fusion_compiler::ast::ASTExpression;
use fusion_compiler::ast::ASTStatement;
use fusion_compiler::ast::Ast;
use fusion_compiler::evaluator::ASTEvaluator;
use fusion_compiler::evaluator::evaluate_expression;
use fusion_compiler::lexer::Lexer;
use fusion_compiler::lexer::TextSpan;
use fusion_compiler::lexer::Token;
use fusion_compiler::lexer::TokenKind;
use fusion_compiler::lexer::tokenize;
use fusion_compiler::parser::ParseError;
use fusion_compiler::parser::Parser;

/// Runs the whole pipeline: lex, parse every statement, evaluate.
fn eval_str(input: &str) -> Result<Option<i64>, ParseError> {
    let tokens = tokenize(input);
    let mut parser = Parser::new(tokens);
    let mut ast = Ast::new();
    loop {
        match parser.next_statement() {
            Ok(Some(stmt)) => ast.add_statement(stmt),
            Ok(None) => break,
            Err(e) => return Err(e),
        }
    }
    Ok(ast.evaluate())
}

fn kinds_of(input: &str) -> Vec<TokenKind> {
    tokenize(input).iter().map(|t| t.kind).collect()
}

#[test]
fn lex_empty_yields_only_eof() {
    let tokens = tokenize("");
    assert_eq!(tokens.len(), 1);
    assert_eq!(tokens[0].kind, TokenKind::EOF);
    assert_eq!(tokens[0].span.start, 0);
    assert_eq!(tokens[0].span.end, 0);
    assert_eq!(tokens[0].span.literal, "\0");
}

#[test]
fn lex_round_trip_reproduces_input() {
    let input = "( 7  + 8) * 8 / 2";
    let tokens = tokenize(input);
    let rebuilt: String = tokens[..tokens.len() - 1]
        .iter()
        .map(|t| t.span.literal.as_str())
        .collect::<Vec<&str>>()
        .concat();
    assert_eq!(rebuilt, input);
}

#[test]
fn lex_round_trip_with_bad_characters() {
    let input = "12 + x?  34";
    let tokens = tokenize(input);
    let rebuilt: String = tokens[..tokens.len() - 1]
        .iter()
        .map(|t| t.span.literal.as_str())
        .collect::<Vec<&str>>()
        .concat();
    assert_eq!(rebuilt, input);
}

#[test]
fn lex_classifies_every_kind() {
    assert_eq!(
        kinds_of("12+-*/() z"),
        vec![
            TokenKind::Number(12),
            TokenKind::Plus,
            TokenKind::Minus,
            TokenKind::Asterisk,
            TokenKind::Slash,
            TokenKind::LeftParen,
            TokenKind::RightParen,
            TokenKind::Whitespace,
            TokenKind::Bad,
            TokenKind::EOF,
        ]
    );
}

#[test]
fn lex_number_is_maximal_digit_run() {
    let tokens = tokenize("123 45");
    assert_eq!(tokens[0].kind, TokenKind::Number(123));
    assert_eq!(tokens[0].span.start, 0);
    assert_eq!(tokens[0].span.end, 3);
    assert_eq!(tokens[0].span.literal, "123");
    assert_eq!(tokens[2].kind, TokenKind::Number(45));
}

#[test]
fn overlong_number_wraps_like_the_host() {
    // One past i64::MAX: the left-to-right accumulation wraps to i64::MIN.
    let tokens = tokenize("9223372036854775808");
    assert_eq!(tokens[0].kind, TokenKind::Number(i64::MIN));
}

#[test]
fn lex_whitespace_one_character_at_a_time() {
    let kinds = kinds_of("  ");
    assert_eq!(
        kinds,
        vec![TokenKind::Whitespace, TokenKind::Whitespace, TokenKind::EOF]
    );
}

#[test]
fn lexer_stops_after_eof() {
    let mut lexer = Lexer::new("7");
    let first = lexer.next_token().expect("number token");
    assert_eq!(first.kind, TokenKind::Number(7));
    let second = lexer.next_token().expect("eof token");
    assert_eq!(second.kind, TokenKind::EOF);
    assert!(lexer.next_token().is_none());
    assert!(lexer.next_token().is_none());
}

#[test]
fn text_span_length_counts_characters() {
    let span = TextSpan::new(3, 7, String::from("1234"));
    assert_eq!(span.length(), 4);
}

#[test]
fn token_new_keeps_kind_and_span() {
    let token = Token::new(TokenKind::Plus, TextSpan::new(0, 1, String::from("+")));
    assert_eq!(token.kind, TokenKind::Plus);
    assert_eq!(token.span.literal, "+");
}

#[test]
fn parser_filters_whitespace() {
    let parser = Parser::new(tokenize(" 1 + 2 "));
    assert_eq!(
        parser.tokens.iter().map(|t| t.kind).collect::<Vec<_>>(),
        vec![
            TokenKind::Number(1),
            TokenKind::Plus,
            TokenKind::Number(2),
            TokenKind::EOF,
        ]
    );
}

#[test]
fn parser_from_tokens_same_as_new() {
    let parser = Parser::from_tokens(tokenize("1"));
    assert_eq!(parser.tokens.len(), 2);
    assert_eq!(parser.current, 0);
}

#[test]
fn bare_number_parses_to_single_statement() {
    let mut parser = Parser::new(tokenize("42"));
    let stmt = parser.next_statement().expect("no error").expect("one statement");
    let ASTStatement::Expression(expr) = stmt;
    match expr {
        ASTExpression::Number { value } => assert_eq!(value, 42),
        other => panic!("expected a number leaf, got {:?}", other),
    }
    assert!(parser.next_statement().expect("no error").is_none());
    assert_eq!(eval_str("42"), Ok(Some(42)));
}

#[test]
fn precedence_multiplication_binds_tighter() {
    assert_eq!(eval_str("1 + 2 * 3"), Ok(Some(7)));
}

#[test]
fn precedence_tree_shape() {
    let mut parser = Parser::new(tokenize("1 + 2 * 3"));
    let stmt = parser.next_statement().expect("no error").expect("one statement");
    let ASTStatement::Expression(expr) = stmt;
    match expr {
        ASTExpression::Binary { operator, left, right } => {
            assert_eq!(operator.kind, ASTBinaryOperatorKind::Plus);
            assert_eq!(operator.token.kind, TokenKind::Plus);
            assert!(matches!(*left, ASTExpression::Number { value: 1 }));
            match *right {
                ASTExpression::Binary { ref operator, .. } => {
                    assert_eq!(operator.kind, ASTBinaryOperatorKind::Multiply);
                }
                ref other => panic!("expected multiplication on the right, got {:?}", other),
            }
        }
        other => panic!("expected addition at the root, got {:?}", other),
    }
}

#[test]
fn parentheses_override_precedence() {
    assert_eq!(eval_str("(1 + 2) * 3"), Ok(Some(9)));
}

#[test]
fn same_precedence_groups_left_to_right() {
    assert_eq!(eval_str("8 - 3 - 2"), Ok(Some(3)));
}

#[test]
fn division_chains_group_left_to_right() {
    assert_eq!(eval_str("100 / 5 / 2"), Ok(Some(10)));
}

#[test]
fn worked_example_evaluates_to_sixty() {
    assert_eq!(eval_str("( 7  + 8) * 8 / 2"), Ok(Some(60)));
}

#[test]
fn division_truncates() {
    assert_eq!(eval_str("7 / 2"), Ok(Some(3)));
}

#[test]
fn unmatched_paren_is_a_reported_error() {
    let mut parser = Parser::new(tokenize("(1 + 2"));
    let result = parser.next_statement();
    assert!(matches!(
        result,
        Err(ParseError::ExpectedRightParen { .. })
    ));
}

#[test]
fn wrong_closer_reports_its_position() {
    // The token standing where `)` was required is the `3` at offset 7.
    let mut parser = Parser::new(tokenize("(1 + 2 3"));
    match parser.next_statement() {
        Err(ParseError::ExpectedRightParen { position }) => assert_eq!(position, 7),
        other => panic!("expected a missing-parenthesis error, got {:?}", other),
    }
}

#[test]
fn bad_token_cannot_start_an_expression() {
    let mut parser = Parser::new(tokenize("1 @ 2"));
    let first = parser.next_statement().expect("no error").expect("statement");
    let ASTStatement::Expression(expr) = first;
    assert!(matches!(expr, ASTExpression::Number { value: 1 }));
    match parser.next_statement() {
        Err(ParseError::ExpectedExpression { position }) => assert_eq!(position, 2),
        other => panic!("expected an unparseable-token error, got {:?}", other),
    }
}

#[test]
fn dangling_operator_is_an_error() {
    let mut parser = Parser::new(tokenize("1 + "));
    assert!(matches!(
        parser.next_statement(),
        Err(ParseError::ExpectedExpression { .. })
    ));
}

#[test]
fn empty_input_has_no_statements() {
    let mut parser = Parser::new(tokenize(""));
    assert!(matches!(parser.next_statement(), Ok(None)));
    assert_eq!(eval_str(""), Ok(None));
}

#[test]
fn two_statements_keep_only_the_last_value() {
    assert_eq!(eval_str("1 2"), Ok(Some(2)));
}

#[test]
fn division_by_zero_yields_no_value() {
    assert_eq!(eval_str("1 / 0"), Ok(None));
}

#[test]
fn overflowing_sum_yields_no_value() {
    assert_eq!(
        eval_str("9223372036854775807 + 1"),
        Ok(None)
    );
}

#[test]
fn evaluator_state_starts_empty() {
    let evaluator = ASTEvaluator::new();
    assert!(evaluator.last_value.is_none());
}

#[test]
fn visitor_folds_a_tree() {
    let mut parser = Parser::new(tokenize("2 * (3 + 4)"));
    let stmt = parser.next_statement().expect("no error").expect("statement");
    let mut ast = Ast::new();
    ast.add_statement(stmt);
    let mut evaluator = ASTEvaluator::new();
    ast.visit(&mut evaluator);
    assert_eq!(evaluator.last_value, Some(14));
}

#[test]
fn checked_evaluation_matches_visitor() {
    let mut parser = Parser::new(tokenize("(10 - 4) / 3"));
    let stmt = parser.next_statement().expect("no error").expect("statement");
    let ASTStatement::Expression(expr) = stmt;
    assert_eq!(evaluate_expression(&expr), Some(2));
}

#[test]
fn negative_division_truncates_toward_zero() {
    // 3 - 10 is -7; -7 / 2 truncates to -3.
    assert_eq!(eval_str("(3 - 10) / 2"), Ok(Some(-3)));
}
