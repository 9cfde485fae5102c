use minilang::ast::Expr;
use minilang::lexer::tokenize;
use minilang::parser::{ParseError, Parser};

fn parse_expr(source: &str) -> Result<Expr, ParseError> {
    let tokens = tokenize(source).unwrap();
    let mut parser = Parser::new(tokens);
    parser.parse_binary_expr()
}

#[test]
fn arithmetic_folds_flat_left_to_right() {
    // Documented behavior: the four operators share one precedence level.
    assert_eq!(
        parse_expr("3 + 5 - 2"),
        Ok(Expr::Minus(
            Box::new(Expr::Plus(Box::new(Expr::Int(3)), Box::new(Expr::Int(5)))),
            Box::new(Expr::Int(2)),
        ))
    );
    // So multiplication does not bind tighter here: (3 + 5) * 2.
    assert_eq!(
        parse_expr("3 + 5 * 2"),
        Ok(Expr::Times(
            Box::new(Expr::Plus(Box::new(Expr::Int(3)), Box::new(Expr::Int(5)))),
            Box::new(Expr::Int(2)),
        ))
    );
}

#[test]
fn misplaced_operator_is_a_parse_error() {
    let r = parse_expr("3 + * 5");
    assert!(matches!(r, Err(ParseError::UnexpectedToken { .. })));
}

#[test]
fn single_comparison_ends_the_expression() {
    assert_eq!(
        parse_expr("3 < 5"),
        Ok(Expr::Less(Box::new(Expr::Int(3)), Box::new(Expr::Int(5))))
    );
    assert_eq!(
        parse_expr("true = false"),
        Ok(Expr::Equal(
            Box::new(Expr::Bool(true)),
            Box::new(Expr::Bool(false)),
        ))
    );
}

#[test]
fn comparison_after_arithmetic_fold() {
    assert_eq!(
        parse_expr("1 + 2 < 4"),
        Ok(Expr::Less(
            Box::new(Expr::Plus(Box::new(Expr::Int(1)), Box::new(Expr::Int(2)))),
            Box::new(Expr::Int(4)),
        ))
    );
}

#[test]
fn parentheses_group_subexpressions() {
    assert_eq!(
        parse_expr("(1 + 2) * 3"),
        Ok(Expr::Times(
            Box::new(Expr::Plus(Box::new(Expr::Int(1)), Box::new(Expr::Int(2)))),
            Box::new(Expr::Int(3)),
        ))
    );
}

#[test]
fn missing_closing_paren_is_end_of_input() {
    let r = parse_expr("(1 + 2");
    assert!(matches!(r, Err(ParseError::UnexpectedEndOfInput { .. })));
}

#[test]
fn empty_input_is_end_of_input() {
    let r = parse_expr("");
    assert_eq!(r, Err(ParseError::UnexpectedEndOfInput { at: 0 }));
}

#[test]
fn negative_literal_parses() {
    assert_eq!(parse_expr("-7"), Ok(Expr::Int(-7)));
}
