use minilang::ast::{Expr, Type};
use minilang::lexer::{tokenize, Token};
use minilang::parser::Parser;

fn lex(source: &str) -> Vec<Token> {
    tokenize(source).unwrap()
}

#[test]
fn test_parse_ty_simple_int() {
    let tokens = vec![Token::TypeInt];
    let mut parser = Parser::new(tokens);
    assert_eq!(parser.parse_ty_simple(), Some(Type::Int));
}

#[test]
fn test_parse_ty_simple_bool() {
    let tokens = vec![Token::TypeBool];
    let mut parser = Parser::new(tokens);
    assert_eq!(parser.parse_ty_simple(), Some(Type::Bool));
}

#[test]
fn test_parse_ty_list_int() {
    let tokens = vec![Token::TypeInt, Token::TypeList];
    let mut parser = Parser::new(tokens);
    assert_eq!(parser.parse_ty_list(), Some(Type::List(Box::new(Type::Int))));
}

#[test]
fn test_parse_ty_list_list_of_int() {
    let tokens = vec![Token::TypeInt, Token::TypeList, Token::TypeList];
    let mut parser = Parser::new(tokens);
    let expected = Type::List(Box::new(Type::List(Box::new(Type::Int))));
    assert_eq!(parser.parse_ty_list(), Some(expected));
}

#[test]
fn parse_single_ty_list() {
    let tokens = vec![Token::TypeInt, Token::TypeList]; // Represents: int list
    let mut parser = Parser::new(tokens);
    assert_eq!(parser.parse_ty_times(), Some(Type::List(Box::new(Type::Int))));
}

#[test]
fn parse_simple_ty_times() {
    let tokens = vec![Token::TypeInt, Token::Mult, Token::TypeBool]; // Represents: int * bool
    let mut parser = Parser::new(tokens);
    let expected = Type::Mult(Box::new(Type::Int), Box::new(Type::Bool));
    assert_eq!(parser.parse_ty_times(), Some(expected));
}

#[test]
fn parse_nested_ty_times() {
    let tokens = vec![
        Token::TypeInt,
        Token::Mult,
        Token::TypeBool,
        Token::Mult,
        Token::TypeInt,
        Token::TypeList, // Represents: int * bool * int list
    ];
    let mut parser = Parser::new(tokens);
    let expected = Type::Mult(
        Box::new(Type::Mult(Box::new(Type::Int), Box::new(Type::Bool))),
        Box::new(Type::List(Box::new(Type::Int))),
    );
    assert_eq!(parser.parse_ty_times(), Some(expected));
}

#[test]
fn parse_ty_times_with_list() {
    let tokens = vec![
        Token::TypeInt,
        Token::TypeList,
        Token::Mult,
        Token::TypeBool,
        Token::TypeList, // Represents: int list * bool list
    ];
    let mut parser = Parser::new(tokens);
    let expected = Type::Mult(
        Box::new(Type::List(Box::new(Type::Int))),
        Box::new(Type::List(Box::new(Type::Bool))),
    );
    assert_eq!(parser.parse_ty_times(), Some(expected));
}

#[test]
fn test_parser_integration() {
    let tokens = vec![Token::TypeInt, Token::TypeList, Token::Mult, Token::TypeBool];

    let mut parser = Parser::new(tokens);
    let result = parser.parse_ty_times();

    let expected = Some(Type::Mult(
        Box::new(Type::List(Box::new(Type::Int))),
        Box::new(Type::Bool),
    ));

    assert_eq!(result, expected);
}

#[test]
fn test_parse_simple_type() {
    let tokens = vec![Token::TypeInt];
    let mut parser = Parser::new(tokens);
    assert_eq!(parser.parse_ty(), Some(Type::Int));
}

#[test]
fn test_parse_arrow_type() {
    let tokens = vec![Token::TypeInt, Token::DashArrow, Token::TypeBool];
    let mut parser = Parser::new(tokens);
    assert_eq!(
        parser.parse_ty(),
        Some(Type::Func(Box::new(Type::Int), Box::new(Type::Bool)))
    );
}

#[test]
fn test_parse_nil() {
    let tokens = vec![Token::LSquareBrack, Token::TypeInt, Token::RSquareBrack];
    let mut parser = Parser::new(tokens);
    assert_eq!(parser.parse_nil(), Some(Type::List(Box::new(Type::Int))));
}

#[test]
fn full_flow_test() {
    // Source code example: "[int -> bool]"
    let source = "[int -> bool]";
    let tokens = lex(source);
    let mut parser = Parser::new(tokens);
    let parsed = parser.parse_nil(); // Starts by expecting a 'nil' type construction.

    assert_eq!(
        parsed,
        Some(Type::List(Box::new(Type::Func(
            Box::new(Type::Int),
            Box::new(Type::Bool)
        ))))
    );
}

#[test]
fn test_simple_boolean_expression() {
    let left = Some(Expr::Equal(
        Box::new(Expr::Bool(true)),
        Box::new(Expr::Bool(false)),
    ));
    let right = Some(Expr::Equal(
        Box::new(Expr::Bool(true)),
        Box::new(Expr::Bool(false)),
    ));

    assert_eq!(left, right);
}
