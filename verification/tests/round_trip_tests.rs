use minilang::lexer::tokenize;
use minilang::parser::Parser;
use minilang::ast::Type;

fn round_trip(t: &Type) -> Option<Type> {
    let printed = t.to_string();
    let tokens = tokenize(&printed).unwrap();
    let mut parser = Parser::new(tokens);
    parser.parse_ty()
}

#[test]
fn nested_list_reparses_identically() {
    let t = Type::List(Box::new(Type::List(Box::new(Type::Int))));
    assert_eq!(t.to_string(), "int list list");
    assert_eq!(round_trip(&t), Some(t));
}

#[test]
fn arrows_round_trip() {
    let t = Type::Func(
        Box::new(Type::Func(Box::new(Type::Int), Box::new(Type::Bool))),
        Box::new(Type::Func(Box::new(Type::Bool), Box::new(Type::Int))),
    );
    assert_eq!(round_trip(&t), Some(t));
}

#[test]
fn products_and_lists_round_trip() {
    let t = Type::Mult(
        Box::new(Type::Mult(
            Box::new(Type::List(Box::new(Type::Bool))),
            Box::new(Type::Int),
        )),
        Box::new(Type::List(Box::new(Type::Mult(
            Box::new(Type::Int),
            Box::new(Type::Bool),
        )))),
    );
    assert_eq!(round_trip(&t), Some(t));
}

#[test]
fn arrow_under_list_and_product_round_trips() {
    let t = Type::Func(
        Box::new(Type::Mult(
            Box::new(Type::List(Box::new(Type::Int))),
            Box::new(Type::Bool),
        )),
        Box::new(Type::List(Box::new(Type::Func(
            Box::new(Type::Int),
            Box::new(Type::Bool),
        )))),
    );
    assert_eq!(t.to_string(), "int list * bool -> (int -> bool) list");
    assert_eq!(round_trip(&t), Some(t));
}

#[test]
fn atoms_round_trip() {
    assert_eq!(round_trip(&Type::Int), Some(Type::Int));
    assert_eq!(round_trip(&Type::Bool), Some(Type::Bool));
}
