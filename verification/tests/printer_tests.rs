use minilang::ast::{Expr, Type};

fn int_ty() -> Box<Type> {
    Box::new(Type::Int)
}

#[test]
fn arrow_prints_right_associated_without_parens() {
    let t = Type::Func(
        Box::new(Type::Int),
        Box::new(Type::Func(Box::new(Type::Bool), Box::new(Type::Int))),
    );
    assert_eq!(t.to_string(), "int -> bool -> int");
}

#[test]
fn left_nested_arrow_prints_with_parens() {
    let t = Type::Func(
        Box::new(Type::Func(Box::new(Type::Int), Box::new(Type::Bool))),
        Box::new(Type::Int),
    );
    assert_eq!(t.to_string(), "(int -> bool) -> int");
}

#[test]
fn product_of_list_and_bool_prints_flat() {
    let t = Type::Mult(
        Box::new(Type::List(Box::new(Type::Int))),
        Box::new(Type::Bool),
    );
    assert_eq!(t.to_string(), "int list * bool");
}

#[test]
fn nested_list_prints_postfix_chain() {
    let t = Type::List(Box::new(Type::List(Box::new(Type::Int))));
    assert_eq!(t.to_string(), "int list list");
}

#[test]
fn chained_product_prints_flat_left() {
    let t = Type::Mult(
        Box::new(Type::Mult(Box::new(Type::Int), Box::new(Type::Bool))),
        Box::new(Type::List(Box::new(Type::Int))),
    );
    assert_eq!(t.to_string(), "int * bool * int list");
}

#[test]
fn right_nested_product_prints_with_parens() {
    let t = Type::Mult(
        Box::new(Type::Int),
        Box::new(Type::Mult(Box::new(Type::Bool), Box::new(Type::Int))),
    );
    assert_eq!(t.to_string(), "int * (bool * int)");
}

#[test]
fn list_of_product_prints_with_parens() {
    let t = Type::List(Box::new(Type::Mult(Box::new(Type::Int), Box::new(Type::Bool))));
    assert_eq!(t.to_string(), "(int * bool) list");
}

#[test]
fn integer_literals_print_in_decimal() {
    assert_eq!(Expr::Int(0).to_string(), "0");
    assert_eq!(Expr::Int(42).to_string(), "42");
    assert_eq!(Expr::Int(-5).to_string(), "-5");
    assert_eq!(Expr::Int(i64::MAX).to_string(), "9223372036854775807");
    assert_eq!(Expr::Int(i64::MIN).to_string(), "-9223372036854775808");
}

#[test]
fn arithmetic_chain_prints_flat_left() {
    // (3 + 5) - 2 at equal precedence: flat, no parentheses.
    let e = Expr::Minus(
        Box::new(Expr::Plus(Box::new(Expr::Int(3)), Box::new(Expr::Int(5)))),
        Box::new(Expr::Int(2)),
    );
    assert_eq!(e.to_string(), "3 + 5 - 2");
}

#[test]
fn right_nested_sum_prints_with_parens() {
    let e = Expr::Plus(
        Box::new(Expr::Int(3)),
        Box::new(Expr::Plus(Box::new(Expr::Int(5)), Box::new(Expr::Int(2)))),
    );
    assert_eq!(e.to_string(), "3 + (5 + 2)");
}

#[test]
fn product_binds_tighter_than_sum_in_expressions() {
    // 3 + 5 * 2: the multiplication needs no parentheses under the sum.
    let e = Expr::Plus(
        Box::new(Expr::Int(3)),
        Box::new(Expr::Times(Box::new(Expr::Int(5)), Box::new(Expr::Int(2)))),
    );
    assert_eq!(e.to_string(), "3 + 5 * 2");
    // (3 + 5) * 2: the sum must be parenthesized under the multiplication.
    let f = Expr::Times(
        Box::new(Expr::Plus(Box::new(Expr::Int(3)), Box::new(Expr::Int(5)))),
        Box::new(Expr::Int(2)),
    );
    assert_eq!(f.to_string(), "(3 + 5) * 2");
}

#[test]
fn cons_chain_prints_right_associated() {
    let e = Expr::Cons(
        Box::new(Expr::Int(1)),
        Box::new(Expr::Cons(
            Box::new(Expr::Int(2)),
            Box::new(Expr::Nil(Type::Int)),
        )),
    );
    assert_eq!(e.to_string(), "1 :: 2 :: [int]");
}

#[test]
fn comparisons_do_not_chain_flat() {
    let e = Expr::Equal(
        Box::new(Expr::Less(Box::new(Expr::Int(1)), Box::new(Expr::Int(2)))),
        Box::new(Expr::Bool(true)),
    );
    assert_eq!(e.to_string(), "(1 < 2) = true");
}

#[test]
fn keyword_forms_print_verbatim() {
    let pair = Expr::Pair(Box::new(Expr::Int(1)), Box::new(Expr::Int(2)));
    assert_eq!(pair.to_string(), "(1, 2)");
    let fst = Expr::First(Box::new(Expr::Var("p".to_string())));
    assert_eq!(fst.to_string(), "fst p");
    let snd = Expr::Second(Box::new(Expr::Var("p".to_string())));
    assert_eq!(snd.to_string(), "snd p");
    let ite = Expr::If(
        Box::new(Expr::Bool(true)),
        Box::new(Expr::Int(1)),
        Box::new(Expr::Int(2)),
    );
    assert_eq!(ite.to_string(), "if true then 1 else 2");
    let lam = Expr::Func(
        "x".to_string(),
        int_ty(),
        Box::new(Expr::Plus(
            Box::new(Expr::Var("x".to_string())),
            Box::new(Expr::Int(1)),
        )),
    );
    assert_eq!(lam.to_string(), "fun x : int -> x + 1");
    let fix = Expr::Recursion(
        "f".to_string(),
        Box::new(Type::Func(Box::new(Type::Int), Box::new(Type::Int))),
        Box::new(Expr::Var("f".to_string())),
    );
    assert_eq!(fix.to_string(), "rec f : int -> int is f");
}

#[test]
fn match_form_prints_verbatim() {
    let m = Expr::Match(
        Box::new(Expr::Var("xs".to_string())),
        int_ty(),
        Box::new(Expr::Int(0)),
        "h".to_string(),
        "t".to_string(),
        Box::new(Expr::Var("h".to_string())),
    );
    assert_eq!(m.to_string(), "match xs with [int] -> 0 | h::t -> h");
}

#[test]
fn application_is_juxtaposition_left_associated() {
    let e = Expr::Apply(
        Box::new(Expr::Apply(
            Box::new(Expr::Var("f".to_string())),
            Box::new(Expr::Var("x".to_string())),
        )),
        Box::new(Expr::Var("y".to_string())),
    );
    assert_eq!(e.to_string(), "f x y");
}
