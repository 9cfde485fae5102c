use minilang::ast::{Expr, Type};

fn var(x: &str) -> Box<Expr> {
    Box::new(Expr::Var(x.to_string()))
}

#[test]
fn binder_shadows_its_own_name() {
    // fun x : int -> x + y, substituting x |-> 99: the bound x stays.
    let tree = Expr::Func(
        "x".to_string(),
        Box::new(Type::Int),
        Box::new(Expr::Plus(var("x"), var("y"))),
    );
    let subs = vec![("x".to_string(), Expr::Int(99))];
    assert_eq!(Expr::subst(&subs, &tree), tree);
}

#[test]
fn free_variable_under_binder_is_substituted() {
    // fun x : int -> x + y, substituting y |-> 1: only the y changes.
    let tree = Expr::Func(
        "x".to_string(),
        Box::new(Type::Int),
        Box::new(Expr::Plus(var("x"), var("y"))),
    );
    let subs = vec![("y".to_string(), Expr::Int(1))];
    let expected = Expr::Func(
        "x".to_string(),
        Box::new(Type::Int),
        Box::new(Expr::Plus(var("x"), Box::new(Expr::Int(1)))),
    );
    assert_eq!(Expr::subst(&subs, &tree), expected);
}

#[test]
fn recursion_binder_shadows_its_own_name() {
    let tree = Expr::Recursion(
        "f".to_string(),
        Box::new(Type::Int),
        Box::new(Expr::Apply(var("f"), var("g"))),
    );
    let subs = vec![("f".to_string(), Expr::Int(7))];
    assert_eq!(Expr::subst(&subs, &tree), tree);
}

#[test]
fn match_binders_scope_over_cons_branch_only() {
    // match h with [int] -> h | h::t -> h + t, substituting h |-> 5:
    // the scrutinee and the nil branch change, the cons branch does not.
    let tree = Expr::Match(
        var("h"),
        Box::new(Type::Int),
        var("h"),
        "h".to_string(),
        "t".to_string(),
        Box::new(Expr::Plus(var("h"), var("t"))),
    );
    let subs = vec![("h".to_string(), Expr::Int(5))];
    let expected = Expr::Match(
        Box::new(Expr::Int(5)),
        Box::new(Type::Int),
        Box::new(Expr::Int(5)),
        "h".to_string(),
        "t".to_string(),
        Box::new(Expr::Plus(var("h"), var("t"))),
    );
    assert_eq!(Expr::subst(&subs, &tree), expected);
}

#[test]
fn match_tail_binder_scopes_over_cons_branch_only() {
    let tree = Expr::Match(
        var("t"),
        Box::new(Type::Int),
        var("t"),
        "h".to_string(),
        "t".to_string(),
        Box::new(Expr::Cons(var("h"), var("t"))),
    );
    let subs = vec![("t".to_string(), Expr::Bool(false))];
    let expected = Expr::Match(
        Box::new(Expr::Bool(false)),
        Box::new(Type::Int),
        Box::new(Expr::Bool(false)),
        "h".to_string(),
        "t".to_string(),
        Box::new(Expr::Cons(var("h"), var("t"))),
    );
    assert_eq!(Expr::subst(&subs, &tree), expected);
}

#[test]
fn first_matching_binding_wins() {
    let subs = vec![
        ("x".to_string(), Expr::Int(1)),
        ("x".to_string(), Expr::Int(2)),
    ];
    assert_eq!(Expr::subst(&subs, &Expr::Var("x".to_string())), Expr::Int(1));
}

#[test]
fn empty_substitution_is_identity() {
    let subs: Vec<(String, Expr)> = vec![];
    let tree = Expr::If(
        var("a"),
        Box::new(Expr::Pair(var("b"), Box::new(Expr::Nil(Type::Bool)))),
        Box::new(Expr::Divide(Box::new(Expr::Int(4)), var("c"))),
    );
    assert_eq!(Expr::subst(&subs, &tree), tree);
}

#[test]
fn literals_are_left_unchanged() {
    let subs = vec![("x".to_string(), Expr::Int(9))];
    assert_eq!(Expr::subst(&subs, &Expr::Int(3)), Expr::Int(3));
    assert_eq!(Expr::subst(&subs, &Expr::Bool(true)), Expr::Bool(true));
    assert_eq!(
        Expr::subst(&subs, &Expr::Nil(Type::Int)),
        Expr::Nil(Type::Int)
    );
    assert_eq!(Expr::subst(&subs, &Expr::Var("y".to_string())), Expr::Var("y".to_string()));
}

#[test]
fn substitution_rewrites_every_child() {
    let subs = vec![("x".to_string(), Expr::Int(2))];
    let tree = Expr::Less(
        Box::new(Expr::Mod(var("x"), Box::new(Expr::Int(3)))),
        Box::new(Expr::Second(Box::new(Expr::Pair(var("x"), var("x"))))),
    );
    let expected = Expr::Less(
        Box::new(Expr::Mod(Box::new(Expr::Int(2)), Box::new(Expr::Int(3)))),
        Box::new(Expr::Second(Box::new(Expr::Pair(
            Box::new(Expr::Int(2)),
            Box::new(Expr::Int(2)),
        )))),
    );
    assert_eq!(Expr::subst(&subs, &tree), expected);
}
