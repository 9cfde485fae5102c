//! Abstract syntax for the language: the `Type` and `Expr` trees, the
//! precedence-aware printers that render them as surface syntax, and the
//! substitution engine.
//!
//! The printers are specified against the spec functions `ty_chars_at` and
//! `expr_chars_at`: a node is rendered from its own precedence rank and the
//! precedence of the context it appears in, and is parenthesized exactly
//! when its rank does not exceed the context's.

use vstd::prelude::*;

verus! {

/// A type of the object language: integers, booleans, products, function
/// arrows and lists.
#[derive(Debug, PartialEq, Eq)]
pub enum Type {
    Int,
    Bool,
    Mult(Box<Type>, Box<Type>),
    Func(Box<Type>, Box<Type>),
    List(Box<Type>),
}

/// The intrinsic precedence rank of a type constructor: atoms bind tightest,
/// the right-associative arrow loosest.
pub open spec fn ty_rank(t: Type) -> int {
    match t {
        Type::Int => 4,
        Type::Bool => 4,
        Type::List(_) => 3,
        Type::Mult(_, _) => 2,
        Type::Func(_, _) => 1,
    }
}

/// The rendering of `t` itself, without any outer parentheses.
pub open spec fn ty_chars_body(t: Type) -> Seq<char>
    decreases t, 0int,
{
    match t {
        Type::Int => "int"@,
        Type::Bool => "bool"@,
        Type::Mult(a, b) => ty_chars_at(*a, 1) + " * "@ + ty_chars_at(*b, 2),
        Type::Func(a, b) => ty_chars_at(*a, 1) + " -> "@ + ty_chars_at(*b, 0),
        Type::List(u) => ty_chars_at(*u, 2) + " list"@,
    }
}

/// The rendering of `t` in a context of precedence `ctx`: parenthesized
/// exactly when the rank of `t` does not exceed `ctx`.
pub open spec fn ty_chars_at(t: Type, ctx: int) -> Seq<char>
    decreases t, 1int,
{
    if ty_rank(t) > ctx {
        ty_chars_body(t)
    } else {
        "("@ + ty_chars_body(t) + ")"@
    }
}

/// The canonical rendering of a whole type: a top-level context below every
/// rank, so the outermost node is never parenthesized.
pub open spec fn ty_chars(t: Type) -> Seq<char> {
    ty_chars_at(t, -1)
}

/// An expression of the object language: variables, literals, the binary
/// arithmetic and comparison forms, conditionals, lambda abstraction,
/// application, pairs and projections, the fixpoint form, and the three
/// list forms (typed empty list, cons, match).
#[derive(Debug, PartialEq, Eq)]
pub enum Expr {
    Var(String),
    Int(i64),
    Bool(bool),
    Times(Box<Expr>, Box<Expr>),
    Divide(Box<Expr>, Box<Expr>),
    Mod(Box<Expr>, Box<Expr>),
    Plus(Box<Expr>, Box<Expr>),
    Minus(Box<Expr>, Box<Expr>),
    Equal(Box<Expr>, Box<Expr>),
    Less(Box<Expr>, Box<Expr>),
    If(Box<Expr>, Box<Expr>, Box<Expr>),
    Func(String, Box<Type>, Box<Expr>),
    Apply(Box<Expr>, Box<Expr>),
    Pair(Box<Expr>, Box<Expr>),
    First(Box<Expr>),
    Second(Box<Expr>),
    Recursion(String, Box<Type>, Box<Expr>),
    Nil(Type),
    Cons(Box<Expr>, Box<Expr>),
    Match(Box<Expr>, Box<Type>, Box<Expr>, String, String, Box<Expr>),
}

/// A top-level interaction: evaluate an expression, bind a name to an
/// expression, or leave.
pub enum Commands {
    Expr(Expr),
    Fn(String, Expr),
    Exit,
}

/// The decimal digit character for `d` (a value between 0 and 9).
pub open spec fn digit_char(d: int) -> char {
    if d == 0 {
        '0'
    } else if d == 1 {
        '1'
    } else if d == 2 {
        '2'
    } else if d == 3 {
        '3'
    } else if d == 4 {
        '4'
    } else if d == 5 {
        '5'
    } else if d == 6 {
        '6'
    } else if d == 7 {
        '7'
    } else if d == 8 {
        '8'
    } else {
        '9'
    }
}

/// The decimal rendering of a non-negative integer, most significant digit
/// first, with no leading zeros (a single `'0'` for zero).
pub open spec fn nat_chars(m: int) -> Seq<char>
    decreases m,
{
    if m < 10 {
        seq![digit_char(m)]
    } else {
        nat_chars(m / 10) + seq![digit_char(m % 10)]
    }
}

/// The decimal rendering of an integer: a leading `'-'` for negative values.
pub open spec fn int_chars(n: int) -> Seq<char> {
    if n < 0 {
        seq!['-'] + nat_chars(-n)
    } else {
        nat_chars(n)
    }
}

/// The intrinsic precedence rank of an expression form, from atoms (10)
/// down to the fixpoint form (1).
pub open spec fn expr_rank(e: Expr) -> int {
    match e {
        Expr::Var(_) => 10,
        Expr::Int(_) => 10,
        Expr::Bool(_) => 10,
        Expr::Pair(_, _) => 10,
        Expr::Nil(_) => 10,
        Expr::First(_) => 9,
        Expr::Second(_) => 9,
        Expr::Apply(_, _) => 9,
        Expr::Times(_, _) => 8,
        Expr::Divide(_, _) => 8,
        Expr::Mod(_, _) => 8,
        Expr::Plus(_, _) => 7,
        Expr::Minus(_, _) => 7,
        Expr::Cons(_, _) => 6,
        Expr::Equal(_, _) => 5,
        Expr::Less(_, _) => 5,
        Expr::If(_, _, _) => 4,
        Expr::Match(_, _, _, _, _, _) => 3,
        Expr::Func(_, _, _) => 2,
        Expr::Recursion(_, _, _) => 1,
    }
}

/// The rendering of `e` itself, without any outer parentheses. The
/// left-associative arithmetic forms render their right operand at their own
/// rank (so a right-nested operand of equal rank is parenthesized), the
/// right-associative cons form does the same on the left, and the
/// non-chaining comparisons parenthesize both sides at equal rank.
pub open spec fn expr_chars_body(e: Expr) -> Seq<char>
    decreases e, 0int,
{
    match e {
        Expr::Var(x) => x@,
        Expr::Int(n) => int_chars(n as int),
        Expr::Bool(b) => if b {
            "true"@
        } else {
            "false"@
        },
        Expr::Pair(a, b) => "("@ + expr_chars_at(*a, 0) + ", "@ + expr_chars_at(*b, 0) + ")"@,
        Expr::Nil(t) => "["@ + ty_chars(t) + "]"@,
        Expr::First(a) => "fst "@ + expr_chars_at(*a, 9),
        Expr::Second(a) => "snd "@ + expr_chars_at(*a, 9),
        Expr::Apply(a, b) => expr_chars_at(*a, 8) + " "@ + expr_chars_at(*b, 9),
        Expr::Times(a, b) => expr_chars_at(*a, 7) + " * "@ + expr_chars_at(*b, 8),
        Expr::Divide(a, b) => expr_chars_at(*a, 7) + " / "@ + expr_chars_at(*b, 8),
        Expr::Mod(a, b) => expr_chars_at(*a, 7) + " % "@ + expr_chars_at(*b, 8),
        Expr::Plus(a, b) => expr_chars_at(*a, 6) + " + "@ + expr_chars_at(*b, 7),
        Expr::Minus(a, b) => expr_chars_at(*a, 6) + " - "@ + expr_chars_at(*b, 7),
        Expr::Cons(a, b) => expr_chars_at(*a, 6) + " :: "@ + expr_chars_at(*b, 5),
        Expr::Equal(a, b) => expr_chars_at(*a, 5) + " = "@ + expr_chars_at(*b, 5),
        Expr::Less(a, b) => expr_chars_at(*a, 5) + " < "@ + expr_chars_at(*b, 5),
        Expr::If(c, t, f) => "if "@ + expr_chars_at(*c, 4) + " then "@ + expr_chars_at(*t, 4)
            + " else "@ + expr_chars_at(*f, 4),
        Expr::Match(s, t, n, x, y, c) => "match "@ + expr_chars_at(*s, 3) + " with ["@ + ty_chars(
            *t,
        ) + "] -> "@ + expr_chars_at(*n, 3) + " | "@ + x@ + "::"@ + y@ + " -> "@ + expr_chars_at(
            *c,
            3,
        ),
        Expr::Func(x, t, b) => "fun "@ + x@ + " : "@ + ty_chars(*t) + " -> "@ + expr_chars_at(
            *b,
            0,
        ),
        Expr::Recursion(x, t, b) => "rec "@ + x@ + " : "@ + ty_chars(*t) + " is "@ + expr_chars_at(
            *b,
            0,
        ),
    }
}

/// The rendering of `e` in a context of precedence `ctx`: parenthesized
/// exactly when the rank of `e` does not exceed `ctx`.
pub open spec fn expr_chars_at(e: Expr, ctx: int) -> Seq<char>
    decreases e, 1int,
{
    if expr_rank(e) > ctx {
        expr_chars_body(e)
    } else {
        "("@ + expr_chars_body(e) + ")"@
    }
}

/// The canonical rendering of a whole expression, never parenthesized at
/// the outermost level.
pub open spec fn expr_chars(e: Expr) -> Seq<char> {
    expr_chars_at(e, -1)
}

/// The first binding for the name `x` in the substitution list, if any:
/// earlier entries shadow later duplicates.
pub open spec fn spec_lookup(subs: Seq<(String, Expr)>, x: Seq<char>) -> Option<Expr>
    decreases subs.len(),
{
    if subs.len() == 0 {
        None
    } else if subs[0].0@ == x {
        Some(subs[0].1)
    } else {
        spec_lookup(subs.drop_first(), x)
    }
}

/// The substitution list with every binding for the name `x` removed,
/// the order of the remaining bindings kept.
pub open spec fn remove_name(subs: Seq<(String, Expr)>, x: Seq<char>) -> Seq<(String, Expr)>
    decreases subs.len(),
{
    if subs.len() == 0 {
        Seq::empty()
    } else {
        let rest = remove_name(subs.drop_last(), x);
        if subs.last().0@ == x {
            rest
        } else {
            rest.push(subs.last())
        }
    }
}

/// The substitution list with every binding for either of the names `x`
/// and `y` removed, the order of the remaining bindings kept.
pub open spec fn remove_two_names(subs: Seq<(String, Expr)>, x: Seq<char>, y: Seq<char>) -> Seq<
    (String, Expr),
>
    decreases subs.len(),
{
    if subs.len() == 0 {
        Seq::empty()
    } else {
        let rest = remove_two_names(subs.drop_last(), x, y);
        if subs.last().0@ == x || subs.last().0@ == y {
            rest
        } else {
            rest.push(subs.last())
        }
    }
}

/// Capture-free-by-scanning substitution: every free occurrence of a bound
/// name is replaced by the first matching binding's expression, and the
/// binder forms (`Func`, `Recursion`, and `Match` over its cons branch)
/// hide their own names from the bindings in their scope. No alpha-renaming
/// is performed, so a replacement expression whose free variables collide
/// with an enclosing binder is captured.
pub open spec fn spec_subst(subs: Seq<(String, Expr)>, e: Expr) -> Expr
    decreases e,
{
    match e {
        Expr::Var(x) => match spec_lookup(subs, x@) {
            Some(r) => r,
            None => e,
        },
        Expr::Int(_) => e,
        Expr::Bool(_) => e,
        Expr::Nil(_) => e,
        Expr::Times(a, b) => Expr::Times(
            Box::new(spec_subst(subs, *a)),
            Box::new(spec_subst(subs, *b)),
        ),
        Expr::Divide(a, b) => Expr::Divide(
            Box::new(spec_subst(subs, *a)),
            Box::new(spec_subst(subs, *b)),
        ),
        Expr::Mod(a, b) => Expr::Mod(
            Box::new(spec_subst(subs, *a)),
            Box::new(spec_subst(subs, *b)),
        ),
        Expr::Plus(a, b) => Expr::Plus(
            Box::new(spec_subst(subs, *a)),
            Box::new(spec_subst(subs, *b)),
        ),
        Expr::Minus(a, b) => Expr::Minus(
            Box::new(spec_subst(subs, *a)),
            Box::new(spec_subst(subs, *b)),
        ),
        Expr::Equal(a, b) => Expr::Equal(
            Box::new(spec_subst(subs, *a)),
            Box::new(spec_subst(subs, *b)),
        ),
        Expr::Less(a, b) => Expr::Less(
            Box::new(spec_subst(subs, *a)),
            Box::new(spec_subst(subs, *b)),
        ),
        Expr::If(c, t, f) => Expr::If(
            Box::new(spec_subst(subs, *c)),
            Box::new(spec_subst(subs, *t)),
            Box::new(spec_subst(subs, *f)),
        ),
        Expr::Func(x, t, b) => Expr::Func(x, t, Box::new(spec_subst(remove_name(subs, x@), *b))),
        Expr::Apply(a, b) => Expr::Apply(
            Box::new(spec_subst(subs, *a)),
            Box::new(spec_subst(subs, *b)),
        ),
        Expr::Pair(a, b) => Expr::Pair(
            Box::new(spec_subst(subs, *a)),
            Box::new(spec_subst(subs, *b)),
        ),
        Expr::First(a) => Expr::First(Box::new(spec_subst(subs, *a))),
        Expr::Second(a) => Expr::Second(Box::new(spec_subst(subs, *a))),
        Expr::Recursion(x, t, b) => Expr::Recursion(
            x,
            t,
            Box::new(spec_subst(remove_name(subs, x@), *b)),
        ),
        Expr::Cons(a, b) => Expr::Cons(
            Box::new(spec_subst(subs, *a)),
            Box::new(spec_subst(subs, *b)),
        ),
        Expr::Match(s, t, n, x, y, c) => Expr::Match(
            Box::new(spec_subst(subs, *s)),
            t,
            Box::new(spec_subst(subs, *n)),
            x,
            y,
            Box::new(spec_subst(remove_two_names(subs, x@, y@), *c)),
        ),
    }
}

/// The decimal string for one digit value.
fn digit_str(d: u64) -> (r: &'static str)
    requires
        d < 10,
    ensures
        r@ == seq![digit_char(d as int)],
{
    if d == 0 {
        proof {
            reveal_strlit("0");
            assert("0"@ =~= seq![digit_char(0int)]);
        }
        "0"
    } else if d == 1 {
        proof {
            reveal_strlit("1");
            assert("1"@ =~= seq![digit_char(1int)]);
        }
        "1"
    } else if d == 2 {
        proof {
            reveal_strlit("2");
            assert("2"@ =~= seq![digit_char(2int)]);
        }
        "2"
    } else if d == 3 {
        proof {
            reveal_strlit("3");
            assert("3"@ =~= seq![digit_char(3int)]);
        }
        "3"
    } else if d == 4 {
        proof {
            reveal_strlit("4");
            assert("4"@ =~= seq![digit_char(4int)]);
        }
        "4"
    } else if d == 5 {
        proof {
            reveal_strlit("5");
            assert("5"@ =~= seq![digit_char(5int)]);
        }
        "5"
    } else if d == 6 {
        proof {
            reveal_strlit("6");
            assert("6"@ =~= seq![digit_char(6int)]);
        }
        "6"
    } else if d == 7 {
        proof {
            reveal_strlit("7");
            assert("7"@ =~= seq![digit_char(7int)]);
        }
        "7"
    } else if d == 8 {
        proof {
            reveal_strlit("8");
            assert("8"@ =~= seq![digit_char(8int)]);
        }
        "8"
    } else {
        proof {
            reveal_strlit("9");
            assert("9"@ =~= seq![digit_char(9int)]);
        }
        "9"
    }
}

/// Renders a non-negative integer in decimal.
fn nat_to_string(m: u64) -> (r: String)
    ensures
        r@ == nat_chars(m as int),
    decreases m,
{
    if m < 10 {
        digit_str(m).to_owned()
    } else {
        let rest = nat_to_string(m / 10);
        rest.concat(digit_str(m % 10))
    }
}

/// Renders a signed integer in decimal, with a leading minus sign for
/// negative values.
fn int_to_string(n: i64) -> (r: String)
    ensures
        r@ == int_chars(n as int),
{
    if n >= 0 {
        nat_to_string(n as u64)
    } else {
        let mag: u64 = if n == i64::MIN {
            9223372036854775808u64
        } else {
            (-n) as u64
        };
        proof {
            reveal_strlit("-");
            assert("-"@ =~= seq!['-']);
        }
        "-".to_owned().concat(nat_to_string(mag).as_str())
    }
}

impl Clone for Type {
    fn clone(&self) -> (r: Self)
        ensures
            r == *self,
        decreases *self,
    {
        match self {
            Type::Int => Type::Int,
            Type::Bool => Type::Bool,
            Type::Mult(a, b) => Type::Mult(Box::new((**a).clone()), Box::new((**b).clone())),
            Type::Func(a, b) => Type::Func(Box::new((**a).clone()), Box::new((**b).clone())),
            Type::List(u) => Type::List(Box::new((**u).clone())),
        }
    }
}

impl Clone for Expr {
    fn clone(&self) -> (r: Self)
        ensures
            r == *self,
        decreases *self,
    {
        match self {
            Expr::Var(x) => Expr::Var(x.clone()),
            Expr::Int(n) => Expr::Int(*n),
            Expr::Bool(b) => Expr::Bool(*b),
            Expr::Times(a, b) => Expr::Times(Box::new((**a).clone()), Box::new((**b).clone())),
            Expr::Divide(a, b) => Expr::Divide(Box::new((**a).clone()), Box::new((**b).clone())),
            Expr::Mod(a, b) => Expr::Mod(Box::new((**a).clone()), Box::new((**b).clone())),
            Expr::Plus(a, b) => Expr::Plus(Box::new((**a).clone()), Box::new((**b).clone())),
            Expr::Minus(a, b) => Expr::Minus(Box::new((**a).clone()), Box::new((**b).clone())),
            Expr::Equal(a, b) => Expr::Equal(Box::new((**a).clone()), Box::new((**b).clone())),
            Expr::Less(a, b) => Expr::Less(Box::new((**a).clone()), Box::new((**b).clone())),
            Expr::If(c, t, f) => Expr::If(
                Box::new((**c).clone()),
                Box::new((**t).clone()),
                Box::new((**f).clone()),
            ),
            Expr::Func(x, t, b) => Expr::Func(
                x.clone(),
                Box::new((**t).clone()),
                Box::new((**b).clone()),
            ),
            Expr::Apply(a, b) => Expr::Apply(Box::new((**a).clone()), Box::new((**b).clone())),
            Expr::Pair(a, b) => Expr::Pair(Box::new((**a).clone()), Box::new((**b).clone())),
            Expr::First(a) => Expr::First(Box::new((**a).clone())),
            Expr::Second(a) => Expr::Second(Box::new((**a).clone())),
            Expr::Recursion(x, t, b) => Expr::Recursion(
                x.clone(),
                Box::new((**t).clone()),
                Box::new((**b).clone()),
            ),
            Expr::Nil(t) => Expr::Nil(t.clone()),
            Expr::Cons(a, b) => Expr::Cons(Box::new((**a).clone()), Box::new((**b).clone())),
            Expr::Match(s, t, n, x, y, c) => Expr::Match(
                Box::new((**s).clone()),
                Box::new((**t).clone()),
                Box::new((**n).clone()),
                x.clone(),
                y.clone(),
                Box::new((**c).clone()),
            ),
        }
    }
}

impl Expr {
    /// Renders the expression for a context of precedence `outer_precedence`,
    /// parenthesizing the whole result exactly when this node's own rank
    /// does not exceed it.
    pub fn to_string_with_precedence(&self, outer_precedence: i32) -> (r: String)
        ensures
            r@ == expr_chars_at(*self, outer_precedence as int),
        decreases *self,
    {
        let (inner_precedence, result): (i32, String) = match self {
            Expr::Var(x) => (10, x.clone()),
            Expr::Int(n) => (10, int_to_string(*n)),
            Expr::Bool(b) => (10, if *b { "true".to_owned() } else { "false".to_owned() }),
            Expr::Pair(a, b) => {
                let s1 = a.to_string_with_precedence(0);
                let s2 = b.to_string_with_precedence(0);
                (10, "(".to_owned().concat(s1.as_str()).concat(", ").concat(s2.as_str()).concat(")"))
            }
            Expr::Nil(t) => {
                (10, "[".to_owned().concat(t.to_string().as_str()).concat("]"))
            }
            Expr::First(a) => (9, "fst ".to_owned().concat(a.to_string_with_precedence(9).as_str())),
            Expr::Second(a) => (9, "snd ".to_owned().concat(a.to_string_with_precedence(9).as_str())),
            Expr::Apply(a, b) => {
                let s1 = a.to_string_with_precedence(8);
                let s2 = b.to_string_with_precedence(9);
                (9, s1.concat(" ").concat(s2.as_str()))
            }
            Expr::Times(a, b) => {
                let s1 = a.to_string_with_precedence(7);
                let s2 = b.to_string_with_precedence(8);
                (8, s1.concat(" * ").concat(s2.as_str()))
            }
            Expr::Divide(a, b) => {
                let s1 = a.to_string_with_precedence(7);
                let s2 = b.to_string_with_precedence(8);
                (8, s1.concat(" / ").concat(s2.as_str()))
            }
            Expr::Mod(a, b) => {
                let s1 = a.to_string_with_precedence(7);
                let s2 = b.to_string_with_precedence(8);
                (8, s1.concat(" % ").concat(s2.as_str()))
            }
            Expr::Plus(a, b) => {
                let s1 = a.to_string_with_precedence(6);
                let s2 = b.to_string_with_precedence(7);
                (7, s1.concat(" + ").concat(s2.as_str()))
            }
            Expr::Minus(a, b) => {
                let s1 = a.to_string_with_precedence(6);
                let s2 = b.to_string_with_precedence(7);
                (7, s1.concat(" - ").concat(s2.as_str()))
            }
            Expr::Cons(a, b) => {
                let s1 = a.to_string_with_precedence(6);
                let s2 = b.to_string_with_precedence(5);
                (6, s1.concat(" :: ").concat(s2.as_str()))
            }
            Expr::Equal(a, b) => {
                let s1 = a.to_string_with_precedence(5);
                let s2 = b.to_string_with_precedence(5);
                (5, s1.concat(" = ").concat(s2.as_str()))
            }
            Expr::Less(a, b) => {
                let s1 = a.to_string_with_precedence(5);
                let s2 = b.to_string_with_precedence(5);
                (5, s1.concat(" < ").concat(s2.as_str()))
            }
            Expr::If(c, t, f) => {
                let s1 = c.to_string_with_precedence(4);
                let s2 = t.to_string_with_precedence(4);
                let s3 = f.to_string_with_precedence(4);
                (
                    4,
                    "if ".to_owned().concat(s1.as_str()).concat(" then ").concat(
                        s2.as_str(),
                    ).concat(" else ").concat(s3.as_str()),
                )
            }
            Expr::Match(s, t, n, x, y, c) => {
                let s1 = s.to_string_with_precedence(3);
                let ts = t.to_string();
                let s2 = n.to_string_with_precedence(3);
                let s3 = c.to_string_with_precedence(3);
                (
                    3,
                    "match ".to_owned().concat(s1.as_str()).concat(" with [").concat(
                        ts.as_str(),
                    ).concat("] -> ").concat(s2.as_str()).concat(" | ").concat(x.as_str()).concat(
                        "::",
                    ).concat(y.as_str()).concat(" -> ").concat(s3.as_str()),
                )
            }
            Expr::Func(x, t, b) => {
                let ts = t.to_string();
                let bs = b.to_string_with_precedence(0);
                (
                    2,
                    "fun ".to_owned().concat(x.as_str()).concat(" : ").concat(ts.as_str()).concat(
                        " -> ",
                    ).concat(bs.as_str()),
                )
            }
            Expr::Recursion(x, t, b) => {
                let ts = t.to_string();
                let bs = b.to_string_with_precedence(0);
                (
                    1,
                    "rec ".to_owned().concat(x.as_str()).concat(" : ").concat(ts.as_str()).concat(
                        " is ",
                    ).concat(bs.as_str()),
                )
            }
        };
        if inner_precedence > outer_precedence {
            result
        } else {
            "(".to_owned().concat(result.as_str()).concat(")")
        }
    }

    /// The canonical surface rendering of the expression, never parenthesized
    /// at the outermost level.
    pub fn to_string(&self) -> (r: String)
        ensures
            r@ == expr_chars(*self),
    {
        self.to_string_with_precedence(-1)
    }
}

impl Type {
    /// Renders the type for a context of precedence `outer_precedence`,
    /// parenthesizing the whole result exactly when this node's own rank
    /// does not exceed it.
    pub fn to_string_with_precedence(&self, outer_precedence: i32) -> (r: String)
        ensures
            r@ == ty_chars_at(*self, outer_precedence as int),
        decreases *self,
    {
        let (inner_precedence, result): (i32, String) = match self {
            Type::Int => (4, "int".to_owned()),
            Type::Bool => (4, "bool".to_owned()),
            Type::Mult(left, right) => {
                let left_str = left.to_string_with_precedence(1);
                let right_str = right.to_string_with_precedence(2);
                (2, left_str.concat(" * ").concat(right_str.as_str()))
            }
            Type::Func(arg, ret) => {
                let arg_str = arg.to_string_with_precedence(1);
                let ret_str = ret.to_string_with_precedence(0);
                (1, arg_str.concat(" -> ").concat(ret_str.as_str()))
            }
            Type::List(ty) => {
                let ty_str = ty.to_string_with_precedence(2);
                (3, ty_str.concat(" list"))
            }
        };
        if inner_precedence > outer_precedence {
            result
        } else {
            "(".to_owned().concat(result.as_str()).concat(")")
        }
    }

    /// The canonical surface rendering of the type, never parenthesized at
    /// the outermost level.
    pub fn to_string(&self) -> (r: String)
        ensures
            r@ == ty_chars(*self),
    {
        self.to_string_with_precedence(-1)
    }
}

/// The first binding for `x`, cloned out of the list.
fn lookup_binding(subs: &Vec<(String, Expr)>, x: &String) -> (r: Option<Expr>)
    ensures
        r == spec_lookup(subs@, x@),
{
    let mut i: usize = 0;
    proof {
        assert(subs@.skip(0) =~= subs@);
    }
    while i < subs.len()
        invariant
            i <= subs.len(),
            spec_lookup(subs@, x@) == spec_lookup(subs@.skip(i as int), x@),
        decreases subs.len() - i,
    {
        if subs[i].0 == *x {
            proof {
                assert(subs@.skip(i as int)[0] == subs@[i as int]);
            }
            return Some(subs[i].1.clone());
        }
        proof {
            assert(subs@.skip(i as int).drop_first() =~= subs@.skip(i as int + 1));
        }
        i += 1;
    }
    proof {
        assert(subs@.skip(i as int) =~= Seq::<(String, Expr)>::empty());
    }
    None
}

/// The bindings with every entry for `x` filtered out.
fn remove_binding(subs: &Vec<(String, Expr)>, x: &String) -> (r: Vec<(String, Expr)>)
    ensures
        r@ == remove_name(subs@, x@),
{
    let mut r: Vec<(String, Expr)> = Vec::new();
    let mut i: usize = 0;
    while i < subs.len()
        invariant
            i <= subs.len(),
            r@ == remove_name(subs@.take(i as int), x@),
        decreases subs.len() - i,
    {
        proof {
            assert(subs@.take(i as int + 1).drop_last() =~= subs@.take(i as int));
            assert(subs@.take(i as int + 1).last() == subs@[i as int]);
        }
        if !(subs[i].0 == *x) {
            let name = subs[i].0.clone();
            let value = subs[i].1.clone();
            r.push((name, value));
        }
        i += 1;
    }
    proof {
        assert(subs@.take(i as int) =~= subs@);
    }
    r
}

/// The bindings with every entry for `x` or `y` filtered out.
fn remove_two_bindings(subs: &Vec<(String, Expr)>, x: &String, y: &String) -> (r: Vec<
    (String, Expr),
>)
    ensures
        r@ == remove_two_names(subs@, x@, y@),
{
    let mut r: Vec<(String, Expr)> = Vec::new();
    let mut i: usize = 0;
    while i < subs.len()
        invariant
            i <= subs.len(),
            r@ == remove_two_names(subs@.take(i as int), x@, y@),
        decreases subs.len() - i,
    {
        proof {
            assert(subs@.take(i as int + 1).drop_last() =~= subs@.take(i as int));
            assert(subs@.take(i as int + 1).last() == subs@[i as int]);
        }
        if !(subs[i].0 == *x) && !(subs[i].0 == *y) {
            let name = subs[i].0.clone();
            let value = subs[i].1.clone();
            r.push((name, value));
        }
        i += 1;
    }
    proof {
        assert(subs@.take(i as int) =~= subs@);
    }
    r
}

impl Expr {
    /// Applies the substitution list to `expr`, building a new tree: each
    /// free variable is replaced by its first matching binding, and binder
    /// forms shadow their own names for the extent of their scope.
    pub fn subst(substitutions: &Vec<(String, Expr)>, expr: &Expr) -> (r: Expr)
        ensures
            r == spec_subst(substitutions@, *expr),
        decreases *expr,
    {
        match expr {
            Expr::Var(x) => match lookup_binding(substitutions, x) {
                Some(e) => e,
                None => expr.clone(),
            },
            Expr::Int(_) => expr.clone(),
            Expr::Bool(_) => expr.clone(),
            Expr::Nil(_) => expr.clone(),
            Expr::Times(a, b) => Expr::Times(
                Box::new(Self::subst(substitutions, &**a)),
                Box::new(Self::subst(substitutions, &**b)),
            ),
            Expr::Divide(a, b) => Expr::Divide(
                Box::new(Self::subst(substitutions, &**a)),
                Box::new(Self::subst(substitutions, &**b)),
            ),
            Expr::Mod(a, b) => Expr::Mod(
                Box::new(Self::subst(substitutions, &**a)),
                Box::new(Self::subst(substitutions, &**b)),
            ),
            Expr::Plus(a, b) => Expr::Plus(
                Box::new(Self::subst(substitutions, &**a)),
                Box::new(Self::subst(substitutions, &**b)),
            ),
            Expr::Minus(a, b) => Expr::Minus(
                Box::new(Self::subst(substitutions, &**a)),
                Box::new(Self::subst(substitutions, &**b)),
            ),
            Expr::Equal(a, b) => Expr::Equal(
                Box::new(Self::subst(substitutions, &**a)),
                Box::new(Self::subst(substitutions, &**b)),
            ),
            Expr::Less(a, b) => Expr::Less(
                Box::new(Self::subst(substitutions, &**a)),
                Box::new(Self::subst(substitutions, &**b)),
            ),
            Expr::If(c, t, f) => Expr::If(
                Box::new(Self::subst(substitutions, &**c)),
                Box::new(Self::subst(substitutions, &**t)),
                Box::new(Self::subst(substitutions, &**f)),
            ),
            Expr::Func(var, ty, e) => {
                let filtered_subs = remove_binding(substitutions, var);
                Expr::Func(
                    var.clone(),
                    Box::new((**ty).clone()),
                    Box::new(Self::subst(&filtered_subs, &**e)),
                )
            }
            Expr::Apply(a, b) => Expr::Apply(
                Box::new(Self::subst(substitutions, &**a)),
                Box::new(Self::subst(substitutions, &**b)),
            ),
            Expr::Pair(a, b) => Expr::Pair(
                Box::new(Self::subst(substitutions, &**a)),
                Box::new(Self::subst(substitutions, &**b)),
            ),
            Expr::First(a) => Expr::First(Box::new(Self::subst(substitutions, &**a))),
            Expr::Second(a) => Expr::Second(Box::new(Self::subst(substitutions, &**a))),
            Expr::Recursion(var, ty, e) => {
                let filtered_subs = remove_binding(substitutions, var);
                Expr::Recursion(
                    var.clone(),
                    Box::new((**ty).clone()),
                    Box::new(Self::subst(&filtered_subs, &**e)),
                )
            }
            Expr::Cons(a, b) => Expr::Cons(
                Box::new(Self::subst(substitutions, &**a)),
                Box::new(Self::subst(substitutions, &**b)),
            ),
            Expr::Match(e1, ty, e2, x, y, e3) => {
                let filtered_subs = remove_two_bindings(substitutions, x, y);
                Expr::Match(
                    Box::new(Self::subst(substitutions, &**e1)),
                    Box::new((**ty).clone()),
                    Box::new(Self::subst(substitutions, &**e2)),
                    x.clone(),
                    y.clone(),
                    Box::new(Self::subst(&filtered_subs, &**e3)),
                )
            }
        }
    }
}

/// Substituting with an empty binding list changes nothing: there is no
/// name left to replace.
pub proof fn lemma_subst_empty(e: Expr)
    ensures
        spec_subst(Seq::empty(), e) == e,
    decreases e,
{
    match e {
        Expr::Var(x) => {}
        Expr::Int(_) => {}
        Expr::Bool(_) => {}
        Expr::Nil(_) => {}
        Expr::Times(a, b) => {
            lemma_subst_empty(*a);
            lemma_subst_empty(*b);
        }
        Expr::Divide(a, b) => {
            lemma_subst_empty(*a);
            lemma_subst_empty(*b);
        }
        Expr::Mod(a, b) => {
            lemma_subst_empty(*a);
            lemma_subst_empty(*b);
        }
        Expr::Plus(a, b) => {
            lemma_subst_empty(*a);
            lemma_subst_empty(*b);
        }
        Expr::Minus(a, b) => {
            lemma_subst_empty(*a);
            lemma_subst_empty(*b);
        }
        Expr::Equal(a, b) => {
            lemma_subst_empty(*a);
            lemma_subst_empty(*b);
        }
        Expr::Less(a, b) => {
            lemma_subst_empty(*a);
            lemma_subst_empty(*b);
        }
        Expr::If(c, t, f) => {
            lemma_subst_empty(*c);
            lemma_subst_empty(*t);
            lemma_subst_empty(*f);
        }
        Expr::Func(x, t, b) => {
            assert(remove_name(Seq::empty(), x@) =~= Seq::<(String, Expr)>::empty());
            lemma_subst_empty(*b);
        }
        Expr::Apply(a, b) => {
            lemma_subst_empty(*a);
            lemma_subst_empty(*b);
        }
        Expr::Pair(a, b) => {
            lemma_subst_empty(*a);
            lemma_subst_empty(*b);
        }
        Expr::First(a) => {
            lemma_subst_empty(*a);
        }
        Expr::Second(a) => {
            lemma_subst_empty(*a);
        }
        Expr::Recursion(x, t, b) => {
            assert(remove_name(Seq::empty(), x@) =~= Seq::<(String, Expr)>::empty());
            lemma_subst_empty(*b);
        }
        Expr::Cons(a, b) => {
            lemma_subst_empty(*a);
            lemma_subst_empty(*b);
        }
        Expr::Match(s, t, n, x, y, c) => {
            lemma_subst_empty(*s);
            lemma_subst_empty(*n);
            assert(remove_two_names(Seq::empty(), x@, y@) =~= Seq::<(String, Expr)>::empty());
            lemma_subst_empty(*c);
        }
    }
}

/// Removing a name from a list in which every binding carries that name
/// leaves nothing.
pub proof fn lemma_remove_name_all(subs: Seq<(String, Expr)>, x: Seq<char>)
    requires
        forall|i: int| 0 <= i < subs.len() ==> subs[i].0@ == x,
    ensures
        remove_name(subs, x) == Seq::<(String, Expr)>::empty(),
    decreases subs.len(),
{
    if subs.len() > 0 {
        lemma_remove_name_all(subs.drop_last(), x);
    }
}

/// Removing two names from a list in which every binding carries one of
/// them leaves nothing.
pub proof fn lemma_remove_two_names_all(subs: Seq<(String, Expr)>, x: Seq<char>, y: Seq<char>)
    requires
        forall|i: int| 0 <= i < subs.len() ==> subs[i].0@ == x || subs[i].0@ == y,
    ensures
        remove_two_names(subs, x, y) == Seq::<(String, Expr)>::empty(),
    decreases subs.len(),
{
    if subs.len() > 0 {
        lemma_remove_two_names_all(subs.drop_last(), x, y);
    }
}

/// A lambda binder shadows its own name: when every binding in the list
/// carries the bound name, substitution leaves the whole abstraction
/// untouched. The same holds of the fixpoint binder.
pub proof fn lemma_binder_shadowing(subs: Seq<(String, Expr)>, x: String, t: Type, b: Expr)
    requires
        forall|i: int| 0 <= i < subs.len() ==> subs[i].0@ == x@,
    ensures
        spec_subst(subs, Expr::Func(x, Box::new(t), Box::new(b))) == Expr::Func(
            x,
            Box::new(t),
            Box::new(b),
        ),
        spec_subst(subs, Expr::Recursion(x, Box::new(t), Box::new(b))) == Expr::Recursion(
            x,
            Box::new(t),
            Box::new(b),
        ),
{
    lemma_remove_name_all(subs, x@);
    lemma_subst_empty(b);
}

/// The two match binders scope over the cons branch only: when every
/// binding carries one of the two bound names, the cons branch comes back
/// untouched, while the scrutinee and the nil branch are substituted with
/// the full, unfiltered binding list.
pub proof fn lemma_match_binder_scoping(
    subs: Seq<(String, Expr)>,
    scrutinee: Expr,
    t: Type,
    nil_branch: Expr,
    x: String,
    y: String,
    cons_branch: Expr,
)
    requires
        forall|i: int| 0 <= i < subs.len() ==> subs[i].0@ == x@ || subs[i].0@ == y@,
    ensures
        spec_subst(
            subs,
            Expr::Match(
                Box::new(scrutinee),
                Box::new(t),
                Box::new(nil_branch),
                x,
                y,
                Box::new(cons_branch),
            ),
        ) == Expr::Match(
            Box::new(spec_subst(subs, scrutinee)),
            Box::new(t),
            Box::new(spec_subst(subs, nil_branch)),
            x,
            y,
            Box::new(cons_branch),
        ),
{
    lemma_remove_two_names_all(subs, x@, y@);
    lemma_subst_empty(cons_branch);
}

} // verus!
