//! Recursive-descent parsers over the token stream: the layered type
//! grammar (atoms, postfix `list`, infix `*`, right-associative `->`), the
//! bracketed empty-list type, and the expression layer (atoms, a flat
//! left-to-right fold over the four arithmetic operators with no relative
//! precedence among them, and a single non-chaining comparison).
//!
//! Each executable parser is specified against a spec-level parser over
//! `Seq<Token>` and a position; the type layer signals failure by an absent
//! result, the expression layer by a structured error carrying the token
//! it stumbled on and its position.

use vstd::prelude::*;
use crate::ast::{Expr, Type};
use crate::lexer::Token;

verus! {

/// What the expression parser was looking for when it failed.
#[derive(Debug, PartialEq, Eq, Clone, Copy)]
pub enum Expected {
    Expression,
    ClosingParen,
}

/// A failed parse: the token (or the end of the input) that stopped it,
/// with its position in the token stream.
#[derive(Debug, PartialEq, Eq, Clone, Copy)]
pub enum ParseError {
    UnexpectedToken { expected: Expected, found: Token, at: usize },
    UnexpectedEndOfInput { at: usize },
}

/// A simple type: `int`, `bool`, or a parenthesized type.
pub open spec fn spec_parse_ty_simple(toks: Seq<Token>, pos: int) -> Option<(Type, int)>
    decreases toks.len() - pos, 0int,
{
    if pos < 0 || pos >= toks.len() {
        None
    } else {
        match toks[pos] {
            Token::TypeBool => Some((Type::Bool, pos + 1)),
            Token::TypeInt => Some((Type::Int, pos + 1)),
            Token::LParen => match spec_parse_ty(toks, pos + 1) {
                Some((t, p)) => if p < toks.len() && toks[p] == Token::RParen {
                    Some((t, p + 1))
                } else {
                    None
                },
                None => None,
            },
            _ => None,
        }
    }
}

/// Folds the postfix `list` applications that follow an already parsed
/// type.
pub open spec fn spec_list_suffix(t: Type, toks: Seq<Token>, pos: int) -> (Type, int)
    decreases toks.len() - pos, 1int,
{
    if 0 <= pos < toks.len() && toks[pos] == Token::TypeList {
        spec_list_suffix(Type::List(Box::new(t)), toks, pos + 1)
    } else {
        (t, pos)
    }
}

/// A list type: a simple type followed by any run of postfix `list`.
pub open spec fn spec_parse_ty_list(toks: Seq<Token>, pos: int) -> Option<(Type, int)>
    decreases toks.len() - pos, 2int,
{
    match spec_parse_ty_simple(toks, pos) {
        Some((t, p)) => if pos <= p <= toks.len() {
            Some(spec_list_suffix(t, toks, p))
        } else {
            None
        },
        None => None,
    }
}

/// Folds the left-associative `*` applications that follow an already
/// parsed left operand.
pub open spec fn spec_times_rest(left: Type, toks: Seq<Token>, pos: int) -> Option<(Type, int)>
    decreases toks.len() - pos, 3int,
{
    if 0 <= pos < toks.len() && toks[pos] == Token::Mult {
        match spec_parse_ty_list(toks, pos + 1) {
            Some((right, p2)) => if pos < p2 <= toks.len() {
                spec_times_rest(Type::Mult(Box::new(left), Box::new(right)), toks, p2)
            } else {
                None
            },
            None => None,
        }
    } else {
        Some((left, pos))
    }
}

/// A product type: list types folded left over infix `*`.
pub open spec fn spec_parse_ty_times(toks: Seq<Token>, pos: int) -> Option<(Type, int)>
    decreases toks.len() - pos, 4int,
{
    match spec_parse_ty_list(toks, pos) {
        Some((t, p)) => if pos <= p <= toks.len() {
            spec_times_rest(t, toks, p)
        } else {
            None
        },
        None => None,
    }
}

/// A full type: a product type, optionally followed by `->` and a full
/// type (the arrow is right-associative).
pub open spec fn spec_parse_ty(toks: Seq<Token>, pos: int) -> Option<(Type, int)>
    decreases toks.len() - pos, 5int,
{
    match spec_parse_ty_times(toks, pos) {
        Some((t, p)) => if pos <= p && p < toks.len() && toks[p] == Token::DashArrow {
            match spec_parse_ty(toks, p + 1) {
                Some((r, p2)) => Some((Type::Func(Box::new(t), Box::new(r)), p2)),
                None => None,
            }
        } else {
            Some((t, p))
        },
        None => None,
    }
}

/// A bracketed element type, `[` type `]`, read as the type of an empty
/// list of that element type.
pub open spec fn spec_parse_nil(toks: Seq<Token>, pos: int) -> Option<(Type, int)> {
    if 0 <= pos < toks.len() && toks[pos] == Token::LSquareBrack {
        match spec_parse_ty(toks, pos + 1) {
            Some((t, p)) => if p < toks.len() && toks[p] == Token::RSquareBrack {
                Some((Type::List(Box::new(t)), p + 1))
            } else {
                None
            },
            None => None,
        }
    } else {
        None
    }
}

/// The expression node for one of the four flat arithmetic operators.
pub open spec fn arith_node(op: Token, a: Expr, b: Expr) -> Expr {
    if op == Token::Mult {
        Expr::Times(Box::new(a), Box::new(b))
    } else if op == Token::Divide {
        Expr::Divide(Box::new(a), Box::new(b))
    } else if op == Token::Plus {
        Expr::Plus(Box::new(a), Box::new(b))
    } else {
        Expr::Minus(Box::new(a), Box::new(b))
    }
}

/// Whether the token is one of the four flat arithmetic operators.
pub open spec fn is_arith_op(t: Token) -> bool {
    t == Token::Mult || t == Token::Divide || t == Token::Plus || t == Token::Minus
}

/// A basic expression: an integer literal, a boolean literal, or a
/// parenthesized binary expression.
pub open spec fn spec_parse_basic(toks: Seq<Token>, pos: int) -> Result<(Expr, int), ParseError>
    decreases toks.len() - pos, 0int,
{
    if pos < 0 || pos >= toks.len() {
        Err(ParseError::UnexpectedEndOfInput { at: pos as usize })
    } else {
        match toks[pos] {
            Token::Integer(v) => Ok((Expr::Int(v), pos + 1)),
            Token::True => Ok((Expr::Bool(true), pos + 1)),
            Token::False => Ok((Expr::Bool(false), pos + 1)),
            Token::LParen => match spec_parse_binary(toks, pos + 1) {
                Ok((e, p)) => if p < toks.len() && toks[p] == Token::RParen {
                    Ok((e, p + 1))
                } else if p >= toks.len() {
                    Err(ParseError::UnexpectedEndOfInput { at: p as usize })
                } else {
                    Err(
                        ParseError::UnexpectedToken {
                            expected: Expected::ClosingParen,
                            found: toks[p],
                            at: p as usize,
                        },
                    )
                },
                Err(e) => Err(e),
            },
            _ => Err(
                ParseError::UnexpectedToken {
                    expected: Expected::Expression,
                    found: toks[pos],
                    at: pos as usize,
                },
            ),
        }
    }
}

/// Continues a binary expression after an already parsed left operand:
/// arithmetic operators fold flat to the left; a comparison, if one
/// appears instead, is read once and ends the expression.
pub open spec fn spec_bin_rest(left: Expr, toks: Seq<Token>, pos: int) -> Result<
    (Expr, int),
    ParseError,
>
    decreases toks.len() - pos, 1int,
{
    if 0 <= pos < toks.len() && is_arith_op(toks[pos]) {
        match spec_parse_basic(toks, pos + 1) {
            Ok((r, p2)) => if pos < p2 <= toks.len() {
                spec_bin_rest(arith_node(toks[pos], left, r), toks, p2)
            } else {
                Err(ParseError::UnexpectedEndOfInput { at: pos as usize })
            },
            Err(e) => Err(e),
        }
    } else if 0 <= pos < toks.len() && (toks[pos] == Token::Equal || toks[pos] == Token::Less) {
        match spec_parse_basic(toks, pos + 1) {
            Ok((r, p2)) => if toks[pos] == Token::Equal {
                Ok((Expr::Equal(Box::new(left), Box::new(r)), p2))
            } else {
                Ok((Expr::Less(Box::new(left), Box::new(r)), p2))
            },
            Err(e) => Err(e),
        }
    } else {
        Ok((left, pos))
    }
}

/// A binary expression: a basic expression, continued by `spec_bin_rest`.
pub open spec fn spec_parse_binary(toks: Seq<Token>, pos: int) -> Result<(Expr, int), ParseError>
    decreases toks.len() - pos, 2int,
{
    match spec_parse_basic(toks, pos) {
        Ok((l, p)) => if pos <= p <= toks.len() {
            spec_bin_rest(l, toks, p)
        } else {
            Err(ParseError::UnexpectedEndOfInput { at: pos as usize })
        },
        Err(e) => Err(e),
    }
}

/// A pull-based parser over a token stream, reading left to right.
pub struct Parser {
    tokens: Vec<Token>,
    pos: usize,
}

impl Parser {
    /// The token stream being parsed.
    pub closed spec fn toks(self) -> Seq<Token> {
        self.tokens@
    }

    /// The current read position in the token stream.
    pub closed spec fn at(self) -> int {
        self.pos as int
    }

    /// The read position never runs past the end of the stream.
    pub closed spec fn wf(self) -> bool {
        self.pos <= self.tokens@.len()
    }

    /// A parser positioned at the start of the given token stream.
    pub fn new(tokens: Vec<Token>) -> (r: Self)
        ensures
            r.wf(),
            r.toks() == tokens@,
            r.at() == 0,
    {
        Self { tokens, pos: 0 }
    }

    /// Parses a simple type: `int`, `bool`, or a parenthesized type.
    #[verifier::loop_isolation(false)]
    pub fn parse_ty_simple(&mut self) -> (r: Option<Type>)
        requires
            old(self).wf(),
        ensures
            final(self).wf(),
            final(self).toks() == old(self).toks(),
            match r {
                Some(t) => spec_parse_ty_simple(old(self).toks(), old(self).at()) == Some(
                    (t, final(self).at()),
                ) && old(self).at() < final(self).at(),
                None => spec_parse_ty_simple(old(self).toks(), old(self).at()) is None,
            },
        decreases old(self).toks().len() - old(self).at(), 0int,
    {
        if self.pos >= self.tokens.len() {
            return None;
        }
        let tk = self.tokens[self.pos];
        match tk {
            Token::TypeBool => {
                self.pos = self.pos + 1;
                Some(Type::Bool)
            }
            Token::TypeInt => {
                self.pos = self.pos + 1;
                Some(Type::Int)
            }
            Token::LParen => {
                self.pos = self.pos + 1;
                let ty = self.parse_ty();
                match ty {
                    Some(t) => {
                        if self.pos < self.tokens.len() && matches!(
                            self.tokens[self.pos],
                            Token::RParen,
                        ) {
                            self.pos = self.pos + 1;
                            Some(t)
                        } else {
                            None
                        }
                    }
                    None => None,
                }
            }
            _ => None,
        }
    }

    /// Parses a list type: a simple type followed by any run of postfix
    /// `list`.
    #[verifier::loop_isolation(false)]
    pub fn parse_ty_list(&mut self) -> (r: Option<Type>)
        requires
            old(self).wf(),
        ensures
            final(self).wf(),
            final(self).toks() == old(self).toks(),
            match r {
                Some(t) => spec_parse_ty_list(old(self).toks(), old(self).at()) == Some(
                    (t, final(self).at()),
                ) && old(self).at() < final(self).at(),
                None => spec_parse_ty_list(old(self).toks(), old(self).at()) is None,
            },
        decreases old(self).toks().len() - old(self).at(), 2int,
    {
        let base = match self.parse_ty_simple() {
            Some(t) => t,
            None => {
                return None;
            }
        };
        let mut result = base;
        while self.pos < self.tokens.len() && matches!(self.tokens[self.pos], Token::TypeList)
            invariant
                self.wf(),
                self.toks() == old(self).toks(),
                old(self).at() < self.at(),
                spec_parse_ty_list(old(self).toks(), old(self).at()) == Some(
                    spec_list_suffix(result, self.toks(), self.at()),
                ),
            decreases self.toks().len() - self.at(),
        {
            self.pos = self.pos + 1;
            result = Type::List(Box::new(result));
        }
        Some(result)
    }

    /// Parses a product type: list types folded left over infix `*`.
    #[verifier::loop_isolation(false)]
    pub fn parse_ty_times(&mut self) -> (r: Option<Type>)
        requires
            old(self).wf(),
        ensures
            final(self).wf(),
            final(self).toks() == old(self).toks(),
            match r {
                Some(t) => spec_parse_ty_times(old(self).toks(), old(self).at()) == Some(
                    (t, final(self).at()),
                ) && old(self).at() < final(self).at(),
                None => spec_parse_ty_times(old(self).toks(), old(self).at()) is None,
            },
        decreases old(self).toks().len() - old(self).at(), 4int,
    {
        let mut left = match self.parse_ty_list() {
            Some(t) => t,
            None => {
                return None;
            }
        };
        while self.pos < self.tokens.len() && matches!(self.tokens[self.pos], Token::Mult)
            invariant
                self.wf(),
                self.toks() == old(self).toks(),
                old(self).at() < self.at(),
                spec_parse_ty_times(old(self).toks(), old(self).at()) == spec_times_rest(
                    left,
                    self.toks(),
                    self.at(),
                ),
            decreases self.toks().len() - self.at(),
        {
            self.pos = self.pos + 1;
            let right = match self.parse_ty_list() {
                Some(t) => t,
                None => {
                    return None;
                }
            };
            left = Type::Mult(Box::new(left), Box::new(right));
        }
        Some(left)
    }

    /// Parses a full type: a product type, optionally followed by a
    /// right-associative `->` arrow type.
    #[verifier::loop_isolation(false)]
    pub fn parse_ty(&mut self) -> (r: Option<Type>)
        requires
            old(self).wf(),
        ensures
            final(self).wf(),
            final(self).toks() == old(self).toks(),
            match r {
                Some(t) => spec_parse_ty(old(self).toks(), old(self).at()) == Some((t, final(self).at()))
                    && old(self).at() < final(self).at(),
                None => spec_parse_ty(old(self).toks(), old(self).at()) is None,
            },
        decreases old(self).toks().len() - old(self).at(), 5int,
    {
        let ty = match self.parse_ty_times() {
            Some(t) => t,
            None => {
                return None;
            }
        };
        if self.pos < self.tokens.len() && matches!(self.tokens[self.pos], Token::DashArrow) {
            self.pos = self.pos + 1;
            match self.parse_ty() {
                Some(right_ty) => Some(Type::Func(Box::new(ty), Box::new(right_ty))),
                None => None,
            }
        } else {
            Some(ty)
        }
    }

    /// Parses a bracketed element type, `[` type `]`, as the type of an
    /// empty list.
    #[verifier::loop_isolation(false)]
    pub fn parse_nil(&mut self) -> (r: Option<Type>)
        requires
            old(self).wf(),
        ensures
            final(self).wf(),
            final(self).toks() == old(self).toks(),
            match r {
                Some(t) => spec_parse_nil(old(self).toks(), old(self).at()) == Some(
                    (t, final(self).at()),
                ) && old(self).at() < final(self).at(),
                None => spec_parse_nil(old(self).toks(), old(self).at()) is None,
            },
    {
        if self.pos >= self.tokens.len() {
            return None;
        }
        let tk = self.tokens[self.pos];
        self.pos = self.pos + 1;
        if matches!(tk, Token::LSquareBrack) {
            let ty = match self.parse_ty() {
                Some(t) => t,
                None => {
                    return None;
                }
            };
            if self.pos < self.tokens.len() && matches!(self.tokens[self.pos], Token::RSquareBrack) {
                self.pos = self.pos + 1;
                Some(Type::List(Box::new(ty)))
            } else {
                None
            }
        } else {
            None
        }
    }

    /// Parses a basic expression: an integer literal, a boolean literal,
    /// or a parenthesized binary expression.
    #[verifier::loop_isolation(false)]
    pub fn parse_basic_binary_expr(&mut self) -> (r: Result<Expr, ParseError>)
        requires
            old(self).wf(),
        ensures
            final(self).wf(),
            final(self).toks() == old(self).toks(),
            match r {
                Ok(e) => spec_parse_basic(old(self).toks(), old(self).at()) == Ok::<
                    (Expr, int),
                    ParseError,
                >((e, final(self).at())) && old(self).at() < final(self).at(),
                Err(pe) => spec_parse_basic(old(self).toks(), old(self).at()) == Err::<
                    (Expr, int),
                    ParseError,
                >(pe),
            },
        decreases old(self).toks().len() - old(self).at(), 0int,
    {
        if self.pos >= self.tokens.len() {
            return Err(ParseError::UnexpectedEndOfInput { at: self.pos });
        }
        let tk = self.tokens[self.pos];
        match tk {
            Token::Integer(value) => {
                self.pos = self.pos + 1;
                Ok(Expr::Int(value))
            }
            Token::True => {
                self.pos = self.pos + 1;
                Ok(Expr::Bool(true))
            }
            Token::False => {
                self.pos = self.pos + 1;
                Ok(Expr::Bool(false))
            }
            Token::LParen => {
                self.pos = self.pos + 1;
                match self.parse_binary_expr() {
                    Ok(e) => {
                        if self.pos < self.tokens.len() && matches!(
                            self.tokens[self.pos],
                            Token::RParen,
                        ) {
                            self.pos = self.pos + 1;
                            Ok(e)
                        } else if self.pos >= self.tokens.len() {
                            Err(ParseError::UnexpectedEndOfInput { at: self.pos })
                        } else {
                            Err(
                                ParseError::UnexpectedToken {
                                    expected: Expected::ClosingParen,
                                    found: self.tokens[self.pos],
                                    at: self.pos,
                                },
                            )
                        }
                    }
                    Err(e) => Err(e),
                }
            }
            _ => Err(
                ParseError::UnexpectedToken {
                    expected: Expected::Expression,
                    found: tk,
                    at: self.pos,
                },
            ),
        }
    }

    /// Parses a binary expression: basic expressions folded flat and left
    /// to right over `+`, `-`, `*` and `/` (no relative precedence among
    /// them), optionally ended by a single non-chaining `=` or `<`
    /// comparison.
    #[verifier::loop_isolation(false)]
    pub fn parse_binary_expr(&mut self) -> (r: Result<Expr, ParseError>)
        requires
            old(self).wf(),
        ensures
            final(self).wf(),
            final(self).toks() == old(self).toks(),
            match r {
                Ok(e) => spec_parse_binary(old(self).toks(), old(self).at()) == Ok::<
                    (Expr, int),
                    ParseError,
                >((e, final(self).at())) && old(self).at() < final(self).at(),
                Err(pe) => spec_parse_binary(old(self).toks(), old(self).at()) == Err::<
                    (Expr, int),
                    ParseError,
                >(pe),
            },
        decreases old(self).toks().len() - old(self).at(), 2int,
    {
        let mut left = match self.parse_basic_binary_expr() {
            Ok(e) => e,
            Err(e) => {
                return Err(e);
            }
        };
        while self.pos < self.tokens.len() && matches!(
            self.tokens[self.pos],
            Token::Plus | Token::Minus | Token::Mult | Token::Divide,
        )
            invariant
                self.wf(),
                self.toks() == old(self).toks(),
                old(self).at() < self.at(),
                spec_parse_binary(old(self).toks(), old(self).at()) == spec_bin_rest(
                    left,
                    self.toks(),
                    self.at(),
                ),
            decreases self.toks().len() - self.at(),
        {
            let op = self.tokens[self.pos];
            self.pos = self.pos + 1;
            let right = match self.parse_basic_binary_expr() {
                Ok(e) => e,
                Err(e) => {
                    return Err(e);
                }
            };
            left = match op {
                Token::Mult => Expr::Times(Box::new(left), Box::new(right)),
                Token::Divide => Expr::Divide(Box::new(left), Box::new(right)),
                Token::Plus => Expr::Plus(Box::new(left), Box::new(right)),
                _ => Expr::Minus(Box::new(left), Box::new(right)),
            };
        }
        if self.pos < self.tokens.len() && matches!(self.tokens[self.pos], Token::Equal) {
            self.pos = self.pos + 1;
            match self.parse_basic_binary_expr() {
                Ok(right) => Ok(Expr::Equal(Box::new(left), Box::new(right))),
                Err(e) => Err(e),
            }
        } else if self.pos < self.tokens.len() && matches!(self.tokens[self.pos], Token::Less) {
            self.pos = self.pos + 1;
            match self.parse_basic_binary_expr() {
                Ok(right) => Ok(Expr::Less(Box::new(left), Box::new(right))),
                Err(e) => Err(e),
            }
        } else {
            Ok(left)
        }
    }
}

} // verus!
