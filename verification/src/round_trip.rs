//! The round-trip law for types: lexing and parsing the canonical
//! rendering of any type yields that type back, with the whole input
//! consumed.
//!
//! The proof goes in two halves. `ty_tokens_at` is the token stream that
//! the printer's text denotes; the parser half shows that the type grammar
//! reads exactly that stream back into the printed type, and the lexer
//! half shows that lexing the printed text produces exactly that stream.

use vstd::prelude::*;
use crate::ast::{ty_chars, ty_chars_at, ty_chars_body, ty_rank, Type};
use crate::lexer::{
    is_space, lex_prepend, spec_lex, spec_lex_from, spec_matches_at, spec_token_at, Token,
};
use crate::parser::{
    spec_list_suffix, spec_parse_ty, spec_parse_ty_list, spec_parse_ty_simple, spec_parse_ty_times,
    spec_times_rest,
};

verus! {

/// The token stream of `t` itself, without outer parentheses.
pub open spec fn ty_tokens_body(t: Type) -> Seq<Token>
    decreases t, 0int,
{
    match t {
        Type::Int => seq![Token::TypeInt],
        Type::Bool => seq![Token::TypeBool],
        Type::Mult(a, b) => ty_tokens_at(*a, 1) + seq![Token::Mult] + ty_tokens_at(*b, 2),
        Type::Func(a, b) => ty_tokens_at(*a, 1) + seq![Token::DashArrow] + ty_tokens_at(*b, 0),
        Type::List(u) => ty_tokens_at(*u, 2) + seq![Token::TypeList],
    }
}

/// The token stream of `t` in a context of precedence `ctx`: wrapped in
/// parentheses exactly when the printer parenthesizes.
pub open spec fn ty_tokens_at(t: Type, ctx: int) -> Seq<Token>
    decreases t, 1int,
{
    if ty_rank(t) > ctx {
        ty_tokens_body(t)
    } else {
        seq![Token::LParen] + ty_tokens_body(t) + seq![Token::RParen]
    }
}

/// The token stream of the canonical rendering of `t`.
pub open spec fn ty_tokens(t: Type) -> Seq<Token> {
    ty_tokens_at(t, -1)
}

/// The token stream `w` occurs in `toks` starting at `pos`, element for
/// element.
pub open spec fn toks_seg(toks: Seq<Token>, pos: int, w: Seq<Token>) -> bool {
    0 <= pos && pos + w.len() <= toks.len() && forall|i: int|
        0 <= i < w.len() ==> toks[pos + i] == w[i]
}

/// The position `q` does not hold a postfix `list` keyword (so a list
/// layer stops there).
pub open spec fn no_list_follow(toks: Seq<Token>, q: int) -> bool {
    q >= toks.len() || toks[q] != Token::TypeList
}

/// The position `q` holds none of the tokens that extend a type (so a
/// full type stops there).
pub open spec fn no_ty_follow(toks: Seq<Token>, q: int) -> bool {
    q >= toks.len() || (toks[q] != Token::TypeList && toks[q] != Token::Mult && toks[q]
        != Token::DashArrow)
}

/// Every printed type takes at least one token.
pub proof fn lemma_ty_tokens_nonempty(t: Type, ctx: int)
    ensures
        ty_tokens_body(t).len() >= 1,
        ty_tokens_at(t, ctx).len() >= 1,
{
    match t {
        Type::Int => {}
        Type::Bool => {}
        Type::Mult(a, b) => {}
        Type::Func(a, b) => {}
        Type::List(u) => {}
    }
}

/// The list layer reads the printed form of `t` back and is then left in
/// its postfix-`list` state at the end of it. `t` must be printable at
/// this layer: either its rank binds at least as tightly as a list, or it
/// is parenthesized.
pub proof fn lemma_parse_list_at(t: Type, ctx: int, toks: Seq<Token>, pos: int)
    requires
        toks_seg(toks, pos, ty_tokens_at(t, ctx)),
        ty_rank(t) >= 3 || ty_rank(t) <= ctx,
    ensures
        spec_parse_ty_list(toks, pos) == Some(
            spec_list_suffix(t, toks, pos + ty_tokens_at(t, ctx).len()),
        ),
    decreases t, (if ty_rank(t) <= ctx { 1int } else { 0int }), 0int,
{
    let w = ty_tokens_at(t, ctx);
    let end = pos + w.len();
    if ty_rank(t) <= ctx {
        // Parenthesized: the simple layer reads the opening parenthesis, a
        // full type, and the closing parenthesis.
        let body = ty_tokens_body(t);
        assert(toks[pos + 0] == w[0]);
        assert(toks[pos] == Token::LParen);
        assert(toks_seg(toks, pos + 1, body)) by {
            assert forall|i: int| 0 <= i < body.len() implies toks[pos + 1 + i] == body[i] by {
                assert(toks[pos + (i + 1)] == w[i + 1]);
            }
        }
        assert(toks[pos + 1 + body.len()] == Token::RParen) by {
            assert(toks[pos + (1 + body.len())] == w[1 + body.len() as int]);
        }
        lemma_parse_ty_at(t, toks, pos + 1);
        assert(spec_parse_ty_simple(toks, pos) == Some((t, end)));
    } else if t is Int || t is Bool {
        assert(toks[pos + 0] == w[0]);
        assert(spec_parse_ty_simple(toks, pos) == Some((t, pos + 1)));
    } else {
        // A bare list: the printed form of the element, then one more
        // postfix `list` for this node.
        let u = t->List_0;
        let wu = ty_tokens_at(*u, 2);
        assert(toks_seg(toks, pos, wu)) by {
            assert forall|i: int| 0 <= i < wu.len() implies toks[pos + i] == wu[i] by {
                assert(toks[pos + i] == w[i]);
            }
        }
        assert(toks[pos + wu.len()] == Token::TypeList) by {
            assert(toks[pos + wu.len() as int] == w[wu.len() as int]);
        }
        lemma_parse_list_at(*u, 2, toks, pos);
        assert(spec_list_suffix(*u, toks, pos + wu.len()) == spec_list_suffix(
            Type::List(Box::new(*u)),
            toks,
            pos + wu.len() + 1,
        ));
        assert(Type::List(Box::new(*u)) == t);
    }
}

/// The product layer reads the printed form of `t` back and is then left
/// in its infix-`*` state at the end of it, provided no postfix `list`
/// follows. Any rank down to a product can stand bare here.
pub proof fn lemma_parse_times_at(t: Type, ctx: int, toks: Seq<Token>, pos: int)
    requires
        toks_seg(toks, pos, ty_tokens_at(t, ctx)),
        ty_rank(t) >= 2 || ty_rank(t) <= ctx,
        no_list_follow(toks, pos + ty_tokens_at(t, ctx).len()),
    ensures
        spec_parse_ty_times(toks, pos) == spec_times_rest(
            t,
            toks,
            pos + ty_tokens_at(t, ctx).len(),
        ),
    decreases t, (if ty_rank(t) <= ctx { 1int } else { 0int }), 1int,
{
    let w = ty_tokens_at(t, ctx);
    let end = pos + w.len();
    if ty_rank(t) <= ctx || ty_rank(t) >= 3 {
        lemma_parse_list_at(t, ctx, toks, pos);
        assert(spec_list_suffix(t, toks, end) == (t, end));
        assert(spec_parse_ty_list(toks, pos) == Some((t, end)));
    } else {
        // A bare product: its left operand occupies the whole prefix up to
        // the top `*`, folded by the product layer's own loop.
        let a = t->Mult_0;
        let b = t->Mult_1;
        let wa = ty_tokens_at(*a, 1);
        let wb = ty_tokens_at(*b, 2);
        assert(w == wa + seq![Token::Mult] + wb);
        assert(toks_seg(toks, pos, wa)) by {
            assert forall|i: int| 0 <= i < wa.len() implies toks[pos + i] == wa[i] by {
                assert(toks[pos + i] == w[i]);
            }
        }
        let pm = pos + wa.len();
        assert(toks[pm] == Token::Mult) by {
            assert(toks[pos + wa.len()] == w[wa.len() as int]);
        }
        assert(toks_seg(toks, pm + 1, wb)) by {
            assert forall|i: int| 0 <= i < wb.len() implies toks[pm + 1 + i] == wb[i] by {
                assert(toks[pos + (wa.len() + 1 + i)] == w[wa.len() + 1 + i]);
            }
        }
        lemma_parse_times_at(*a, 1, toks, pos);
        lemma_parse_list_at(*b, 2, toks, pm + 1);
        lemma_ty_tokens_nonempty(*b, 2);
        assert(spec_list_suffix(*b, toks, end) == (*b, end));
        assert(spec_parse_ty_list(toks, pm + 1) == Some((*b, end)));
        assert(spec_times_rest(t, toks, end) == spec_times_rest(
            Type::Mult(Box::new(*a), Box::new(*b)),
            toks,
            end,
        ));
        assert(spec_times_rest(*a, toks, pm) == spec_times_rest(t, toks, end));
    }
}

/// The full type grammar reads the bare printed form of `t` back exactly,
/// provided none of the tokens that could extend a type follows it.
pub proof fn lemma_parse_ty_at(t: Type, toks: Seq<Token>, pos: int)
    requires
        toks_seg(toks, pos, ty_tokens_body(t)),
        no_ty_follow(toks, pos + ty_tokens_body(t).len()),
    ensures
        spec_parse_ty(toks, pos) == Some((t, pos + ty_tokens_body(t).len())),
    decreases t, 0int, 2int,
{
    let w = ty_tokens_body(t);
    let end = pos + w.len();
    if t is Func {
        let a = t->Func_0;
        let b = t->Func_1;
        let wa = ty_tokens_at(*a, 1);
        let wb = ty_tokens_at(*b, 0);
        assert(w == wa + seq![Token::DashArrow] + wb);
        assert(toks_seg(toks, pos, wa)) by {
            assert forall|i: int| 0 <= i < wa.len() implies toks[pos + i] == wa[i] by {
                assert(toks[pos + i] == w[i]);
            }
        }
        let pa = pos + wa.len();
        assert(toks[pa] == Token::DashArrow) by {
            assert(toks[pos + wa.len()] == w[wa.len() as int]);
        }
        assert(toks_seg(toks, pa + 1, wb)) by {
            assert forall|i: int| 0 <= i < wb.len() implies toks[pa + 1 + i] == wb[i] by {
                assert(toks[pos + (wa.len() + 1 + i)] == w[wa.len() + 1 + i]);
            }
        }
        lemma_parse_times_at(*a, 1, toks, pos);
        assert(spec_times_rest(*a, toks, pa) == Some((*a, pa)));
        assert(spec_parse_ty_times(toks, pos) == Some((*a, pa)));
        assert(ty_rank(*b) > 0);
        assert(wb == ty_tokens_body(*b));
        lemma_parse_ty_at(*b, toks, pa + 1);
        lemma_ty_tokens_nonempty(*a, 1);
    } else {
        assert(ty_rank(t) >= 2);
        assert(ty_tokens_at(t, 0) == w);
        lemma_parse_times_at(t, 0, toks, pos);
        assert(spec_times_rest(t, toks, end) == Some((t, end)));
    }
}

/// The word `w` occurs in `s` starting at `pos`, character for character.
pub open spec fn chars_seg(s: Seq<char>, pos: int, w: Seq<char>) -> bool {
    0 <= pos && pos + w.len() <= s.len() && forall|i: int|
        0 <= i < w.len() ==> s[pos + i] == w[i]
}

/// Prepending token lists one after the other is prepending their
/// concatenation.
proof fn lemma_prepend_assoc(a: Seq<Token>, b: Seq<Token>, r: Result<Seq<Token>, int>)
    ensures
        lex_prepend(a, lex_prepend(b, r)) == lex_prepend(a + b, r),
{
    match r {
        Ok(rest) => {
            assert(a + (b + rest) =~= (a + b) + rest);
        }
        Err(_) => {}
    }
}

/// One step of the lexer: a token read at `pos` is prepended to whatever
/// the rest of the input lexes to.
proof fn lemma_lex_token_step(s: Seq<char>, pos: int, tok: Token, q: int)
    requires
        0 <= pos < s.len(),
        !is_space(s[pos]),
        !(s[pos] == '-' && pos + 1 < s.len() && s[pos + 1] == '-'),
        spec_token_at(s, pos) == Some((tok, q)),
        pos < q <= s.len(),
    ensures
        spec_lex_from(s, pos) == lex_prepend(seq![tok], spec_lex_from(s, q)),
{
}

/// A whitespace character is skipped.
proof fn lemma_lex_space_step(s: Seq<char>, pos: int)
    requires
        0 <= pos < s.len(),
        is_space(s[pos]),
    ensures
        spec_lex_from(s, pos) == spec_lex_from(s, pos + 1),
{
}

/// The single-character tokens that printed types use.
proof fn lemma_token_at_punct(s: Seq<char>, pos: int)
    requires
        0 <= pos < s.len(),
    ensures
        s[pos] == '(' ==> spec_token_at(s, pos) == Some((Token::LParen, pos + 1)),
        s[pos] == ')' ==> spec_token_at(s, pos) == Some((Token::RParen, pos + 1)),
        s[pos] == '*' ==> spec_token_at(s, pos) == Some((Token::Mult, pos + 1)),
{
}

/// The arrow token read off the characters `-` `>`.
proof fn lemma_token_at_arrow(s: Seq<char>, pos: int)
    requires
        0 <= pos,
        pos + 2 <= s.len(),
        s[pos] == '-',
        s[pos + 1] == '>',
    ensures
        spec_token_at(s, pos) == Some((Token::DashArrow, pos + 2)),
{
    reveal_strlit("->");
    assert(spec_matches_at(s, pos, "->"@)) by {
        assert(s.subrange(pos, pos + 2) =~= "->"@);
    }
}

/// The `int` keyword read off its characters.
proof fn lemma_token_at_int(s: Seq<char>, pos: int)
    requires
        0 <= pos,
        pos + 3 <= s.len(),
        s[pos] == 'i',
        s[pos + 1] == 'n',
        s[pos + 2] == 't',
    ensures
        spec_token_at(s, pos) == Some((Token::TypeInt, pos + 3)),
{
    reveal_strlit("int");
    assert(spec_matches_at(s, pos, "int"@)) by {
        assert(s.subrange(pos, pos + 3) =~= "int"@);
    }
}

/// The `bool` keyword read off its characters.
proof fn lemma_token_at_bool(s: Seq<char>, pos: int)
    requires
        0 <= pos,
        pos + 4 <= s.len(),
        s[pos] == 'b',
        s[pos + 1] == 'o',
        s[pos + 2] == 'o',
        s[pos + 3] == 'l',
    ensures
        spec_token_at(s, pos) == Some((Token::TypeBool, pos + 4)),
{
    reveal_strlit("int");
    reveal_strlit("bool");
    assert(!spec_matches_at(s, pos, "int"@)) by {
        if spec_matches_at(s, pos, "int"@) {
            assert(s.subrange(pos, pos + 3)[0] == s[pos + 0]);
        }
    }
    assert(spec_matches_at(s, pos, "bool"@)) by {
        assert(s.subrange(pos, pos + 4) =~= "bool"@);
    }
}

/// The `list` keyword read off its characters.
proof fn lemma_token_at_list(s: Seq<char>, pos: int)
    requires
        0 <= pos,
        pos + 4 <= s.len(),
        s[pos] == 'l',
        s[pos + 1] == 'i',
        s[pos + 2] == 's',
        s[pos + 3] == 't',
    ensures
        spec_token_at(s, pos) == Some((Token::TypeList, pos + 4)),
{
    reveal_strlit("int");
    reveal_strlit("bool");
    reveal_strlit("list");
    assert(!spec_matches_at(s, pos, "int"@)) by {
        if spec_matches_at(s, pos, "int"@) {
            assert(s.subrange(pos, pos + 3)[0] == s[pos + 0]);
        }
    }
    assert(!spec_matches_at(s, pos, "bool"@)) by {
        if spec_matches_at(s, pos, "bool"@) {
            assert(s.subrange(pos, pos + 4)[0] == s[pos + 0]);
        }
    }
    assert(spec_matches_at(s, pos, "list"@)) by {
        assert(s.subrange(pos, pos + 4) =~= "list"@);
    }
}

/// Lexing the rendering of `t` in context `ctx` yields its token stream,
/// followed by whatever the rest of the input lexes to.
#[verifier::rlimit(100)]
#[verifier::spinoff_prover]
pub proof fn lemma_lex_print_at(t: Type, ctx: int, s: Seq<char>, pos: int)
    requires
        chars_seg(s, pos, ty_chars_at(t, ctx)),
    ensures
        spec_lex_from(s, pos) == lex_prepend(
            ty_tokens_at(t, ctx),
            spec_lex_from(s, pos + ty_chars_at(t, ctx).len()),
        ),
    decreases t, 1int,
{
    let w = ty_chars_at(t, ctx);
    let end = pos + w.len();
    if ty_rank(t) > ctx {
        lemma_lex_print_body(t, s, pos);
    } else {
        let bc = ty_chars_body(t);
        let bt = ty_tokens_body(t);
        reveal_strlit("(");
        reveal_strlit(")");
        assert(s[pos + 0] == w[0]);
        assert(s[pos] == '(');
        assert(chars_seg(s, pos + 1, bc)) by {
            assert forall|i: int| 0 <= i < bc.len() implies s[pos + 1 + i] == bc[i] by {
                assert(s[pos + (i + 1)] == w[i + 1]);
            }
        }
        let pc = pos + 1 + bc.len();
        assert(s[pc] == ')') by {
            assert(s[pos + (1 + bc.len())] == w[1 + bc.len() as int]);
        }
        lemma_token_at_punct(s, pos);
        lemma_lex_token_step(s, pos, Token::LParen, pos + 1);
        lemma_lex_print_body(t, s, pos + 1);
        lemma_token_at_punct(s, pc);
        lemma_lex_token_step(s, pc, Token::RParen, pc + 1);
        assert(pc + 1 == end);
        lemma_prepend_assoc(bt, seq![Token::RParen], spec_lex_from(s, end));
        lemma_prepend_assoc(seq![Token::LParen], bt + seq![Token::RParen], spec_lex_from(s, end));
        assert(seq![Token::LParen] + (bt + seq![Token::RParen]) =~= seq![Token::LParen] + bt + seq![
            Token::RParen,
        ]);
    }
}

/// Lexing the bare rendering of `t` yields its bare token stream,
/// followed by whatever the rest of the input lexes to.
#[verifier::rlimit(100)]
#[verifier::spinoff_prover]
pub proof fn lemma_lex_print_body(t: Type, s: Seq<char>, pos: int)
    requires
        chars_seg(s, pos, ty_chars_body(t)),
    ensures
        spec_lex_from(s, pos) == lex_prepend(
            ty_tokens_body(t),
            spec_lex_from(s, pos + ty_chars_body(t).len()),
        ),
    decreases t, 0int,
{
    let w = ty_chars_body(t);
    let end = pos + w.len();
    match t {
        Type::Int => {
            reveal_strlit("int");
            assert(s[pos + 0] == w[0]);
            assert(s[pos + 1] == w[1]);
            assert(s[pos + 2] == w[2]);
            lemma_token_at_int(s, pos);
            lemma_lex_token_step(s, pos, Token::TypeInt, pos + 3);
        }
        Type::Bool => {
            reveal_strlit("bool");
            assert(s[pos + 0] == w[0]);
            assert(s[pos + 1] == w[1]);
            assert(s[pos + 2] == w[2]);
            assert(s[pos + 3] == w[3]);
            lemma_token_at_bool(s, pos);
            lemma_lex_token_step(s, pos, Token::TypeBool, pos + 4);
        }
        Type::List(u) => {
            reveal_strlit(" list");
            let wu = ty_chars_at(*u, 2);
            let tu = ty_tokens_at(*u, 2);
            assert(chars_seg(s, pos, wu)) by {
                assert forall|i: int| 0 <= i < wu.len() implies s[pos + i] == wu[i] by {
                    assert(s[pos + i] == w[i]);
                }
            }
            let pu = pos + wu.len();
            assert(s[pos + (wu.len() + 0)] == w[wu.len() + 0int]);
            assert(s[pos + (wu.len() + 1)] == w[wu.len() + 1int]);
            assert(s[pos + (wu.len() + 2)] == w[wu.len() + 2int]);
            assert(s[pos + (wu.len() + 3)] == w[wu.len() + 3int]);
            assert(s[pos + (wu.len() + 4)] == w[wu.len() + 4int]);
            assert(s[pu] == ' ' && s[pu + 1] == 'l' && s[pu + 2] == 'i' && s[pu + 3] == 's' && s[pu
                + 4] == 't');
            lemma_lex_print_at(*u, 2, s, pos);
            lemma_lex_space_step(s, pu);
            lemma_token_at_list(s, pu + 1);
            lemma_lex_token_step(s, pu + 1, Token::TypeList, pu + 5);
            assert(pu + 5 == end);
            lemma_prepend_assoc(tu, seq![Token::TypeList], spec_lex_from(s, end));
        }
        Type::Mult(a, b) => {
            reveal_strlit(" * ");
            let wa = ty_chars_at(*a, 1);
            let wb = ty_chars_at(*b, 2);
            let ta = ty_tokens_at(*a, 1);
            let tb = ty_tokens_at(*b, 2);
            assert(chars_seg(s, pos, wa)) by {
                assert forall|i: int| 0 <= i < wa.len() implies s[pos + i] == wa[i] by {
                    assert(s[pos + i] == w[i]);
                }
            }
            let p1 = pos + wa.len();
            assert(s[pos + (wa.len() + 0)] == w[wa.len() + 0int]);
            assert(s[pos + (wa.len() + 1)] == w[wa.len() + 1int]);
            assert(s[pos + (wa.len() + 2)] == w[wa.len() + 2int]);
            assert(s[p1] == ' ' && s[p1 + 1] == '*' && s[p1 + 2] == ' ');
            assert(chars_seg(s, p1 + 3, wb)) by {
                assert forall|i: int| 0 <= i < wb.len() implies s[p1 + 3 + i] == wb[i] by {
                    assert(s[pos + (wa.len() + 3 + i)] == w[wa.len() + 3 + i]);
                }
            }
            lemma_lex_print_at(*a, 1, s, pos);
            lemma_lex_space_step(s, p1);
            lemma_token_at_punct(s, p1 + 1);
            lemma_lex_token_step(s, p1 + 1, Token::Mult, p1 + 2);
            lemma_lex_space_step(s, p1 + 2);
            lemma_lex_print_at(*b, 2, s, p1 + 3);
            assert(p1 + 3 + wb.len() == end);
            lemma_prepend_assoc(seq![Token::Mult], tb, spec_lex_from(s, end));
            lemma_prepend_assoc(ta, seq![Token::Mult] + tb, spec_lex_from(s, end));
            assert(ta + (seq![Token::Mult] + tb) =~= ta + seq![Token::Mult] + tb);
        }
        Type::Func(a, b) => {
            reveal_strlit(" -> ");
            let wa = ty_chars_at(*a, 1);
            let wb = ty_chars_at(*b, 0);
            let ta = ty_tokens_at(*a, 1);
            let tb = ty_tokens_at(*b, 0);
            assert(chars_seg(s, pos, wa)) by {
                assert forall|i: int| 0 <= i < wa.len() implies s[pos + i] == wa[i] by {
                    assert(s[pos + i] == w[i]);
                }
            }
            let p1 = pos + wa.len();
            assert(s[pos + (wa.len() + 0)] == w[wa.len() + 0int]);
            assert(s[pos + (wa.len() + 1)] == w[wa.len() + 1int]);
            assert(s[pos + (wa.len() + 2)] == w[wa.len() + 2int]);
            assert(s[pos + (wa.len() + 3)] == w[wa.len() + 3int]);
            assert(s[p1] == ' ' && s[p1 + 1] == '-' && s[p1 + 2] == '>' && s[p1 + 3] == ' ');
            assert(chars_seg(s, p1 + 4, wb)) by {
                assert forall|i: int| 0 <= i < wb.len() implies s[p1 + 4 + i] == wb[i] by {
                    assert(s[pos + (wa.len() + 4 + i)] == w[wa.len() + 4 + i]);
                }
            }
            lemma_lex_print_at(*a, 1, s, pos);
            lemma_lex_space_step(s, p1);
            lemma_token_at_arrow(s, p1 + 1);
            lemma_lex_token_step(s, p1 + 1, Token::DashArrow, p1 + 3);
            lemma_lex_space_step(s, p1 + 3);
            lemma_lex_print_at(*b, 0, s, p1 + 4);
            assert(p1 + 4 + wb.len() == end);
            lemma_prepend_assoc(seq![Token::DashArrow], tb, spec_lex_from(s, end));
            lemma_prepend_assoc(ta, seq![Token::DashArrow] + tb, spec_lex_from(s, end));
            assert(ta + (seq![Token::DashArrow] + tb) =~= ta + seq![Token::DashArrow] + tb);
        }
    }
}

/// Round trip: the canonical rendering of any type lexes to exactly its
/// token stream, and the type grammar parses that stream back to the very
/// same type, consuming all of it.
pub proof fn lemma_type_round_trip(t: Type)
    ensures
        spec_lex(ty_chars(t)) == Ok::<Seq<Token>, int>(ty_tokens(t)),
        spec_parse_ty(ty_tokens(t), 0) == Some((t, ty_tokens(t).len() as int)),
{
    let s = ty_chars(t);
    let toks = ty_tokens(t);
    assert(ty_rank(t) > -1);
    assert(chars_seg(s, 0, ty_chars_at(t, -1)));
    lemma_lex_print_at(t, -1, s, 0);
    assert(spec_lex_from(s, s.len() as int) == Ok::<Seq<Token>, int>(Seq::empty()));
    assert(toks + Seq::<Token>::empty() =~= toks);
    assert(toks_seg(toks, 0, ty_tokens_body(t)));
    lemma_parse_ty_at(t, toks, 0);
}

} // verus!
