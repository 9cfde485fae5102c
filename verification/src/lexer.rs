//! The surface token set and the lexer that produces it.
//!
//! Tokens are matched greedily at each position: the longest fixed spelling
//! wins (`->` before `-`, `::` before `:`), a sign directly followed by a
//! digit belongs to the integer literal, line comments (`--` to the end of
//! the line) and whitespace are skipped, and anything else is a lexing
//! failure carrying the offending position. An integer literal whose value
//! does not fit a 64-bit signed integer is malformed and fails the same way.

use vstd::prelude::*;

verus! {

/// A lexical unit of the surface syntax.
#[derive(Debug, PartialEq, Eq, Clone, Copy)]
pub enum Token {
    TypeBool,
    Else,
    False,
    Fst,
    Fun,
    If,
    TypeInt,
    Is,
    Let,
    TypeList,
    Match,
    Rec,
    Snd,
    Then,
    True,
    Quit,
    With,
    DashArrow,
    EqualsArrow,
    Cons,
    DoubleSemicolon,
    Mod,
    LParen,
    RParen,
    Mult,
    Plus,
    Comma,
    Minus,
    Divide,
    Colon,
    Less,
    Equal,
    LSquareBrack,
    RSquareBrack,
    Alternative,
    Integer(i64),
}

/// A failed lexing: the character position at which no token could be read.
#[derive(Debug, PartialEq, Eq, Clone, Copy)]
pub struct LexError {
    pub at: usize,
}

/// Whitespace that the lexer skips.
pub open spec fn is_space(c: char) -> bool {
    c == ' ' || c == '\t' || c == '\n' || c == '\r'
}

/// A decimal digit character.
pub open spec fn is_digit(c: char) -> bool {
    c == '0' || c == '1' || c == '2' || c == '3' || c == '4' || c == '5' || c == '6' || c == '7'
        || c == '8' || c == '9'
}

/// The numeric value of a decimal digit character (zero on anything else).
pub open spec fn digit_val(c: char) -> int {
    if c == '1' {
        1
    } else if c == '2' {
        2
    } else if c == '3' {
        3
    } else if c == '4' {
        4
    } else if c == '5' {
        5
    } else if c == '6' {
        6
    } else if c == '7' {
        7
    } else if c == '8' {
        8
    } else if c == '9' {
        9
    } else {
        0
    }
}

/// Whether the word `w` occurs in `s` starting exactly at `pos`.
pub open spec fn spec_matches_at(s: Seq<char>, pos: int, w: Seq<char>) -> bool {
    pos + w.len() <= s.len() && s.subrange(pos, pos + w.len()) == w
}

/// The end of the run of decimal digits starting at `pos`.
pub open spec fn digit_run_end(s: Seq<char>, pos: int) -> int
    decreases s.len() - pos,
{
    if pos < 0 || pos >= s.len() {
        pos
    } else if is_digit(s[pos]) {
        digit_run_end(s, pos + 1)
    } else {
        pos
    }
}

/// The value of the digits of `s` in the range `[a, b)`, most significant
/// first.
pub open spec fn digits_mag(s: Seq<char>, a: int, b: int) -> int
    decreases b - a,
{
    if b <= a {
        0
    } else {
        digits_mag(s, a, b - 1) * 10 + digit_val(s[b - 1])
    }
}

/// The position right after the line comment that starts before `pos`:
/// one past the next newline, or the end of the input.
pub open spec fn comment_end(s: Seq<char>, pos: int) -> int
    decreases s.len() - pos,
{
    if pos < 0 || pos >= s.len() {
        pos
    } else if s[pos] == '\n' {
        pos + 1
    } else {
        comment_end(s, pos + 1)
    }
}

/// The integer literal starting at `pos` (an optional sign directly
/// followed by digits): its token and end position, or nothing when its
/// value does not fit an `i64`.
pub open spec fn spec_number_at(s: Seq<char>, pos: int) -> Option<(Token, int)> {
    let neg = s[pos] == '-';
    let d0 = if s[pos] == '-' || s[pos] == '+' {
        pos + 1
    } else {
        pos
    };
    let q = digit_run_end(s, d0);
    let m = digits_mag(s, d0, q);
    if neg {
        if m <= 9223372036854775808 {
            Some((Token::Integer((-m) as i64), q))
        } else {
            None
        }
    } else {
        if m <= 9223372036854775807 {
            Some((Token::Integer(m as i64), q))
        } else {
            None
        }
    }
}

/// The token starting exactly at `pos` (not whitespace, not a comment):
/// the token and its end position, or nothing when no token matches there.
pub open spec fn spec_token_at(s: Seq<char>, pos: int) -> Option<(Token, int)> {
    let c = s[pos];
    if c == '(' {
        Some((Token::LParen, pos + 1))
    } else if c == ')' {
        Some((Token::RParen, pos + 1))
    } else if c == '*' {
        Some((Token::Mult, pos + 1))
    } else if c == ',' {
        Some((Token::Comma, pos + 1))
    } else if c == '/' {
        Some((Token::Divide, pos + 1))
    } else if c == '%' {
        Some((Token::Mod, pos + 1))
    } else if c == '<' {
        Some((Token::Less, pos + 1))
    } else if c == '[' {
        Some((Token::LSquareBrack, pos + 1))
    } else if c == ']' {
        Some((Token::RSquareBrack, pos + 1))
    } else if c == '|' {
        Some((Token::Alternative, pos + 1))
    } else if c == '=' {
        if spec_matches_at(s, pos, "=>"@) {
            Some((Token::EqualsArrow, pos + "=>"@.len()))
        } else {
            Some((Token::Equal, pos + 1))
        }
    } else if c == ':' {
        if spec_matches_at(s, pos, "::"@) {
            Some((Token::Cons, pos + "::"@.len()))
        } else if spec_matches_at(s, pos, ":quit"@) {
            Some((Token::Quit, pos + ":quit"@.len()))
        } else {
            Some((Token::Colon, pos + 1))
        }
    } else if c == ';' {
        if spec_matches_at(s, pos, ";;"@) {
            Some((Token::DoubleSemicolon, pos + ";;"@.len()))
        } else {
            None
        }
    } else if c == '-' {
        if spec_matches_at(s, pos, "->"@) {
            Some((Token::DashArrow, pos + "->"@.len()))
        } else if pos + 1 < s.len() && is_digit(s[pos + 1]) {
            spec_number_at(s, pos)
        } else {
            Some((Token::Minus, pos + 1))
        }
    } else if c == '+' {
        if pos + 1 < s.len() && is_digit(s[pos + 1]) {
            spec_number_at(s, pos)
        } else {
            Some((Token::Plus, pos + 1))
        }
    } else if is_digit(c) {
        spec_number_at(s, pos)
    } else if spec_matches_at(s, pos, "int"@) {
        Some((Token::TypeInt, pos + "int"@.len()))
    } else if spec_matches_at(s, pos, "bool"@) {
        Some((Token::TypeBool, pos + "bool"@.len()))
    } else if spec_matches_at(s, pos, "list"@) {
        Some((Token::TypeList, pos + "list"@.len()))
    } else if spec_matches_at(s, pos, "else"@) {
        Some((Token::Else, pos + "else"@.len()))
    } else if spec_matches_at(s, pos, "false"@) {
        Some((Token::False, pos + "false"@.len()))
    } else if spec_matches_at(s, pos, "fst"@) {
        Some((Token::Fst, pos + "fst"@.len()))
    } else if spec_matches_at(s, pos, "fun"@) {
        Some((Token::Fun, pos + "fun"@.len()))
    } else if spec_matches_at(s, pos, "if"@) {
        Some((Token::If, pos + "if"@.len()))
    } else if spec_matches_at(s, pos, "is"@) {
        Some((Token::Is, pos + "is"@.len()))
    } else if spec_matches_at(s, pos, "let"@) {
        Some((Token::Let, pos + "let"@.len()))
    } else if spec_matches_at(s, pos, "match"@) {
        Some((Token::Match, pos + "match"@.len()))
    } else if spec_matches_at(s, pos, "rec"@) {
        Some((Token::Rec, pos + "rec"@.len()))
    } else if spec_matches_at(s, pos, "snd"@) {
        Some((Token::Snd, pos + "snd"@.len()))
    } else if spec_matches_at(s, pos, "then"@) {
        Some((Token::Then, pos + "then"@.len()))
    } else if spec_matches_at(s, pos, "true"@) {
        Some((Token::True, pos + "true"@.len()))
    } else if spec_matches_at(s, pos, "with"@) {
        Some((Token::With, pos + "with"@.len()))
    } else {
        None
    }
}

/// The token stream of `s` from `pos` on: whitespace and comments skipped,
/// each remaining position the start of a token, or the position of the
/// first failure.
pub open spec fn spec_lex_from(s: Seq<char>, pos: int) -> Result<Seq<Token>, int>
    decreases s.len() - pos,
{
    if pos < 0 || pos >= s.len() {
        Ok(Seq::empty())
    } else if is_space(s[pos]) {
        spec_lex_from(s, pos + 1)
    } else if s[pos] == '-' && pos + 1 < s.len() && s[pos + 1] == '-' {
        let q = comment_end(s, pos + 2);
        if pos < q <= s.len() {
            spec_lex_from(s, q)
        } else {
            Err(pos)
        }
    } else {
        match spec_token_at(s, pos) {
            Some((t, q)) => if pos < q <= s.len() {
                match spec_lex_from(s, q) {
                    Ok(rest) => Ok(seq![t] + rest),
                    Err(i) => Err(i),
                }
            } else {
                Err(pos)
            },
            None => Err(pos),
        }
    }
}

/// The whole token stream of `s`, or the position of the first failure.
pub open spec fn spec_lex(s: Seq<char>) -> Result<Seq<Token>, int> {
    spec_lex_from(s, 0)
}

/// Tokens already read, prepended to the outcome of lexing the rest.
pub open spec fn lex_prepend(ts: Seq<Token>, r: Result<Seq<Token>, int>) -> Result<
    Seq<Token>,
    int,
> {
    match r {
        Ok(rest) => Ok(ts + rest),
        Err(i) => Err(i),
    }
}

/// Every position of a digit run holds a digit, the run stays within the
/// input, and the run ends at the end of the input or at a non-digit.
pub proof fn lemma_digit_run(s: Seq<char>, a: int)
    requires
        0 <= a <= s.len(),
    ensures
        a <= digit_run_end(s, a) <= s.len(),
        forall|i: int| a <= i < digit_run_end(s, a) ==> is_digit(s[i]),
        digit_run_end(s, a) == s.len() || !is_digit(s[digit_run_end(s, a)]),
    decreases s.len() - a,
{
    if a < s.len() && is_digit(s[a]) {
        lemma_digit_run(s, a + 1);
    }
}

/// A run of digits bounded on the right by the end of the input or a
/// non-digit is exactly the digit run.
proof fn lemma_digit_run_end_eq(s: Seq<char>, a: int, b: int)
    requires
        0 <= a <= b <= s.len(),
        forall|i: int| a <= i < b ==> is_digit(s[i]),
        b == s.len() || !is_digit(s[b]),
    ensures
        digit_run_end(s, a) == b,
    decreases b - a,
{
    if a < b {
        lemma_digit_run_end_eq(s, a + 1, b);
    }
}

/// The value of a digit range is non-negative.
proof fn lemma_digits_mag_nonneg(s: Seq<char>, a: int, b: int)
    ensures
        digits_mag(s, a, b) >= 0,
    decreases b - a,
{
    if b > a {
        lemma_digits_mag_nonneg(s, a, b - 1);
    }
}

/// Extending a digit range to the right can only grow its value.
proof fn lemma_digits_mag_mono(s: Seq<char>, a: int, b: int, b2: int)
    requires
        b <= b2,
    ensures
        digits_mag(s, a, b) <= digits_mag(s, a, b2),
    decreases b2 - b,
{
    if b < b2 {
        lemma_digits_mag_mono(s, a, b, b2 - 1);
        lemma_digits_mag_nonneg(s, a, b2 - 1);
        assert(digits_mag(s, a, b2 - 1) * 10 >= digits_mag(s, a, b2 - 1)) by (nonlinear_arith)
            requires
                digits_mag(s, a, b2 - 1) >= 0,
        ;
    }
}

/// The numeric value of one digit character.
fn digit_value(c: char) -> (d: u64)
    ensures
        d as int == digit_val(c),
        d < 10,
{
    if c == '1' {
        1
    } else if c == '2' {
        2
    } else if c == '3' {
        3
    } else if c == '4' {
        4
    } else if c == '5' {
        5
    } else if c == '6' {
        6
    } else if c == '7' {
        7
    } else if c == '8' {
        8
    } else if c == '9' {
        9
    } else {
        0
    }
}

/// Whether the word `w` occurs in `s` starting exactly at `pos`.
fn matches_at(s: &str, pos: usize, w: &str) -> (b: bool)
    requires
        pos <= s@.len(),
    ensures
        b == spec_matches_at(s@, pos as int, w@),
{
    let n = s.unicode_len();
    let m = w.unicode_len();
    if m > n - pos {
        return false;
    }
    let mut j: usize = 0;
    while j < m
        invariant
            0 <= j <= m,
            pos + m <= n,
            n == s@.len(),
            m == w@.len(),
            forall|k: int| 0 <= k < j ==> s@[pos + k] == w@[k],
        decreases m - j,
    {
        if s.get_char(pos + j) != w.get_char(j) {
            proof {
                assert(s@.subrange(pos as int, pos + m) != w@) by {
                    assert(s@.subrange(pos as int, pos + m)[j as int] == s@[pos + j]);
                }
            }
            return false;
        }
        j += 1;
    }
    proof {
        assert(s@.subrange(pos as int, pos + m) =~= w@);
    }
    true
}

/// The position one past the word `w` when it occurs at `pos`.
fn try_word(s: &str, pos: usize, w: &str) -> (r: Option<usize>)
    requires
        pos <= s@.len(),
    ensures
        match r {
            Some(q) => spec_matches_at(s@, pos as int, w@) && q == pos + w@.len(),
            None => !spec_matches_at(s@, pos as int, w@),
        },
{
    if matches_at(s, pos, w) {
        let n = s.unicode_len();
        let m = w.unicode_len();
        proof {
            assert(pos + m <= n);
        }
        Some(pos + m)
    } else {
        None
    }
}

/// Reads the integer literal starting at `pos`: an optional sign directly
/// followed by at least one digit.
#[verifier::loop_isolation(false)]
fn number_at(s: &str, pos: usize) -> (r: Result<(Token, usize), LexError>)
    requires
        pos < s@.len(),
        s@[pos as int] == '-' || s@[pos as int] == '+' || is_digit(s@[pos as int]),
        (s@[pos as int] == '-' || s@[pos as int] == '+') ==> pos + 1 < s@.len() && is_digit(
            s@[pos as int + 1],
        ),
    ensures
        match r {
            Ok((t, q)) => spec_number_at(s@, pos as int) == Some((t, q as int)) && pos < q
                <= s@.len(),
            Err(e) => spec_number_at(s@, pos as int) is None && e.at == pos,
        },
{
    let n = s.unicode_len();
    let c0 = s.get_char(pos);
    let neg = c0 == '-';
    let d0: usize = if c0 == '-' || c0 == '+' {
        pos + 1
    } else {
        pos
    };
    let ghost q = digit_run_end(s@, d0 as int);
    proof {
        lemma_digit_run(s@, d0 as int);
    }
    let mut i: usize = d0;
    let mut acc: u64 = 0;
    while i < n && is_digit_exec(s.get_char(i))
        invariant
            d0 <= i <= q <= n,
            n == s@.len(),
            q == digit_run_end(s@, d0 as int),
            forall|k: int| d0 <= k < q ==> is_digit(s@[k]),
            q == s@.len() || !is_digit(s@[q as int]),
            acc as int == digits_mag(s@, d0 as int, i as int),
            acc <= 9223372036854775808,
        decreases n - i,
    {
        proof {
            if i >= q {
                assert(i == q);
                assert(i < n);
                assert(is_digit(s@[i as int]));
                assert(false);
            }
        }
        let d = digit_value(s.get_char(i));
        if acc > (9223372036854775808u64 - d) / 10 {
            proof {
                assert(acc as int * 10 + d as int > 9223372036854775808) by (nonlinear_arith)
                    requires
                        acc as int > (9223372036854775808 - d as int) / 10,
                        0 <= d < 10,
                ;
                assert(digits_mag(s@, d0 as int, i as int + 1) == digits_mag(
                    s@,
                    d0 as int,
                    i as int,
                ) * 10 + digit_val(s@[i as int]));
                lemma_digits_mag_mono(s@, d0 as int, i as int + 1, q);
                assert(digits_mag(s@, d0 as int, q) > 9223372036854775808);
            }
            return Err(LexError { at: pos });
        }
        proof {
            assert(acc as int * 10 + d as int <= 9223372036854775808) by (nonlinear_arith)
                requires
                    acc as int <= (9223372036854775808 - d as int) / 10,
                    0 <= d < 10,
            ;
        }
        acc = acc * 10 + d;
        i += 1;
    }
    proof {
        if i < q {
            assert(is_digit(s@[i as int]));
            assert(i < n);
            assert(false);
        }
        assert(i == q);
    }
    if neg {
        if acc == 9223372036854775808 {
            Ok((Token::Integer(i64::MIN), i))
        } else {
            Ok((Token::Integer(-(acc as i64)), i))
        }
    } else {
        if acc == 9223372036854775808 {
            Err(LexError { at: pos })
        } else {
            Ok((Token::Integer(acc as i64), i))
        }
    }
}

/// A decimal digit character.
fn is_digit_exec(c: char) -> (b: bool)
    ensures
        b == is_digit(c),
{
    c == '0' || c == '1' || c == '2' || c == '3' || c == '4' || c == '5' || c == '6' || c == '7'
        || c == '8' || c == '9'
}

/// Reads the token starting exactly at `pos` (not whitespace, not the
/// start of a comment).
fn token_at(s: &str, pos: usize) -> (r: Result<(Token, usize), LexError>)
    requires
        pos < s@.len(),
    ensures
        match r {
            Ok((t, q)) => spec_token_at(s@, pos as int) == Some((t, q as int)) && pos < q
                <= s@.len(),
            Err(e) => spec_token_at(s@, pos as int) is None && e.at == pos,
        },
{
    proof {
        reveal_strlit("=>");
        reveal_strlit("::");
        reveal_strlit(":quit");
        reveal_strlit(";;");
        reveal_strlit("->");
        reveal_strlit("int");
        reveal_strlit("bool");
        reveal_strlit("list");
        reveal_strlit("else");
        reveal_strlit("false");
        reveal_strlit("fst");
        reveal_strlit("fun");
        reveal_strlit("if");
        reveal_strlit("is");
        reveal_strlit("let");
        reveal_strlit("match");
        reveal_strlit("rec");
        reveal_strlit("snd");
        reveal_strlit("then");
        reveal_strlit("true");
        reveal_strlit("with");
    }
    let n = s.unicode_len();
    let c = s.get_char(pos);
    if c == '(' {
        Ok((Token::LParen, pos + 1))
    } else if c == ')' {
        Ok((Token::RParen, pos + 1))
    } else if c == '*' {
        Ok((Token::Mult, pos + 1))
    } else if c == ',' {
        Ok((Token::Comma, pos + 1))
    } else if c == '/' {
        Ok((Token::Divide, pos + 1))
    } else if c == '%' {
        Ok((Token::Mod, pos + 1))
    } else if c == '<' {
        Ok((Token::Less, pos + 1))
    } else if c == '[' {
        Ok((Token::LSquareBrack, pos + 1))
    } else if c == ']' {
        Ok((Token::RSquareBrack, pos + 1))
    } else if c == '|' {
        Ok((Token::Alternative, pos + 1))
    } else if c == '=' {
        if let Some(q) = try_word(s, pos, "=>") {
            Ok((Token::EqualsArrow, q))
        } else {
            Ok((Token::Equal, pos + 1))
        }
    } else if c == ':' {
        if let Some(q) = try_word(s, pos, "::") {
            Ok((Token::Cons, q))
        } else if let Some(q) = try_word(s, pos, ":quit") {
            Ok((Token::Quit, q))
        } else {
            Ok((Token::Colon, pos + 1))
        }
    } else if c == ';' {
        if let Some(q) = try_word(s, pos, ";;") {
            Ok((Token::DoubleSemicolon, q))
        } else {
            Err(LexError { at: pos })
        }
    } else if c == '-' {
        if let Some(q) = try_word(s, pos, "->") {
            Ok((Token::DashArrow, q))
        } else if pos + 1 < n && is_digit_exec(s.get_char(pos + 1)) {
            number_at(s, pos)
        } else {
            Ok((Token::Minus, pos + 1))
        }
    } else if c == '+' {
        if pos + 1 < n && is_digit_exec(s.get_char(pos + 1)) {
            number_at(s, pos)
        } else {
            Ok((Token::Plus, pos + 1))
        }
    } else if is_digit_exec(c) {
        number_at(s, pos)
    } else if let Some(q) = try_word(s, pos, "int") {
        Ok((Token::TypeInt, q))
    } else if let Some(q) = try_word(s, pos, "bool") {
        Ok((Token::TypeBool, q))
    } else if let Some(q) = try_word(s, pos, "list") {
        Ok((Token::TypeList, q))
    } else if let Some(q) = try_word(s, pos, "else") {
        Ok((Token::Else, q))
    } else if let Some(q) = try_word(s, pos, "false") {
        Ok((Token::False, q))
    } else if let Some(q) = try_word(s, pos, "fst") {
        Ok((Token::Fst, q))
    } else if let Some(q) = try_word(s, pos, "fun") {
        Ok((Token::Fun, q))
    } else if let Some(q) = try_word(s, pos, "if") {
        Ok((Token::If, q))
    } else if let Some(q) = try_word(s, pos, "is") {
        Ok((Token::Is, q))
    } else if let Some(q) = try_word(s, pos, "let") {
        Ok((Token::Let, q))
    } else if let Some(q) = try_word(s, pos, "match") {
        Ok((Token::Match, q))
    } else if let Some(q) = try_word(s, pos, "rec") {
        Ok((Token::Rec, q))
    } else if let Some(q) = try_word(s, pos, "snd") {
        Ok((Token::Snd, q))
    } else if let Some(q) = try_word(s, pos, "then") {
        Ok((Token::Then, q))
    } else if let Some(q) = try_word(s, pos, "true") {
        Ok((Token::True, q))
    } else if let Some(q) = try_word(s, pos, "with") {
        Ok((Token::With, q))
    } else {
        Err(LexError { at: pos })
    }
}

/// Turns the whole input into its token stream, skipping whitespace and
/// line comments, or reports the position of the first failure.
pub fn tokenize(input: &str) -> (r: Result<Vec<Token>, LexError>)
    ensures
        match r {
            Ok(v) => spec_lex(input@) == Ok::<Seq<Token>, int>(v@),
            Err(e) => spec_lex(input@) == Err::<Seq<Token>, int>(e.at as int),
        },
{
    let n = input.unicode_len();
    let mut toks: Vec<Token> = Vec::new();
    let mut pos: usize = 0;
    proof {
        if let Ok(rest) = spec_lex_from(input@, 0) {
            assert(Seq::<Token>::empty() + rest =~= rest);
        }
        assert(toks@ =~= Seq::<Token>::empty());
    }
    while pos < n
        invariant
            pos <= n,
            n == input@.len(),
            spec_lex(input@) == lex_prepend(toks@, spec_lex_from(input@, pos as int)),
        decreases n - pos,
    {
        let c = input.get_char(pos);
        if c == ' ' || c == '\t' || c == '\n' || c == '\r' {
            pos += 1;
        } else if c == '-' && pos + 1 < n && input.get_char(pos + 1) == '-' {
            let mut q: usize = pos + 2;
            while q < n && input.get_char(q) != '\n'
                invariant
                    pos + 2 <= q <= n,
                    n == input@.len(),
                    comment_end(input@, pos as int + 2) == comment_end(input@, q as int),
                decreases n - q,
            {
                q += 1;
            }
            if q < n {
                proof {
                    assert(input@[q as int] == '\n');
                    assert(comment_end(input@, q as int) == q + 1);
                }
                q += 1;
            } else {
                proof {
                    assert(comment_end(input@, q as int) == q as int);
                }
            }
            pos = q;
        } else {
            match token_at(input, pos) {
                Ok((t, q)) => {
                    let ghost old_toks = toks@;
                    toks.push(t);
                    proof {
                        if let Ok(rest) = spec_lex_from(input@, q as int) {
                            assert(old_toks + (seq![t] + rest) =~= toks@ + rest);
                        }
                    }
                    pos = q;
                }
                Err(e) => {
                    return Err(e);
                }
            }
        }
    }
    proof {
        assert(toks@ + Seq::<Token>::empty() =~= toks@);
    }
    Ok(toks)
}

} // verus!
