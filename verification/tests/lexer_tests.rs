use minilang::lexer::{tokenize, LexError, Token};

#[test]
fn keywords_and_punctuation_lex() {
    let toks = tokenize("fun x : int -> if true then 1 else 0").unwrap_err();
    // "x" is not a token of the surface syntax: lexing fails on it.
    assert_eq!(toks, LexError { at: 4 });
    let toks = tokenize("fun : int -> if true then 1 else 0").unwrap();
    assert_eq!(
        toks,
        vec![
            Token::Fun,
            Token::Colon,
            Token::TypeInt,
            Token::DashArrow,
            Token::If,
            Token::True,
            Token::Then,
            Token::Integer(1),
            Token::Else,
            Token::Integer(0),
        ]
    );
}

#[test]
fn whitespace_and_comments_are_skipped() {
    let toks = tokenize("1 +\t2 -- the rest of this line vanishes\n * 3").unwrap();
    assert_eq!(
        toks,
        vec![
            Token::Integer(1),
            Token::Plus,
            Token::Integer(2),
            Token::Mult,
            Token::Integer(3),
        ]
    );
}

#[test]
fn signed_integers_take_the_sign_when_a_digit_follows() {
    assert_eq!(tokenize("-5").unwrap(), vec![Token::Integer(-5)]);
    assert_eq!(tokenize("+5").unwrap(), vec![Token::Integer(5)]);
    assert_eq!(
        tokenize("3 - 5").unwrap(),
        vec![Token::Integer(3), Token::Minus, Token::Integer(5)]
    );
}

#[test]
fn two_character_tokens_win_over_their_prefixes() {
    assert_eq!(
        tokenize(":: : :quit => = ;; ->").unwrap(),
        vec![
            Token::Cons,
            Token::Colon,
            Token::Quit,
            Token::EqualsArrow,
            Token::Equal,
            Token::DoubleSemicolon,
            Token::DashArrow,
        ]
    );
}

#[test]
fn brackets_bars_and_operators_lex() {
    assert_eq!(
        tokenize("[ ] ( ) | , % / <").unwrap(),
        vec![
            Token::LSquareBrack,
            Token::RSquareBrack,
            Token::LParen,
            Token::RParen,
            Token::Alternative,
            Token::Comma,
            Token::Mod,
            Token::Divide,
            Token::Less,
        ]
    );
}

#[test]
fn unrecognized_character_reports_its_position() {
    assert_eq!(tokenize("1 + &"), Err(LexError { at: 4 }));
    assert_eq!(tokenize(";"), Err(LexError { at: 0 }));
}

#[test]
fn integer_literal_bounds_are_respected() {
    assert_eq!(
        tokenize("9223372036854775807").unwrap(),
        vec![Token::Integer(i64::MAX)]
    );
    assert_eq!(
        tokenize("-9223372036854775808").unwrap(),
        vec![Token::Integer(i64::MIN)]
    );
    // One past either bound is a malformed literal.
    assert_eq!(tokenize("9223372036854775808"), Err(LexError { at: 0 }));
    assert_eq!(tokenize("-9223372036854775809"), Err(LexError { at: 0 }));
    assert_eq!(tokenize("99999999999999999999"), Err(LexError { at: 0 }));
}

#[test]
fn empty_input_lexes_to_no_tokens() {
    assert_eq!(tokenize("").unwrap(), Vec::<Token>::new());
    assert_eq!(tokenize("   -- only a comment").unwrap(), Vec::<Token>::new());
}
