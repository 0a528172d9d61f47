use alone::ast::{Span, TokenKind};
use alone::lex::{tokenise, whitespace, LexError};
use big_s::S;

fn kinds(source: &str) -> Vec<TokenKind> {
    tokenise(source).unwrap().iter().map(|t| t.kind.clone()).collect::<Vec<_>>()
}

#[test]
fn tokenise_symbol() {
    let str = "(+ n 1)";
    let tokens = vec![
        TokenKind::LeftBracket,
        TokenKind::Symbol(S("+")),
        TokenKind::Symbol(S("n")),
        TokenKind::Number(1),
        TokenKind::RightBracket,
    ];

    assert!(tokenise(str)
        .unwrap()
        .iter()
        .map(|t| t.kind.clone())
        .collect::<Vec<_>>()
        .eq(&tokens));
}

#[test]
fn spans_count_bytes_from_one() {
    let tokens = tokenise("(+ n 1)").unwrap();
    let spans = tokens.iter().map(|t| t.span).collect::<Vec<_>>();
    assert_eq!(
        spans,
        vec![Span::new(1, 2), Span::new(2, 3), Span::new(4, 5), Span::new(6, 7), Span::new(7, 8)]
    );
}

#[test]
fn spans_count_bytes_of_wide_characters() {
    // The comment holds a two-byte and a three-byte character.
    let tokens = tokenise("; \u{e9}\u{20ac}\nab").unwrap();
    assert_eq!(tokens.len(), 1);
    assert_eq!(tokens[0].kind, TokenKind::Symbol(String::from("ab")));
    assert_eq!(tokens[0].span, Span::new(9, 11));
}

#[test]
fn whitespace_and_comments_give_no_token() {
    assert_eq!(kinds("  \t\r\n ; nothing here ( 1 2\n"), vec![]);
    assert_eq!(kinds(""), vec![]);
    assert_eq!(kinds("1;x\r2"), vec![TokenKind::Number(1), TokenKind::Number(2)]);
    assert_eq!(kinds("\u{a0}7\u{3000}"), vec![TokenKind::Number(7)]);
}

#[test]
fn lexemes_are_as_long_as_they_can_be() {
    assert_eq!(
        kinds("12ab a1 <= x-y"),
        vec![
            TokenKind::Number(12),
            TokenKind::Symbol(String::from("ab")),
            TokenKind::Symbol(String::from("a1")),
            TokenKind::Symbol(String::from("<=")),
            TokenKind::Symbol(String::from("x-y")),
        ]
    );
    assert_eq!(
        kinds("(()"),
        vec![TokenKind::LeftBracket, TokenKind::LeftBracket, TokenKind::RightBracket]
    );
}

#[test]
fn numbers_up_to_the_greatest() {
    assert_eq!(kinds("0"), vec![TokenKind::Number(0)]);
    assert_eq!(kinds("007"), vec![TokenKind::Number(7)]);
    assert_eq!(kinds("9223372036854775807"), vec![TokenKind::Number(i64::MAX)]);
}

#[test]
fn number_too_large_is_an_error() {
    assert_eq!(
        tokenise(" 9223372036854775808"),
        Err(LexError::NumberTooLarge(Span::new(2, 21)))
    );
    assert_eq!(
        tokenise("99999999999999999999999999"),
        Err(LexError::NumberTooLarge(Span::new(1, 27)))
    );
}

#[test]
fn unknown_character_is_an_error() {
    assert_eq!(tokenise("(a #)"), Err(LexError::UnexpectedChar('#', 4)));
    assert_eq!(tokenise("\"s\""), Err(LexError::UnexpectedChar('"', 1)));
    assert_eq!(tokenise("1 \u{e9}"), Err(LexError::UnexpectedChar('\u{e9}', 3)));
}

#[test]
fn whitespace_is_the_unicode_property() {
    let mut code: u32 = 0;
    while code <= 0x10ffff {
        if let Some(c) = char::from_u32(code) {
            assert_eq!(whitespace(c), c.is_whitespace(), "U+{:04X}", code);
        }
        code += 1;
    }
}

#[test]
fn short_texts_fit_their_spans() {
    assert!(alone::lex::spans_fit(""));
    assert!(alone::lex::spans_fit("(+ 1 2)"));
}

#[test]
fn span_holds_its_bounds() {
    let span = Span::new(3, 9);
    assert_eq!(span.start(), 3);
    assert_eq!(span.end(), 9);
    assert_eq!(span, Span { start: 3, end: 9 });
}
