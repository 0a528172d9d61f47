//! The lexer: a scanner with seven states that splits source text into
//! tokens and records where each was read.

use crate::ast::{Span, Token, TokenKind, TokenKindView, TokenView};
use codespan::{ByteIndex, Span as SourceSpan};
use vstd::prelude::*;
use vstd::std_specs::iter::IteratorSpec;
use vstd::utf8::{encode_scalar, encode_utf8};

verus! {

/// The states of the scanner. It starts each lexeme in `Start` and is in one
/// of the others once it has read a character of the lexeme.
#[derive(Debug, PartialEq, Eq, Clone, Copy, Structural)]
pub enum TokeniseState {
    Start,
    Lparen,
    Rparen,
    Number,
    Symbol,
    Whitespace,
    Comment,
}

/// Why a source text could not be split into tokens.
#[derive(Debug, PartialEq, Eq, Clone, Copy, Structural)]
pub enum LexError {
    /// No lexeme starts with this character. The number is the offset of
    /// the character's first byte, counted from one.
    UnexpectedChar(char, u32),
    /// The numeral at this span is greater than any 64-bit signed integer.
    NumberTooLarge(Span),
}

/// A decimal digit.
pub open spec fn is_digit(c: char) -> bool {
    '0' <= c <= '9'
}

/// A letter of the Latin alphabet or one of sixteen punctuation marks.
pub open spec fn is_symbol_start(c: char) -> bool {
    ||| 'a' <= c <= 'z'
    ||| 'A' <= c <= 'Z'
    ||| c == '!'
    ||| c == '%'
    ||| c == '&'
    ||| c == '*'
    ||| c == '+'
    ||| c == '-'
    ||| c == '.'
    ||| c == '/'
    ||| c == ':'
    ||| c == '<'
    ||| c == '>'
    ||| c == '='
    ||| c == '?'
    ||| c == '@'
    ||| c == '$'
    ||| c == '^'
}

/// The characters with the Unicode property `White_Space`.
pub open spec fn is_whitespace(c: char) -> bool {
    ||| '\u{9}' <= c <= '\u{d}'
    ||| c == ' '
    ||| c == '\u{85}'
    ||| c == '\u{a0}'
    ||| c == '\u{1680}'
    ||| '\u{2000}' <= c <= '\u{200a}'
    ||| c == '\u{2028}'
    ||| c == '\u{2029}'
    ||| c == '\u{202f}'
    ||| c == '\u{205f}'
    ||| c == '\u{3000}'
}

/// The state after reading `c` in `state`, or nothing where `c` cannot go on
/// the lexeme that `state` stands for.
///
/// A bracket is a lexeme by itself. A number is a run of digits. A symbol
/// starts with a letter or a punctuation mark and goes on with those and
/// with digits. Whitespace is a run of whitespace characters. A comment
/// starts with a semicolon and goes on up to the end of the line.
pub open spec fn step(state: TokeniseState, c: char) -> Option<TokeniseState> {
    match state {
        TokeniseState::Start => if c == '(' {
            Some(TokeniseState::Lparen)
        } else if c == ')' {
            Some(TokeniseState::Rparen)
        } else if is_digit(c) {
            Some(TokeniseState::Number)
        } else if c == ';' {
            Some(TokeniseState::Comment)
        } else if is_symbol_start(c) {
            Some(TokeniseState::Symbol)
        } else if is_whitespace(c) {
            Some(TokeniseState::Whitespace)
        } else {
            None
        },
        TokeniseState::Lparen | TokeniseState::Rparen => None,
        TokeniseState::Number => if is_digit(c) {
            Some(TokeniseState::Number)
        } else {
            None
        },
        TokeniseState::Symbol => if is_symbol_start(c) || is_digit(c) {
            Some(TokeniseState::Symbol)
        } else {
            None
        },
        TokeniseState::Whitespace => if is_whitespace(c) {
            Some(TokeniseState::Whitespace)
        } else {
            None
        },
        TokeniseState::Comment => if c == '\r' || c == '\n' {
            None
        } else {
            Some(TokeniseState::Comment)
        },
    }
}

/// Where the scanner stops, and in what state, when it goes on from `pos`
/// in `state`: at the first character that cannot go on the lexeme, or at
/// the end of the text.
pub open spec fn scan(s: Seq<char>, pos: int, state: TokeniseState) -> (TokeniseState, int)
    decreases s.len() - pos,
{
    if 0 <= pos < s.len() {
        match step(state, s[pos]) {
            Some(next) => scan(s, pos + 1, next),
            None => (state, pos),
        }
    } else {
        (state, pos)
    }
}

/// The number that a run of digits writes in base ten.
pub open spec fn decimal_value(digits: Seq<char>) -> nat
    decreases digits.len(),
{
    if digits.len() == 0 {
        0
    } else {
        (decimal_value(digits.drop_last()) * 10 + (digits.last() as u32 - '0' as u32)) as nat
    }
}

/// The offset, counted from one, of the first byte of the character at
/// `pos` in the UTF-8 encoding of `s`.
pub open spec fn offset(s: Seq<char>, pos: int) -> int {
    encode_utf8(s.take(pos)).len() as int + 1
}

/// The span of the characters from `start` up to `end`.
pub open spec fn span_of(s: Seq<char>, start: int, end: int) -> Span {
    Span { start: offset(s, start) as u32, end: offset(s, end) as u32 }
}

/// What a lexing comes to: the tokens, by their views, or the error.
pub open spec fn lexed(result: Result<Vec<Token>, LexError>) -> Result<Seq<TokenView>, LexError> {
    match result {
        Ok(tokens) => Ok(token_views(tokens@)),
        Err(error) => Err(error),
    }
}

/// The views of the tokens, in order.
pub open spec fn token_views(tokens: Seq<Token>) -> Seq<TokenView> {
    Seq::new(tokens.len(), |i: int| tokens[i]@)
}

/// The tokens put before those of a result.
pub open spec fn after(tokens: Seq<TokenView>, rest: Result<Seq<TokenView>, LexError>) -> Result<
    Seq<TokenView>,
    LexError,
> {
    match rest {
        Ok(more) => Ok(tokens + more),
        Err(error) => Err(error),
    }
}

/// The tokens of the text from `pos` on.
///
/// The scanner reads one lexeme after the other, each as long as it can be.
/// A bracket, a number and a symbol give a token; whitespace and comments
/// give none. A character that starts no lexeme fails the lexing, and so
/// does a numeral that is too large for a 64-bit signed integer.
pub open spec fn lex_from(s: Seq<char>, pos: int) -> Result<Seq<TokenView>, LexError>
    decreases s.len() - pos,
{
    if 0 <= pos < s.len() {
        let (state, end) = scan(s, pos, TokeniseState::Start);
        if pos < end <= s.len() {
            let span = span_of(s, pos, end);
            let text = s.subrange(pos, end);
            match state {
                TokeniseState::Lparen => after(
                    seq![TokenView { kind: TokenKindView::LeftBracket, span }],
                    lex_from(s, end),
                ),
                TokeniseState::Rparen => after(
                    seq![TokenView { kind: TokenKindView::RightBracket, span }],
                    lex_from(s, end),
                ),
                TokeniseState::Number => if decimal_value(text) > i64::MAX {
                    Err(LexError::NumberTooLarge(span))
                } else {
                    after(
                        seq![
                            TokenView {
                                kind: TokenKindView::Number(decimal_value(text) as i64),
                                span,
                            },
                        ],
                        lex_from(s, end),
                    )
                },
                TokeniseState::Symbol => after(
                    seq![TokenView { kind: TokenKindView::Symbol(text), span }],
                    lex_from(s, end),
                ),
                _ => lex_from(s, end),
            }
        } else {
            Err(LexError::UnexpectedChar(s[pos], offset(s, pos) as u32))
        }
    } else {
        Ok(Seq::empty())
    }
}

/// The tokens of a source text.
pub open spec fn tokenise_spec(s: Seq<char>) -> Result<Seq<TokenView>, LexError> {
    lex_from(s, 0)
}

/// Builds a `codespan::Span` over the two byte indices, as `Span::new` does
/// for a start that is not after the end, and reads its bounds back with
/// `start`, `end` and `to_usize`: the two indices, as they were given.
#[verifier::external_body]
fn span_bounds(start: u32, end: u32) -> (bounds: (u32, u32))
    requires
        start <= end,
    ensures
        bounds.0 == start,
        bounds.1 == end,
{
    let span = SourceSpan::new(ByteIndex::from(start), ByteIndex::from(end));
    (span.start().to_usize() as u32, span.end().to_usize() as u32)
}

/// The characters of the text, in order.
fn to_chars(source: &str) -> (chars: Vec<char>)
    ensures
        chars@ == source@,
{
    let mut chars: Vec<char> = Vec::new();
    let mut it = source.chars();
    loop
        invariant
            chars@ + it.remaining() == source@,
            it.decrease() is Some,
        ensures
            chars@ == source@,
        decreases it.decrease()->0,
    {
        match it.next() {
            Some(c) => {
                chars.push(c);
            },
            None => {
                assert(chars@ + it.remaining() =~= chars@);
                break ;
            },
        }
    }
    chars
}

/// Whether the character is a decimal digit.
fn digit(c: char) -> (r: bool)
    ensures
        r == is_digit(c),
{
    '0' <= c && c <= '9'
}

/// Whether a symbol can start with the character.
fn symbol_start(c: char) -> (r: bool)
    ensures
        r == is_symbol_start(c),
{
    ('a' <= c && c <= 'z') || ('A' <= c && c <= 'Z') || c == '!' || c == '%' || c == '&' || c
        == '*' || c == '+' || c == '-' || c == '.' || c == '/' || c == ':' || c == '<' || c == '>'
        || c == '=' || c == '?' || c == '@' || c == '$' || c == '^'
}

/// Whether the character has the Unicode property `White_Space`.
pub fn whitespace(c: char) -> (r: bool)
    ensures
        r == is_whitespace(c),
{
    ('\u{9}' <= c && c <= '\u{d}') || c == ' ' || c == '\u{85}' || c == '\u{a0}' || c
        == '\u{1680}' || ('\u{2000}' <= c && c <= '\u{200a}') || c == '\u{2028}' || c
        == '\u{2029}' || c == '\u{202f}' || c == '\u{205f}' || c == '\u{3000}'
}

/// The state after reading `c` in `state`, if `c` goes on the lexeme.
fn next_state(state: TokeniseState, c: char) -> (next: Option<TokeniseState>)
    ensures
        next == step(state, c),
{
    match state {
        TokeniseState::Start => if c == '(' {
            Some(TokeniseState::Lparen)
        } else if c == ')' {
            Some(TokeniseState::Rparen)
        } else if digit(c) {
            Some(TokeniseState::Number)
        } else if c == ';' {
            Some(TokeniseState::Comment)
        } else if symbol_start(c) {
            Some(TokeniseState::Symbol)
        } else if whitespace(c) {
            Some(TokeniseState::Whitespace)
        } else {
            None
        },
        TokeniseState::Lparen | TokeniseState::Rparen => None,
        TokeniseState::Number => if digit(c) {
            Some(TokeniseState::Number)
        } else {
            None
        },
        TokeniseState::Symbol => if symbol_start(c) || digit(c) {
            Some(TokeniseState::Symbol)
        } else {
            None
        },
        TokeniseState::Whitespace => if whitespace(c) {
            Some(TokeniseState::Whitespace)
        } else {
            None
        },
        TokeniseState::Comment => if c == '\r' || c == '\n' {
            None
        } else {
            Some(TokeniseState::Comment)
        },
    }
}

/// How many bytes the character takes in UTF-8.
fn utf8_width(c: char) -> (width: u32)
    ensures
        width == encode_scalar(c as u32).len(),
        1 <= width <= 4,
{
    let code: u32 = c as u32;
    proof {
        vstd::utf8::char_is_scalar(c);
    }
    if code < 0x80 {
        1
    } else if code < 0x800 {
        2
    } else if code < 0x10000 {
        3
    } else {
        4
    }
}

/// The encoding of two texts in a row is the two encodings in a row.
pub proof fn lemma_encode_concat(a: Seq<char>, b: Seq<char>)
    ensures
        encode_utf8(a + b) == encode_utf8(a) + encode_utf8(b),
    decreases a.len(),
{
    if a.len() == 0 {
        assert(a + b =~= b);
        assert(encode_utf8(a) + encode_utf8(b) =~= encode_utf8(b));
    } else {
        assert((a + b).drop_first() =~= a.drop_first() + b);
        lemma_encode_concat(a.drop_first(), b);
        assert(encode_utf8(a + b) =~= encode_utf8(a) + encode_utf8(b));
    }
}

/// The offsets grow with the position, by the width of the character
/// stepped over, and stay within the length of the encoding.
pub proof fn lemma_offset_step(s: Seq<char>, pos: int)
    requires
        0 <= pos < s.len(),
    ensures
        offset(s, pos + 1) == offset(s, pos) + encode_scalar(s[pos] as u32).len(),
        offset(s, pos + 1) <= encode_utf8(s).len() + 1,
{
    let head = s.take(pos);
    let one = seq![s[pos]];
    let tail = s.skip(pos + 1);
    assert(s.take(pos + 1) =~= head + one);
    assert(s =~= s.take(pos + 1) + tail);
    lemma_encode_concat(head, one);
    lemma_encode_concat(s.take(pos + 1), tail);
    assert(one.drop_first() =~= Seq::<char>::empty());
    assert(encode_utf8(one) =~= encode_scalar(s[pos] as u32)) by {
        reveal_with_fuel(encode_utf8, 2);
    }
}

/// The offsets do not fall as the position grows, and stay within the
/// length of the encoding.
pub proof fn lemma_offset_grows(s: Seq<char>, a: int, b: int)
    requires
        0 <= a <= b <= s.len(),
    ensures
        1 <= offset(s, a) <= offset(s, b) <= encode_utf8(s).len() + 1,
{
    assert(s.take(b) =~= s.take(a) + s.subrange(a, b));
    assert(s =~= s.take(b) + s.skip(b));
    lemma_encode_concat(s.take(a), s.subrange(a, b));
    lemma_encode_concat(s.take(b), s.skip(b));
}

/// The tokens of a text that is short enough for its spans have
/// well-formed spans, and none of them is a string literal.
pub proof fn lemma_tokens_are_well_formed(s: Seq<char>, pos: int)
    requires
        encode_utf8(s).len() < u32::MAX,
    ensures
        lex_from(s, pos) matches Ok(tokens) ==> forall|i: int|
            0 <= i < tokens.len() ==> (#[trigger] tokens[i]).span.wf() && !(tokens[i].kind is Str),
    decreases s.len() - pos,
{
    if 0 <= pos < s.len() {
        let (state, end) = scan(s, pos, TokeniseState::Start);
        if pos < end <= s.len() {
            lemma_offset_grows(s, pos, end);
            lemma_tokens_are_well_formed(s, end);
            match lex_from(s, pos) {
                Ok(tokens) => {
                    let more = lex_from(s, end)->Ok_0;
                    assert forall|i: int| 0 <= i < tokens.len() implies (#[trigger] tokens[i])
                        .span.wf() && !(tokens[i].kind is Str) by {
                        if tokens.len() == more.len() {
                            assert(tokens == more);
                        } else if i > 0 {
                            assert(tokens[i] == more[i - 1]);
                        }
                    }
                },
                Err(_) => {},
            }
        }
    }
}

/// A run of digits writes at least what any of its starts writes.
pub proof fn lemma_decimal_grows(digits: Seq<char>, k: int)
    requires
        0 <= k <= digits.len(),
        forall|i: int| 0 <= i < digits.len() ==> is_digit(#[trigger] digits[i]),
    ensures
        decimal_value(digits.take(k)) <= decimal_value(digits),
    decreases digits.len(),
{
    if k == digits.len() {
        assert(digits.take(k) =~= digits);
    } else {
        assert(digits.drop_last().take(k) =~= digits.take(k));
        lemma_decimal_grows(digits.drop_last(), k);
    }
}

/// The number that the digits from `start` up to `end` write, or nothing
/// where it is too large.
fn number_of(chars: &Vec<char>, start: usize, end: usize) -> (value: Option<i64>)
    requires
        start <= end <= chars@.len(),
        forall|i: int| start <= i < end ==> is_digit(#[trigger] chars@[i]),
    ensures
        match value {
            Some(value) => value == decimal_value(chars@.subrange(start as int, end as int)),
            None => decimal_value(chars@.subrange(start as int, end as int)) > i64::MAX,
        },
{
    let ghost digits = chars@.subrange(start as int, end as int);
    let mut value: i64 = 0;
    let mut i: usize = start;
    while i < end
        invariant
            start <= i <= end <= chars@.len(),
            digits == chars@.subrange(start as int, end as int),
            forall|k: int| 0 <= k < digits.len() ==> is_digit(#[trigger] digits[k]),
            0 <= value == decimal_value(digits.take(i - start)),
        decreases end - i,
    {
        assert(digits[i - start] == chars@[i as int]);
        let d: i64 = (chars[i] as u32 - '0' as u32) as i64;
        proof {
            let next = digits.take(i - start + 1);
            assert(next.drop_last() =~= digits.take(i - start));
            assert(next.last() == chars@[i as int]);
            assert(is_digit(digits[i - start]));
            assert(decimal_value(next) == value * 10 + d);
            lemma_decimal_grows(digits, i - start + 1);
        }
        let scaled = match value.checked_mul(10) {
            Some(scaled) => scaled,
            None => {
                return None;
            },
        };
        value = match scaled.checked_add(d) {
            Some(sum) => sum,
            None => {
                return None;
            },
        };
        i += 1;
    }
    assert(digits.take(end - start) =~= digits);
    Some(value)
}

/// The characters from `start` up to `end`, as a string.
fn text_of(chars: &Vec<char>, start: usize, end: usize) -> (text: String)
    requires
        start <= end <= chars@.len(),
    ensures
        text@ == chars@.subrange(start as int, end as int),
{
    let mut text = String::new();
    let mut i: usize = start;
    while i < end
        invariant
            start <= i <= end <= chars@.len(),
            text@ == chars@.subrange(start as int, i as int),
        decreases end - i,
    {
        text.push(chars[i]);
        assert(text@ =~= chars@.subrange(start as int, i + 1));
        i += 1;
    }
    text
}

/// Putting tokens before a result, one lot after the other, is putting
/// them all before it.
proof fn lemma_after_after(
    first: Seq<TokenView>,
    second: Seq<TokenView>,
    rest: Result<Seq<TokenView>, LexError>,
)
    ensures
        after(first, after(second, rest)) == after(first + second, rest),
{
    match rest {
        Ok(more) => {
            assert(first + (second + more) =~= (first + second) + more);
        },
        Err(_) => {},
    }
}

/// Whether the text is short enough for its spans, which count bytes from
/// one in 32 bits: under `u32::MAX` bytes.
pub fn spans_fit(source: &str) -> (fit: bool)
    ensures
        fit == (encode_utf8(source@).len() < u32::MAX),
{
    source.as_bytes().len() < u32::MAX as usize
}

/// Splits a source text into its tokens. The text has to be short enough
/// for its spans (`spans_fit`).
pub fn tokenise(source: &str) -> (result: Result<Vec<Token>, LexError>)
    requires
        encode_utf8(source@).len() < u32::MAX,
    ensures
        lexed(result) == tokenise_spec(source@),
{
    let chars = to_chars(source);
    let ghost s = source@;
    let mut ret: Vec<Token> = Vec::new();
    let mut start: usize = 0;
    let mut start_byte: u32 = 0;
    assert(s.take(0) =~= Seq::<char>::empty());
    assert(token_views(ret@) =~= Seq::<TokenView>::empty());
    assert(after(token_views(ret@), lex_from(s, 0)) == lex_from(s, 0)) by {
        match lex_from(s, 0) {
            Ok(more) => {
                assert(Seq::<TokenView>::empty() + more =~= more);
            },
            Err(_) => {},
        }
    }
    while start < chars.len()
        invariant
            s == source@,
            chars@ == s,
            encode_utf8(s).len() < u32::MAX,
            start <= s.len(),
            start_byte + 1 == offset(s, start as int),
            start_byte <= encode_utf8(s).len(),
            tokenise_spec(s) == after(token_views(ret@), lex_from(s, start as int)),
        decreases s.len() - start,
    {
        let mut state = TokeniseState::Start;
        let mut end: usize = start;
        let mut end_byte: u32 = start_byte;
        let mut going: bool = true;
        while going && end < chars.len()
            invariant
                chars@ == s,
                encode_utf8(s).len() < u32::MAX,
                start <= end <= s.len(),
                end_byte + 1 == offset(s, end as int),
                start_byte <= end_byte <= encode_utf8(s).len(),
                scan(s, start as int, TokeniseState::Start) == scan(s, end as int, state),
                (state == TokeniseState::Start) == (end == start),
                state == TokeniseState::Number ==> forall|k: int|
                    start <= k < end ==> is_digit(#[trigger] s[k]),
                !going ==> end < s.len() && step(state, s[end as int]) is None,
            decreases s.len() - end + (if going { 1int } else { 0int }),
        {
            match next_state(state, chars[end]) {
                Some(next) => {
                    proof {
                        lemma_offset_step(s, end as int);
                    }
                    let width: u32 = utf8_width(chars[end]);
                    state = next;
                    end_byte = end_byte + width;
                    end = end + 1;
                },
                None => {
                    going = false;
                },
            }
        }
        assert(scan(s, start as int, TokeniseState::Start) == (state, end as int));
        if end == start {
            return Err(LexError::UnexpectedChar(chars[start], start_byte + 1));
        }
        let bounds = span_bounds(start_byte, end_byte);
        let span = Span::new(bounds.0 + 1, bounds.1 + 1);
        let kind = match state {
            TokeniseState::Lparen => Some(TokenKind::LeftBracket),
            TokeniseState::Rparen => Some(TokenKind::RightBracket),
            TokeniseState::Number => match number_of(&chars, start, end) {
                Some(value) => Some(TokenKind::Number(value)),
                None => {
                    return Err(LexError::NumberTooLarge(span));
                },
            },
            TokeniseState::Symbol => Some(TokenKind::Symbol(text_of(&chars, start, end))),
            _ => None,
        };
        match kind {
            Some(kind) => {
                let ghost before = token_views(ret@);
                let ghost token = TokenView { kind: kind@, span };
                ret.push(Token::with_span(kind, span));
                proof {
                    assert(token_views(ret@) =~= before + seq![token]);
                    lemma_after_after(before, seq![token], lex_from(s, end as int));
                }
            },
            None => {},
        }
        start = end;
        start_byte = end_byte;
    }
    assert(lex_from(s, start as int) == Ok::<Seq<TokenView>, LexError>(Seq::empty()));
    assert(token_views(ret@) + Seq::<TokenView>::empty() =~= token_views(ret@));
    Ok(ret)
}

} // verus!
