//! The parser: recursive descent over the tokens, one token of lookahead.
//!
//! ```text
//! expr  := NUMBER | SYMBOL | '(' form
//! form  := 'if' expr expr expr ')'
//!        | ('define'|'setq') SYMBOL expr ')'
//!        | SYMBOL expr* ')'
//! ```

use crate::ast::{models, Expr, ExprView, Token, TokenKind, TokenKindView, TokenView};
use crate::lex::{token_views, tokenise, tokenise_spec, LexError};
use crate::text::same_text;
use vstd::prelude::*;
use vstd::utf8::encode_utf8;

verus! {

/// Why a source text could not be parsed.
#[derive(Debug, PartialEq)]
pub enum ParseError {
    /// The source holds no token. This is no malformed input: there is
    /// nothing more to read.
    NoInput,
    /// The source could not be split into tokens.
    Lex(LexError),
    /// The tokens end where an expression, a symbol or a closing bracket
    /// is due.
    UnexpectedEnd,
    /// An expression is due, and this token starts none.
    UnexpectedToken(Token),
    /// A symbol is due, and this token is none.
    ExpectedSymbol(Token),
    /// A closing bracket is due, and this token is none.
    ExpectedClose(Token),
}

/// What a `ParseError` holds, with the tokens by their views.
pub enum ParseErrorView {
    NoInput,
    Lex(LexError),
    UnexpectedEnd,
    UnexpectedToken(TokenView),
    ExpectedSymbol(TokenView),
    ExpectedClose(TokenView),
}

impl View for ParseError {
    type V = ParseErrorView;

    open spec fn view(&self) -> ParseErrorView {
        match *self {
            ParseError::NoInput => ParseErrorView::NoInput,
            ParseError::Lex(error) => ParseErrorView::Lex(error),
            ParseError::UnexpectedEnd => ParseErrorView::UnexpectedEnd,
            ParseError::UnexpectedToken(token) => ParseErrorView::UnexpectedToken(token@),
            ParseError::ExpectedSymbol(token) => ParseErrorView::ExpectedSymbol(token@),
            ParseError::ExpectedClose(token) => ParseErrorView::ExpectedClose(token@),
        }
    }
}

/// The keywords that start a definition.
pub open spec fn is_define_keyword(name: Seq<char>) -> bool {
    name == "define"@ || name == "setq"@
}

/// The closing bracket at `pos`.
pub open spec fn close_at(tokens: Seq<TokenView>, pos: int) -> Result<TokenView, ParseErrorView> {
    if 0 <= pos < tokens.len() {
        match tokens[pos].kind {
            TokenKindView::RightBracket => Ok(tokens[pos]),
            _ => Err(ParseErrorView::ExpectedClose(tokens[pos])),
        }
    } else {
        Err(ParseErrorView::UnexpectedEnd)
    }
}

/// The symbol at `pos`.
pub open spec fn symbol_at(tokens: Seq<TokenView>, pos: int) -> Result<TokenView, ParseErrorView> {
    if 0 <= pos < tokens.len() {
        match tokens[pos].kind {
            TokenKindView::Symbol(_) => Ok(tokens[pos]),
            _ => Err(ParseErrorView::ExpectedSymbol(tokens[pos])),
        }
    } else {
        Err(ParseErrorView::UnexpectedEnd)
    }
}

/// The expression that starts at `pos`, and the position after its last
/// token.
///
/// The three functions of the grammar compare positions before they read
/// on: the part read so far has to end after the place where it began and
/// within the tokens. The comparisons make the definitions well founded;
/// they never fail (`lemma_parse_advances`).
pub open spec fn parse_expr_spec(tokens: Seq<TokenView>, pos: int) -> Result<
    (ExprView, int),
    ParseErrorView,
>
    decreases tokens.len() - pos, 1nat,
{
    if 0 <= pos < tokens.len() {
        let token = tokens[pos];
        match token.kind {
            TokenKindView::LeftBracket => parse_form_spec(tokens, pos + 1, token),
            TokenKindView::Number(n) => Ok((ExprView::Number(token, n), pos + 1)),
            TokenKindView::Symbol(name) => Ok((ExprView::Symbol(token, name), pos + 1)),
            _ => Err(ParseErrorView::UnexpectedToken(token)),
        }
    } else {
        Err(ParseErrorView::UnexpectedEnd)
    }
}

/// The form whose opening bracket `open` stands just before `pos`, and the
/// position after its closing bracket.
pub open spec fn parse_form_spec(tokens: Seq<TokenView>, pos: int, open: TokenView) -> Result<
    (ExprView, int),
    ParseErrorView,
>
    decreases tokens.len() - pos, 0nat,
{
    match symbol_at(tokens, pos) {
        Err(error) => Err(error),
        Ok(head) => {
            let name = head.kind->Symbol_0;
            if name == "if"@ {
                match parse_expr_spec(tokens, pos + 1) {
                    Err(error) => Err(error),
                    Ok((cond, n1)) => if !(pos < n1 <= tokens.len()) {
                        Err(ParseErrorView::UnexpectedEnd)
                    } else {
                        match parse_expr_spec(tokens, n1) {
                            Err(error) => Err(error),
                            Ok((consequent, n2)) => if !(n1 < n2 <= tokens.len()) {
                                Err(ParseErrorView::UnexpectedEnd)
                            } else {
                                match parse_expr_spec(tokens, n2) {
                                    Err(error) => Err(error),
                                    Ok((otherwise, n3)) => match close_at(tokens, n3) {
                                        Err(error) => Err(error),
                                        Ok(close) => Ok(
                                            (
                                                ExprView::If(
                                                    open,
                                                    head,
                                                    Box::new(cond),
                                                    Box::new(consequent),
                                                    Box::new(otherwise),
                                                    close,
                                                ),
                                                n3 + 1,
                                            ),
                                        ),
                                    },
                                }
                            },
                        }
                    },
                }
            } else if is_define_keyword(name) {
                match symbol_at(tokens, pos + 1) {
                    Err(error) => Err(error),
                    Ok(target) => match parse_expr_spec(tokens, pos + 2) {
                        Err(error) => Err(error),
                        Ok((value, n1)) => match close_at(tokens, n1) {
                            Err(error) => Err(error),
                            Ok(close) => Ok(
                                (
                                    ExprView::Define(open, head, target, Box::new(value), close),
                                    n1 + 1,
                                ),
                            ),
                        },
                    },
                }
            } else {
                match parse_args_spec(tokens, pos + 1) {
                    Err(error) => Err(error),
                    Ok((args, n1)) => Ok((ExprView::Call(open, head, args, tokens[n1]), n1 + 1)),
                }
            }
        },
    }
}

/// The expressions from `pos` up to the next closing bracket that belongs
/// to none of them, and the position of that bracket.
pub open spec fn parse_args_spec(tokens: Seq<TokenView>, pos: int) -> Result<
    (Seq<ExprView>, int),
    ParseErrorView,
>
    decreases tokens.len() - pos, 2nat,
{
    if 0 <= pos < tokens.len() {
        if tokens[pos].kind is RightBracket {
            Ok((Seq::empty(), pos))
        } else {
            match parse_expr_spec(tokens, pos) {
                Err(error) => Err(error),
                Ok((first, n1)) => if !(pos < n1 <= tokens.len()) {
                    Err(ParseErrorView::UnexpectedEnd)
                } else {
                    match parse_args_spec(tokens, n1) {
                        Err(error) => Err(error),
                        Ok((rest, n2)) => Ok((seq![first] + rest, n2)),
                    }
                },
            }
        }
    } else {
        Err(ParseErrorView::UnexpectedEnd)
    }
}

/// The first expression of the tokens. What follows it is not looked at.
pub open spec fn parse_tokens_spec(tokens: Seq<TokenView>) -> Result<ExprView, ParseErrorView> {
    if tokens.len() == 0 {
        Err(ParseErrorView::NoInput)
    } else {
        match parse_expr_spec(tokens, 0) {
            Ok((expr, _)) => Ok(expr),
            Err(error) => Err(error),
        }
    }
}

/// The first expression of a source text.
pub open spec fn parse_spec(source: Seq<char>) -> Result<ExprView, ParseErrorView> {
    match tokenise_spec(source) {
        Err(error) => Err(ParseErrorView::Lex(error)),
        Ok(tokens) => parse_tokens_spec(tokens),
    }
}

/// What a parsing comes to, by its views.
pub open spec fn parsed(result: Result<Expr, ParseError>) -> Result<ExprView, ParseErrorView> {
    match result {
        Ok(expr) => Ok(expr@),
        Err(error) => Err(error@),
    }
}

/// An expression ends after the place where it starts and within the
/// tokens, and so does a form; a list of arguments ends at a closing
/// bracket that is not before its start.
pub proof fn lemma_parse_advances(tokens: Seq<TokenView>, pos: int, open: TokenView)
    ensures
        parse_expr_spec(tokens, pos) matches Ok((_, next)) ==> pos < next <= tokens.len(),
        parse_form_spec(tokens, pos, open) matches Ok((_, next)) ==> pos < next <= tokens.len(),
        parse_args_spec(tokens, pos) matches Ok((_, close)) ==> pos <= close < tokens.len()
            && tokens[close].kind is RightBracket,
    decreases tokens.len() - pos,
{
    if 0 <= pos < tokens.len() {
        lemma_parse_advances(tokens, pos + 1, tokens[pos]);
        match parse_expr_spec(tokens, pos) {
            Ok((_, n1)) => {
                if pos < n1 <= tokens.len() {
                    lemma_parse_advances(tokens, n1, open);
                }
            },
            Err(_) => {},
        }
        match parse_expr_spec(tokens, pos + 1) {
            Ok((_, n1)) => {
                if pos < n1 <= tokens.len() {
                    lemma_parse_advances(tokens, n1, open);
                    match parse_expr_spec(tokens, n1) {
                        Ok((_, n2)) => {
                            if n1 < n2 <= tokens.len() {
                                lemma_parse_advances(tokens, n2, open);
                            }
                        },
                        Err(_) => {},
                    }
                }
            },
            Err(_) => {},
        }
        if pos + 2 <= tokens.len() {
            lemma_parse_advances(tokens, pos + 2, open);
        }
    }
}

/// The expressions put before those of a list of arguments.
pub open spec fn prepend(
    exprs: Seq<ExprView>,
    rest: Result<(Seq<ExprView>, int), ParseErrorView>,
) -> Result<(Seq<ExprView>, int), ParseErrorView> {
    match rest {
        Ok((more, close)) => Ok((exprs + more, close)),
        Err(error) => Err(error),
    }
}

/// The tokens of a source text and the position of the next one to read.
pub struct ParseState {
    pub tokens: Vec<Token>,
    pub pos: usize,
}

impl ParseState {
    /// The position lies within the tokens or just after them.
    pub open spec fn wf(&self) -> bool {
        self.pos <= self.tokens@.len()
    }

    /// The tokens, by their views.
    pub open spec fn views(&self) -> Seq<TokenView> {
        token_views(self.tokens@)
    }

    /// A parser at the first of the tokens.
    pub fn new(tokens: Vec<Token>) -> (state: ParseState)
        ensures
            state.tokens == tokens,
            state.pos == 0,
            state.wf(),
    {
        ParseState { tokens, pos: 0 }
    }

    /// Reads the closing bracket that is due.
    fn expect_close(&mut self) -> (result: Result<Token, ParseError>)
        requires
            old(self).wf(),
        ensures
            final(self).tokens == old(self).tokens,
            final(self).wf(),
            match result {
                Ok(token) => close_at(old(self).views(), old(self).pos as int) == Ok::<
                    TokenView,
                    ParseErrorView,
                >(token@) && final(self).pos == old(self).pos + 1,
                Err(error) => close_at(old(self).views(), old(self).pos as int) == Err::<
                    TokenView,
                    ParseErrorView,
                >(error@),
            },
    {
        if self.pos >= self.tokens.len() {
            return Err(ParseError::UnexpectedEnd);
        }
        let token = self.tokens[self.pos].duplicate();
        match token.kind {
            TokenKind::RightBracket => {
                self.pos = self.pos + 1;
                Ok(token)
            },
            _ => Err(ParseError::ExpectedClose(token)),
        }
    }

    /// Reads the symbol that is due.
    fn expect_symbol(&mut self) -> (result: Result<Token, ParseError>)
        requires
            old(self).wf(),
        ensures
            final(self).tokens == old(self).tokens,
            final(self).wf(),
            match result {
                Ok(token) => symbol_at(old(self).views(), old(self).pos as int) == Ok::<
                    TokenView,
                    ParseErrorView,
                >(token@) && final(self).pos == old(self).pos + 1,
                Err(error) => symbol_at(old(self).views(), old(self).pos as int) == Err::<
                    TokenView,
                    ParseErrorView,
                >(error@),
            },
    {
        if self.pos >= self.tokens.len() {
            return Err(ParseError::UnexpectedEnd);
        }
        let token = self.tokens[self.pos].duplicate();
        match token.kind {
            TokenKind::Symbol(_) => {
                self.pos = self.pos + 1;
                Ok(token)
            },
            _ => Err(ParseError::ExpectedSymbol(token)),
        }
    }

    /// Parses the expression that starts at the next token.
    pub fn parse_expr(&mut self) -> (result: Result<Expr, ParseError>)
        requires
            old(self).wf(),
        ensures
            final(self).tokens == old(self).tokens,
            final(self).wf(),
            match result {
                Ok(expr) => parse_expr_spec(old(self).views(), old(self).pos as int) == Ok::<
                    (ExprView, int),
                    ParseErrorView,
                >((expr@, final(self).pos as int)),
                Err(error) => parse_expr_spec(old(self).views(), old(self).pos as int) == Err::<
                    (ExprView, int),
                    ParseErrorView,
                >(error@),
            },
        decreases old(self).tokens@.len() - old(self).pos, 1nat,
    {
        if self.pos >= self.tokens.len() {
            return Err(ParseError::UnexpectedEnd);
        }
        let token = self.tokens[self.pos].duplicate();
        self.pos = self.pos + 1;
        match &token.kind {
            TokenKind::LeftBracket => self.parse_form(token),
            TokenKind::Number(n) => {
                let n: i64 = *n;
                Ok(Expr::Number(token, n))
            },
            TokenKind::Symbol(s) => {
                let name = s.clone();
                Ok(Expr::Symbol(token, name))
            },
            _ => Err(ParseError::UnexpectedToken(token)),
        }
    }

    /// Parses the form whose opening bracket was just read.
    pub fn parse_form(&mut self, open: Token) -> (result: Result<Expr, ParseError>)
        requires
            old(self).wf(),
        ensures
            final(self).tokens == old(self).tokens,
            final(self).wf(),
            match result {
                Ok(expr) => parse_form_spec(old(self).views(), old(self).pos as int, open@) == Ok::<
                    (ExprView, int),
                    ParseErrorView,
                >((expr@, final(self).pos as int)),
                Err(error) => parse_form_spec(old(self).views(), old(self).pos as int, open@)
                    == Err::<(ExprView, int), ParseErrorView>(error@),
            },
        decreases old(self).tokens@.len() - old(self).pos, 0nat,
    {
        let ghost tokens = self.views();
        let ghost pos = self.pos as int;
        let head = match self.expect_symbol() {
            Ok(head) => head,
            Err(error) => {
                return Err(error);
            },
        };
        let (is_if, is_define) = match &head.kind {
            TokenKind::Symbol(name) => (
                same_text(name.as_str(), "if"),
                same_text(name.as_str(), "define") || same_text(name.as_str(), "setq"),
            ),
            _ => (false, false),
        };
        if is_if {
            let cond = match self.parse_expr() {
                Ok(expr) => expr,
                Err(error) => {
                    return Err(error);
                },
            };
            proof {
                lemma_parse_advances(tokens, pos + 1, open@);
            }
            let ghost n1 = self.pos as int;
            let consequent = match self.parse_expr() {
                Ok(expr) => expr,
                Err(error) => {
                    return Err(error);
                },
            };
            proof {
                lemma_parse_advances(tokens, n1, open@);
            }
            let otherwise = match self.parse_expr() {
                Ok(expr) => expr,
                Err(error) => {
                    return Err(error);
                },
            };
            let close = match self.expect_close() {
                Ok(token) => token,
                Err(error) => {
                    return Err(error);
                },
            };
            Ok(
                Expr::If(
                    open,
                    head,
                    Box::new(cond),
                    Box::new(consequent),
                    Box::new(otherwise),
                    close,
                ),
            )
        } else if is_define {
            let target = match self.expect_symbol() {
                Ok(token) => token,
                Err(error) => {
                    return Err(error);
                },
            };
            let value = match self.parse_expr() {
                Ok(expr) => expr,
                Err(error) => {
                    return Err(error);
                },
            };
            let close = match self.expect_close() {
                Ok(token) => token,
                Err(error) => {
                    return Err(error);
                },
            };
            Ok(Expr::Define(open, head, target, Box::new(value), close))
        } else {
            let mut args: Vec<Expr> = Vec::new();
            assert(prepend(models(args@), parse_args_spec(tokens, pos + 1)) == parse_args_spec(
                tokens,
                pos + 1,
            )) by {
                match parse_args_spec(tokens, pos + 1) {
                    Ok((more, _)) => {
                        assert(models(args@) + more =~= more);
                    },
                    Err(_) => {},
                }
            }
            while self.pos < self.tokens.len() && !self.at_close()
                invariant
                    self.wf(),
                    self.tokens == old(self).tokens,
                    tokens == self.views(),
                    pos == old(self).pos,
                    pos < self.pos,
                    parse_form_spec(tokens, pos, open@) == (match parse_args_spec(
                        tokens,
                        pos + 1,
                    ) {
                        Err(error) => Err::<(ExprView, int), ParseErrorView>(error),
                        Ok((args, n1)) => Ok(
                            (ExprView::Call(open@, head@, args, tokens[n1]), n1 + 1),
                        ),
                    }),
                    parse_args_spec(tokens, pos + 1) == prepend(
                        models(args@),
                        parse_args_spec(tokens, self.pos as int),
                    ),
                decreases self.tokens@.len() - self.pos,
            {
                let ghost here = self.pos as int;
                let ghost before = models(args@);
                match self.parse_expr() {
                    Ok(expr) => {
                        proof {
                            lemma_parse_advances(tokens, here, open@);
                            let rest = parse_args_spec(tokens, self.pos as int);
                            assert(models(args@.push(expr)) =~= before + seq![expr@]);
                            match rest {
                                Ok((more, _)) => {
                                    assert(before + (seq![expr@] + more) =~= (before + seq![
                                        expr@,
                                    ]) + more);
                                },
                                Err(_) => {},
                            }
                        }
                        args.push(expr);
                    },
                    Err(error) => {
                        return Err(error);
                    },
                }
            }
            let ghost trees = models(args@);
            match self.expect_close() {
                Ok(close) => {
                    assert(trees + Seq::<ExprView>::empty() =~= trees);
                    let call = Expr::Call(open, head, args, close);
                    assert(call@ matches ExprView::Call(_, _, shown, _) && shown =~= trees);
                    Ok(call)
                },
                Err(error) => Err(error),
            }
        }
    }

    /// Whether the next token is a closing bracket.
    fn at_close(&self) -> (r: bool)
        requires
            self.pos < self.tokens@.len(),
        ensures
            r == (self.views()[self.pos as int].kind is RightBracket),
    {
        match self.tokens[self.pos].kind {
            TokenKind::RightBracket => true,
            _ => false,
        }
    }
}

/// Parses the first expression of the tokens. What follows it is not
/// looked at.
pub fn parse_tokens(tokens: Vec<Token>) -> (result: Result<Expr, ParseError>)
    ensures
        parsed(result) == parse_tokens_spec(token_views(tokens@)),
{
    if tokens.len() < 1 {
        return Err(ParseError::NoInput);
    }
    let mut state = ParseState::new(tokens);
    state.parse_expr()
}

/// Parses the first expression of a source text. The text has to be short
/// enough for its spans (`lex::spans_fit`).
pub fn parse(source: &str) -> (result: Result<Expr, ParseError>)
    requires
        encode_utf8(source@).len() < u32::MAX,
    ensures
        parsed(result) == parse_spec(source@),
{
    match tokenise(source) {
        Ok(tokens) => parse_tokens(tokens),
        Err(error) => Err(ParseError::Lex(error)),
    }
}

} // verus!
