//! Tokens and expression trees, with the mathematical views that the
//! contracts of the lexer, the parser and the evaluator speak of.

use vstd::prelude::*;

verus! {

/// A half-open range `[start, end)` of byte offsets into a source text,
/// counted from one.
#[derive(Debug, PartialEq, Eq, Clone, Copy, Structural)]
pub struct Span {
    pub start: u32,
    pub end: u32,
}

impl Span {
    /// A span is well formed when it does not end before it starts.
    pub open spec fn wf(self) -> bool {
        self.start <= self.end
    }

    /// The span from `start` up to `end`.
    pub fn new(start: u32, end: u32) -> (span: Span)
        ensures
            span.start == start,
            span.end == end,
    {
        Span { start, end }
    }

    /// The offset of the first byte.
    pub fn start(&self) -> (start: u32)
        ensures
            start == self.start,
    {
        self.start
    }

    /// The offset after the last byte.
    pub fn end(&self) -> (end: u32)
        ensures
            end == self.end,
    {
        self.end
    }
}

/// What a token is, and the number or the text that it holds.
#[derive(Debug, PartialEq, Clone)]
pub enum TokenKind {
    LeftBracket,
    RightBracket,
    Number(i64),
    Symbol(String),
    /// A string literal. No source text produces one yet.
    Str(String),
}

/// What a `TokenKind` holds, with its text as a sequence of characters.
pub enum TokenKindView {
    LeftBracket,
    RightBracket,
    Number(i64),
    Symbol(Seq<char>),
    Str(Seq<char>),
}

impl View for TokenKind {
    type V = TokenKindView;

    open spec fn view(&self) -> TokenKindView {
        match *self {
            TokenKind::LeftBracket => TokenKindView::LeftBracket,
            TokenKind::RightBracket => TokenKindView::RightBracket,
            TokenKind::Number(n) => TokenKindView::Number(n),
            TokenKind::Symbol(s) => TokenKindView::Symbol(s@),
            TokenKind::Str(s) => TokenKindView::Str(s@),
        }
    }
}

impl TokenKind {
    /// A copy that holds the same kind and text.
    pub fn duplicate(&self) -> (copy: TokenKind)
        ensures
            copy@ == self@,
    {
        match self {
            TokenKind::LeftBracket => TokenKind::LeftBracket,
            TokenKind::RightBracket => TokenKind::RightBracket,
            TokenKind::Number(n) => TokenKind::Number(*n),
            TokenKind::Symbol(s) => TokenKind::Symbol(s.clone()),
            TokenKind::Str(s) => TokenKind::Str(s.clone()),
        }
    }
}

/// A lexeme of the source: what it is, and where it was read.
#[derive(Debug, PartialEq)]
pub struct Token {
    pub kind: TokenKind,
    pub span: Span,
}

/// What a `Token` holds.
pub struct TokenView {
    pub kind: TokenKindView,
    pub span: Span,
}

impl View for Token {
    type V = TokenView;

    open spec fn view(&self) -> TokenView {
        TokenView { kind: self.kind@, span: self.span }
    }
}

impl Token {
    /// The token of this kind at this span.
    pub fn with_span(kind: TokenKind, span: Span) -> (token: Token)
        ensures
            token.kind == kind,
            token.span == span,
    {
        Token { kind, span }
    }

    /// A copy that holds the same kind, text and span.
    pub fn duplicate(&self) -> (copy: Token)
        ensures
            copy@ == self@,
    {
        Token { kind: self.kind.duplicate(), span: self.span }
    }
}

/// An expression tree. Each node keeps the tokens that it was read from:
/// a literal its one token; a form its brackets, its keyword or callee, and
/// the target of a definition.
#[derive(Debug, PartialEq)]
pub enum Expr {
    Symbol(Token, String),
    Str(String),
    Number(Token, i64),
    If(Token, Token, Box<Expr>, Box<Expr>, Box<Expr>, Token),
    Define(Token, Token, Token, Box<Expr>, Token),
    Call(Token, Token, Vec<Expr>, Token),
}

/// What an `Expr` holds: the same tree over token views and sequences.
pub enum ExprView {
    Symbol(TokenView, Seq<char>),
    Str(Seq<char>),
    Number(TokenView, i64),
    If(TokenView, TokenView, Box<ExprView>, Box<ExprView>, Box<ExprView>, TokenView),
    Define(TokenView, TokenView, TokenView, Box<ExprView>, TokenView),
    Call(TokenView, TokenView, Seq<ExprView>, TokenView),
}

impl Expr {
    /// The tree that this expression holds.
    pub open spec fn model(self) -> ExprView
        decreases self,
    {
        match self {
            Expr::Symbol(token, name) => ExprView::Symbol(token@, name@),
            Expr::Str(text) => ExprView::Str(text@),
            Expr::Number(token, n) => ExprView::Number(token@, n),
            Expr::If(open, keyword, cond, consequent, otherwise, close) => ExprView::If(
                open@,
                keyword@,
                Box::new((*cond).model()),
                Box::new((*consequent).model()),
                Box::new((*otherwise).model()),
                close@,
            ),
            Expr::Define(open, keyword, target, value, close) => ExprView::Define(
                open@,
                keyword@,
                target@,
                Box::new((*value).model()),
                close@,
            ),
            Expr::Call(open, callee, args, close) => ExprView::Call(
                open@,
                callee@,
                Seq::new(
                    args@.len(),
                    |i: int|
                        if 0 <= i < args@.len() {
                            args@[i].model()
                        } else {
                            arbitrary()
                        },
                ),
                close@,
            ),
        }
    }
}

/// The trees that a sequence of expressions holds.
pub open spec fn models(exprs: Seq<Expr>) -> Seq<ExprView> {
    Seq::new(exprs.len(), |i: int| exprs[i].model())
}

impl View for Expr {
    type V = ExprView;

    open spec fn view(&self) -> ExprView {
        self.model()
    }
}

} // verus!
