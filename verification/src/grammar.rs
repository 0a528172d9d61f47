//! The grammar as a property of trees: which trees the parser can give,
//! and which tokens each of them was read from.

use crate::ast::{ExprView, TokenKindView, TokenView};
use crate::builtins::builtin_result;
use crate::env::EnvironmentView;
use crate::eval::{callable_of, eval_args_spec, eval_spec, symbol_of, Builtin, EvalErrorView, Value};
use crate::parse::{is_define_keyword, lemma_parse_advances, parse_args_spec, parse_expr_spec,
    parse_form_spec, ParseErrorView};
use vstd::prelude::*;

verus! {

/// The tokens that a tree holds, in the order of the source.
pub open spec fn tokens_of(expr: ExprView) -> Seq<TokenView>
    decreases expr,
{
    match expr {
        ExprView::Symbol(token, _) => seq![token],
        ExprView::Str(_) => Seq::empty(),
        ExprView::Number(token, _) => seq![token],
        ExprView::If(open, keyword, cond, consequent, otherwise, close) => seq![open, keyword]
            + tokens_of(*cond) + tokens_of(*consequent) + tokens_of(*otherwise) + seq![close],
        ExprView::Define(open, keyword, target, value, close) => seq![open, keyword, target]
            + tokens_of(*value) + seq![close],
        ExprView::Call(open, callee, args, close) => seq![open, callee] + tokens_of_all(args)
            + seq![close],
    }
}

/// The tokens that the trees hold, one tree after the other.
pub open spec fn tokens_of_all(exprs: Seq<ExprView>) -> Seq<TokenView>
    decreases exprs,
{
    if exprs.len() == 0 {
        Seq::empty()
    } else {
        tokens_of(exprs[0]) + tokens_of_all(exprs.drop_first())
    }
}

/// A tree is well formed when it is a tree of the grammar: its brackets
/// are brackets, its keyword is the keyword of its form, a literal holds
/// what its token holds, the target of a definition and the callee of a
/// call are symbols, the callee is no keyword, and its parts are well
/// formed. A string literal is not.
pub open spec fn well_formed(expr: ExprView) -> bool
    decreases expr,
{
    match expr {
        ExprView::Symbol(token, name) => token.kind == TokenKindView::Symbol(name),
        ExprView::Str(_) => false,
        ExprView::Number(token, n) => token.kind == TokenKindView::Number(n),
        ExprView::If(open, keyword, cond, consequent, otherwise, close) => {
            &&& open.kind is LeftBracket
            &&& keyword.kind == TokenKindView::Symbol("if"@)
            &&& close.kind is RightBracket
            &&& well_formed(*cond)
            &&& well_formed(*consequent)
            &&& well_formed(*otherwise)
        },
        ExprView::Define(open, keyword, target, value, close) => {
            &&& open.kind is LeftBracket
            &&& keyword.kind matches TokenKindView::Symbol(name)
            &&& name != "if"@
            &&& is_define_keyword(name)
            &&& target.kind is Symbol
            &&& close.kind is RightBracket
            &&& well_formed(*value)
        },
        ExprView::Call(open, callee, args, close) => {
            &&& open.kind is LeftBracket
            &&& callee.kind matches TokenKindView::Symbol(name)
            &&& name != "if"@
            &&& !is_define_keyword(name)
            &&& close.kind is RightBracket
            &&& all_well_formed(args)
        },
    }
}

/// Each of the trees is well formed.
pub open spec fn all_well_formed(exprs: Seq<ExprView>) -> bool
    decreases exprs,
{
    exprs.len() == 0 || (well_formed(exprs[0]) && all_well_formed(exprs.drop_first()))
}

/// What the parser gives for an expression is a well-formed tree that
/// holds the tokens it was read from, all of them and in order: the tokens
/// from `pos` up to where the parser stopped.
pub proof fn lemma_parser_keeps_tokens(tokens: Seq<TokenView>, pos: int)
    ensures
        parse_expr_spec(tokens, pos) matches Ok((expr, next)) ==> well_formed(expr) && tokens_of(
            expr,
        ) == tokens.subrange(pos, next),
    decreases tokens.len() - pos, 2nat,
{
    if 0 <= pos < tokens.len() {
        lemma_parse_advances(tokens, pos, tokens[pos]);
        match parse_expr_spec(tokens, pos) {
            Ok((expr, next)) => {
                if tokens[pos].kind is LeftBracket {
                    lemma_form_keeps_tokens(tokens, pos + 1, tokens[pos]);
                }
                assert(tokens.subrange(pos, next) =~= seq![tokens[pos]] + tokens.subrange(
                    pos + 1,
                    next,
                ));
            },
            Err(_) => {},
        }
    }
}

/// A form holds its opening bracket and the tokens from `pos` up to where
/// the parser stopped.
pub proof fn lemma_form_keeps_tokens(tokens: Seq<TokenView>, pos: int, open: TokenView)
    requires
        open.kind is LeftBracket,
    ensures
        parse_form_spec(tokens, pos, open) matches Ok((expr, next)) ==> well_formed(expr)
            && tokens_of(expr) == seq![open] + tokens.subrange(pos, next),
    decreases tokens.len() - pos, 1nat,
{
    match parse_form_spec(tokens, pos, open) {
        Ok((expr, next)) => {
            let head = tokens[pos];
            let name = head.kind->Symbol_0;
            if name == "if"@ {
                lemma_if_keeps_tokens(tokens, pos, open);
            } else if is_define_keyword(name) {
                lemma_parser_keeps_tokens(tokens, pos + 2);
                lemma_parse_advances(tokens, pos + 2, open);
                let (value, n1) = parse_expr_spec(tokens, pos + 2)->Ok_0;
                assert(seq![open] + tokens.subrange(pos, next) =~= seq![
                    open,
                    head,
                    tokens[pos + 1],
                ] + tokens.subrange(pos + 2, n1) + seq![tokens[n1]]);
            } else {
                lemma_args_keep_tokens(tokens, pos + 1);
                lemma_parse_advances(tokens, pos + 1, open);
                let (args, n1) = parse_args_spec(tokens, pos + 1)->Ok_0;
                assert(seq![open] + tokens.subrange(pos, next) =~= seq![open, head]
                    + tokens.subrange(pos + 1, n1) + seq![tokens[n1]]);
            }
        },
        Err(_) => {},
    }
}

/// A conditional holds its opening bracket and the tokens from `pos` up to
/// where the parser stopped.
proof fn lemma_if_keeps_tokens(tokens: Seq<TokenView>, pos: int, open: TokenView)
    requires
        open.kind is LeftBracket,
        parse_form_spec(tokens, pos, open) is Ok,
        0 <= pos < tokens.len(),
        tokens[pos].kind == TokenKindView::Symbol("if"@),
    ensures
        parse_form_spec(tokens, pos, open) matches Ok((expr, next)) ==> well_formed(expr)
            && tokens_of(expr) == seq![open] + tokens.subrange(pos, next),
    decreases tokens.len() - pos, 0nat,
{
    let head = tokens[pos];
    let (expr, next) = parse_form_spec(tokens, pos, open)->Ok_0;
    lemma_parser_keeps_tokens(tokens, pos + 1);
    lemma_parse_advances(tokens, pos + 1, open);
    let (cond, n1) = parse_expr_spec(tokens, pos + 1)->Ok_0;
    lemma_parser_keeps_tokens(tokens, n1);
    lemma_parse_advances(tokens, n1, open);
    let (consequent, n2) = parse_expr_spec(tokens, n1)->Ok_0;
    lemma_parser_keeps_tokens(tokens, n2);
    lemma_parse_advances(tokens, n2, open);
    let (otherwise, n3) = parse_expr_spec(tokens, n2)->Ok_0;
    assert(next == n3 + 1);
    assert(seq![open] + tokens.subrange(pos, next) =~= seq![open, head] + tokens.subrange(
        pos + 1,
        n1,
    ) + tokens.subrange(n1, n2) + tokens.subrange(n2, n3) + seq![tokens[n3]]);
}

/// A list of arguments holds the tokens from `pos` up to the closing
/// bracket.
pub proof fn lemma_args_keep_tokens(tokens: Seq<TokenView>, pos: int)
    ensures
        parse_args_spec(tokens, pos) matches Ok((args, close)) ==> all_well_formed(args)
            && tokens_of_all(args) == tokens.subrange(pos, close),
    decreases tokens.len() - pos, 3nat,
{
    if 0 <= pos < tokens.len() {
        if tokens[pos].kind is RightBracket {
            assert(tokens.subrange(pos, pos) =~= Seq::<TokenView>::empty());
        } else {
            match parse_args_spec(tokens, pos) {
                Ok((args, close)) => {
                    let (first, n1) = parse_expr_spec(tokens, pos)->Ok_0;
                    let (rest, _) = parse_args_spec(tokens, n1)->Ok_0;
                    lemma_parser_keeps_tokens(tokens, pos);
                    lemma_args_keep_tokens(tokens, n1);
                    lemma_parse_advances(tokens, n1, tokens[pos]);
                    assert(args.drop_first() =~= rest);
                    assert(tokens.subrange(pos, close) =~= tokens.subrange(pos, n1)
                        + tokens.subrange(n1, close));
                },
                Err(_) => {},
            }
        }
    }
}

/// Each of the well-formed trees, taken by its place, is well formed.
pub proof fn lemma_all_well_formed(exprs: Seq<ExprView>, i: int)
    requires
        all_well_formed(exprs),
        0 <= i < exprs.len(),
    ensures
        well_formed(exprs[i]),
    decreases exprs.len(),
{
    if i > 0 {
        lemma_all_well_formed(exprs.drop_first(), i - 1);
    }
}

/// The two errors that tell of a malformed tree: a target or a callee that
/// is no symbol, and a string literal.
pub open spec fn is_malformed(error: EvalErrorView) -> bool {
    error == EvalErrorView::NotASymbol || error == EvalErrorView::StringLiteral
}

/// No built-in operation fails with an error that tells of a malformed
/// tree.
pub proof fn lemma_builtins_blame_no_tree(builtin: Builtin, args: Seq<Value>)
    ensures
        builtin_result(builtin, args) matches Err(error) ==> !is_malformed(error),
{
}

/// Evaluating a well-formed tree never fails with an error that tells of
/// a malformed tree: what the parser gives, the evaluator never refuses for
/// its shape.
pub proof fn lemma_well_formed_is_accepted(expr: ExprView, env: EnvironmentView)
    requires
        well_formed(expr),
    ensures
        eval_spec(expr, env).0 matches Err(error) ==> !is_malformed(error),
    decreases expr, 0nat,
{
    match expr {
        ExprView::If(_, _, cond, consequent, otherwise, _) => {
            lemma_well_formed_is_accepted(*cond, env);
            let after = eval_spec(*cond, env).1;
            lemma_well_formed_is_accepted(*consequent, after);
            lemma_well_formed_is_accepted(*otherwise, after);
        },
        ExprView::Define(_, _, _, value, _) => {
            lemma_well_formed_is_accepted(*value, env);
        },
        ExprView::Call(_, callee, args, _) => {
            let name = symbol_of(callee)->Ok_0;
            match callable_of(env, name) {
                Some(builtin) => {
                    lemma_well_formed_args_are_accepted(args, args.len(), env);
                    match eval_args_spec(args, args.len(), env).0 {
                        Ok(values) => {
                            lemma_builtins_blame_no_tree(builtin, values);
                        },
                        Err(_) => {},
                    }
                },
                None => {},
            }
        },
        _ => {},
    }
}

/// Evaluating well-formed arguments never fails with an error that tells
/// of a malformed tree.
pub proof fn lemma_well_formed_args_are_accepted(args: Seq<ExprView>, n: nat, env: EnvironmentView)
    requires
        all_well_formed(args),
        n <= args.len(),
    ensures
        eval_args_spec(args, n, env).0 matches Err(error) ==> !is_malformed(error),
    decreases args, n,
{
    if n > 0 {
        lemma_well_formed_args_are_accepted(args, (n - 1) as nat, env);
        lemma_all_well_formed(args, n - 1);
        lemma_well_formed_is_accepted(args[n - 1], eval_args_spec(args, (n - 1) as nat, env).1);
    }
}

/// A well-formed tree holds at least one token, and its first token is no
/// closing bracket.
pub proof fn lemma_first_token(expr: ExprView)
    requires
        well_formed(expr),
    ensures
        tokens_of(expr).len() > 0,
        !(tokens_of(expr)[0].kind is RightBracket),
{
}

/// The trees are read back from their tokens: where the tokens of a
/// well-formed tree stand at `pos`, the parser gives that tree there, and
/// stops after its tokens. With `lemma_parser_keeps_tokens` this makes the
/// parser give a tree if and only if the tokens of a well-formed tree stand
/// there, and that tree is the only one.
pub proof fn lemma_parser_finds_tree(tokens: Seq<TokenView>, pos: int, expr: ExprView)
    requires
        well_formed(expr),
        0 <= pos,
        pos + tokens_of(expr).len() <= tokens.len(),
        tokens.subrange(pos, pos + tokens_of(expr).len()) == tokens_of(expr),
    ensures
        parse_expr_spec(tokens, pos) == Ok::<(ExprView, int), ParseErrorView>(
            (expr, pos + tokens_of(expr).len()),
        ),
    decreases expr, 0nat,
{
    let own = tokens_of(expr);
    let end = pos + own.len();
    assert forall|i: int| 0 <= i < own.len() implies tokens[pos + i] == own[i] by {
        assert(tokens.subrange(pos, end)[i] == tokens[pos + i]);
    }
    match expr {
        ExprView::If(open, keyword, cond, consequent, otherwise, close) => {
            let c = tokens_of(*cond);
            let t = tokens_of(*consequent);
            let o = tokens_of(*otherwise);
            lemma_first_token(*cond);
            lemma_first_token(*consequent);
            lemma_first_token(*otherwise);
            let n0 = pos + 2;
            let n1 = n0 + c.len();
            let n2 = n1 + t.len();
            let n3 = n2 + o.len();
            assert(own =~= seq![open, keyword] + c + t + o + seq![close]);
            assert(tokens[pos] == own[0]);
            assert(tokens[pos + 1] == own[1]);
            assert(tokens[n3] == own[n3 - pos]);
            assert(tokens.subrange(n0, n1) =~= c) by {
                assert forall|i: int| 0 <= i < c.len() implies tokens[n0 + i] == c[i] by {
                    assert(own[2 + i] == c[i]);
                }
            }
            assert(tokens.subrange(n1, n2) =~= t) by {
                assert forall|i: int| 0 <= i < t.len() implies tokens[n1 + i] == t[i] by {
                    assert(own[2 + c.len() + i] == t[i]);
                }
            }
            assert(tokens.subrange(n2, n3) =~= o) by {
                assert forall|i: int| 0 <= i < o.len() implies tokens[n2 + i] == o[i] by {
                    assert(own[2 + c.len() + t.len() + i] == o[i]);
                }
            }
            lemma_parser_finds_tree(tokens, n0, *cond);
            lemma_parser_finds_tree(tokens, n1, *consequent);
            lemma_parser_finds_tree(tokens, n2, *otherwise);
        },
        ExprView::Define(open, keyword, target, value, close) => {
            let v = tokens_of(*value);
            lemma_first_token(*value);
            let n0 = pos + 3;
            let n1 = n0 + v.len();
            assert(own =~= seq![open, keyword, target] + v + seq![close]);
            assert(tokens[pos] == own[0]);
            assert(tokens[pos + 1] == own[1]);
            assert(tokens[pos + 2] == own[2]);
            assert(tokens[n1] == own[n1 - pos]);
            assert(tokens.subrange(n0, n1) =~= v) by {
                assert forall|i: int| 0 <= i < v.len() implies tokens[n0 + i] == v[i] by {
                    assert(own[3 + i] == v[i]);
                }
            }
            lemma_parser_finds_tree(tokens, n0, *value);
        },
        ExprView::Call(open, callee, args, close) => {
            let a = tokens_of_all(args);
            let n0 = pos + 2;
            let n1 = n0 + a.len();
            assert(own =~= seq![open, callee] + a + seq![close]);
            assert(tokens[pos] == own[0]);
            assert(tokens[pos + 1] == own[1]);
            assert(tokens[n1] == own[n1 - pos]);
            assert(tokens.subrange(n0, n1) =~= a) by {
                assert forall|i: int| 0 <= i < a.len() implies tokens[n0 + i] == a[i] by {
                    assert(own[2 + i] == a[i]);
                }
            }
            lemma_parser_finds_args(tokens, n0, args);
        },
        _ => {
            assert(tokens[pos] == own[0]);
        },
    }
}

/// The arguments are read back from their tokens: where the tokens of
/// well-formed trees stand at `pos` and a closing bracket follows them, the
/// parser gives those trees as the arguments, up to that bracket.
pub proof fn lemma_parser_finds_args(tokens: Seq<TokenView>, pos: int, args: Seq<ExprView>)
    requires
        all_well_formed(args),
        0 <= pos,
        pos + tokens_of_all(args).len() < tokens.len(),
        tokens.subrange(pos, pos + tokens_of_all(args).len()) == tokens_of_all(args),
        tokens[pos + tokens_of_all(args).len()].kind is RightBracket,
    ensures
        parse_args_spec(tokens, pos) == Ok::<(Seq<ExprView>, int), ParseErrorView>(
            (args, pos + tokens_of_all(args).len()),
        ),
    decreases args, 0nat,
{
    let own = tokens_of_all(args);
    if args.len() == 0 {
        assert(args =~= Seq::<ExprView>::empty());
    } else {
        let first = args[0];
        let rest = args.drop_first();
        let f = tokens_of(first);
        let r = tokens_of_all(rest);
        let n1 = pos + f.len();
        lemma_first_token(first);
        assert forall|i: int| 0 <= i < own.len() implies tokens[pos + i] == own[i] by {
            assert(tokens.subrange(pos, pos + own.len())[i] == tokens[pos + i]);
        }
        assert(tokens[pos] == own[0]);
        assert(tokens.subrange(pos, n1) =~= f) by {
            assert forall|i: int| 0 <= i < f.len() implies tokens[pos + i] == f[i] by {
                assert(own[i] == f[i]);
            }
        }
        assert(tokens.subrange(n1, n1 + r.len()) =~= r) by {
            assert forall|i: int| 0 <= i < r.len() implies tokens[n1 + i] == r[i] by {
                assert(own[f.len() + i] == r[i]);
            }
        }
        lemma_parser_finds_tree(tokens, pos, first);
        lemma_parser_finds_args(tokens, n1, rest);
        assert(seq![first] + rest =~= args);
    }
}

} // verus!
