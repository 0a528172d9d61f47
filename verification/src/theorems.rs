//! Facts about the lexer, the parser, the evaluator and the built-in
//! operations, each proved from their specifications.

use crate::ast::{ExprView, TokenKindView, TokenView};
use crate::builtins::{all_numeric, builtin_result, has_zero_divisor, is_comparison, numbers, truth};
use crate::env::{global_bindings, EnvironmentView};
use crate::eval::{builtin_name, eval_spec, ArgumentKind, Builtin, Cons, EvalErrorView, Value};
use crate::lex::{decimal_value, is_digit, lex_from, scan, span_of, step, tokenise_spec, LexError,
    TokeniseState};
use crate::parse::{parse_spec, ParseErrorView};
use vstd::prelude::*;

verus! {

/// In a run of digits the scanner, once it reads a number, goes on to the
/// end.
proof fn lemma_scan_digits(digits: Seq<char>, pos: int)
    requires
        0 <= pos <= digits.len(),
        forall|i: int| 0 <= i < digits.len() ==> is_digit(#[trigger] digits[i]),
    ensures
        scan(digits, pos, TokeniseState::Number) == (TokeniseState::Number, digits.len() as int),
    decreases digits.len() - pos,
{
    if pos < digits.len() {
        assert(is_digit(digits[pos]));
        lemma_scan_digits(digits, pos + 1);
    }
}

/// A numeral read, parsed and evaluated gives the number that it writes.
///
/// A source text that is a run of digits, and writes a number that a 64-bit
/// signed integer can hold, is lexed as one number token over the whole
/// text, parsed as the literal of that token, and evaluated, in any
/// environment, to that number; the environment stays as it was.
pub proof fn lemma_numeral_evaluates_to_its_number(digits: Seq<char>, env: EnvironmentView)
    requires
        digits.len() > 0,
        forall|i: int| 0 <= i < digits.len() ==> is_digit(#[trigger] digits[i]),
        decimal_value(digits) <= i64::MAX,
    ensures
        ({
            let n = decimal_value(digits) as i64;
            let token = TokenView {
                kind: TokenKindView::Number(n),
                span: span_of(digits, 0, digits.len() as int),
            };
            &&& tokenise_spec(digits) == Ok::<Seq<TokenView>, LexError>(seq![token])
            &&& parse_spec(digits) == Ok::<ExprView, ParseErrorView>(ExprView::Number(token, n))
            &&& eval_spec(ExprView::Number(token, n), env) == (
                Ok::<Value, EvalErrorView>(Value::Number(n)),
                env,
            )
        }),
{
    let n = decimal_value(digits) as i64;
    let token = TokenView {
        kind: TokenKindView::Number(n),
        span: span_of(digits, 0, digits.len() as int),
    };
    assert(is_digit(digits[0]));
    assert(step(TokeniseState::Start, digits[0]) == Some(TokeniseState::Number));
    lemma_scan_digits(digits, 1);
    assert(scan(digits, 0, TokeniseState::Start) == (
        TokeniseState::Number,
        digits.len() as int,
    ));
    assert(digits.subrange(0, digits.len() as int) =~= digits);
    assert(lex_from(digits, digits.len() as int) == Ok::<Seq<TokenView>, LexError>(Seq::empty()));
    assert(seq![token] + Seq::<TokenView>::empty() =~= seq![token]);
    assert(tokenise_spec(digits) == Ok::<Seq<TokenView>, LexError>(seq![token]));
}

/// A symbol that the environment does not bind fails with the error that
/// names it, and leaves the environment as it was.
pub proof fn lemma_unbound_symbol_is_undefined(
    token: TokenView,
    name: Seq<char>,
    env: EnvironmentView,
)
    requires
        !env.bindings.contains_key(name),
    ensures
        eval_spec(ExprView::Symbol(token, name), env) == (
            Err::<Value, EvalErrorView>(EvalErrorView::UndefinedSymbol(name)),
            env,
        ),
{
}

/// What a definition binds is seen by what is evaluated after it: where
/// the value of a definition comes to `v`, the definition comes to `v`, and
/// its symbol, evaluated in the environment that the definition left
/// behind, comes to `v` too.
pub proof fn lemma_definition_is_visible(
    open: TokenView,
    keyword: TokenView,
    target: TokenView,
    name: Seq<char>,
    value: ExprView,
    close: TokenView,
    reference: TokenView,
    env: EnvironmentView,
)
    requires
        target.kind == TokenKindView::Symbol(name),
        eval_spec(value, env).0 is Ok,
    ensures
        ({
            let v = eval_spec(value, env).0->Ok_0;
            let (defined, after) = eval_spec(
                ExprView::Define(open, keyword, target, Box::new(value), close),
                env,
            );
            &&& defined == Ok::<Value, EvalErrorView>(v)
            &&& after == eval_spec(value, env).1.bind(name, v)
            &&& eval_spec(ExprView::Symbol(reference, name), after) == (
                Ok::<Value, EvalErrorView>(v),
                after,
            )
        }),
{
}

/// The parts of a pair are what it was made of.
pub proof fn lemma_car_and_cdr_of_cons(a: Value, b: Value)
    ensures
        ({
            let pair = builtin_result(Builtin::Cons, seq![a, b]);
            &&& pair == Ok::<Value, EvalErrorView>(Value::Cons(Cons(Box::new(a), Box::new(b))))
            &&& builtin_result(Builtin::Car, seq![pair->Ok_0]) == Ok::<Value, EvalErrorView>(a)
            &&& builtin_result(Builtin::Cdr, seq![pair->Ok_0]) == Ok::<Value, EvalErrorView>(b)
        }),
{
}

/// `car` and `cdr` of anything but a pair fail.
pub proof fn lemma_car_and_cdr_ask_for_a_pair(args: Seq<Value>)
    requires
        args.len() == 0 || !(args[0] is Cons),
    ensures
        builtin_result(Builtin::Car, args) == Err::<Value, EvalErrorView>(
            EvalErrorView::WrongArgumentType(Builtin::Car, ArgumentKind::Cons),
        ),
        builtin_result(Builtin::Cdr, args) == Err::<Value, EvalErrorView>(
            EvalErrorView::WrongArgumentType(Builtin::Cdr, ArgumentKind::Cons),
        ),
{
}

/// A comparison of fewer than two arguments is false.
pub proof fn lemma_short_comparison_is_false(builtin: Builtin, args: Seq<Value>)
    requires
        is_comparison(builtin),
        args.len() < 2,
    ensures
        builtin_result(builtin, args) == Ok::<Value, EvalErrorView>(Value::Nil),
{
}

/// `not` of one argument is true where the argument is false; of any other
/// number of arguments it fails.
pub proof fn lemma_not_takes_one_argument(args: Seq<Value>)
    ensures
        args.len() == 1 ==> builtin_result(Builtin::Not, args) == Ok::<Value, EvalErrorView>(
            truth(!args[0].truthy()),
        ),
        args.len() != 1 ==> builtin_result(Builtin::Not, args) == Err::<Value, EvalErrorView>(
            EvalErrorView::Arity(Builtin::Not, args.len() as usize),
        ),
{
}

/// A division by zero fails: with one argument that is zero, and with a
/// zero among the arguments after the first.
pub proof fn lemma_division_by_zero_fails(args: Seq<Value>)
    requires
        all_numeric(args),
        (args.len() == 1 && numbers(args)[0] == 0) || (args.len() >= 2 && has_zero_divisor(
            numbers(args),
        )),
    ensures
        builtin_result(Builtin::Div, args) == Err::<Value, EvalErrorView>(
            EvalErrorView::DivisionByZero,
        ),
{
}

/// With no argument, the sum is zero and the product is one.
pub proof fn lemma_empty_sum_and_product()
    ensures
        builtin_result(Builtin::Add, Seq::empty()) == Ok::<Value, EvalErrorView>(Value::Number(0)),
        builtin_result(Builtin::Mul, Seq::empty()) == Ok::<Value, EvalErrorView>(Value::Number(1)),
{
    assert(numbers(Seq::<Value>::empty()) =~= Seq::<i64>::empty());
}

/// Every built-in operation is bound under its name when a session
/// starts, and so are the two names of truth.
pub proof fn lemma_builtins_are_bound(builtin: Builtin)
    ensures
        global_bindings().contains_key(builtin_name(builtin)),
        global_bindings()[builtin_name(builtin)] == Value::Callable(builtin),
        global_bindings().contains_key("T"@) && global_bindings()["T"@] == Value::Number(1),
        global_bindings().contains_key("t"@) && global_bindings()["t"@] == Value::Number(1),
{
    reveal_strlit("print");
    reveal_strlit("exit");
    reveal_strlit("begin");
    reveal_strlit("+");
    reveal_strlit("*");
    reveal_strlit("-");
    reveal_strlit("/");
    reveal_strlit("=");
    reveal_strlit("eq");
    reveal_strlit("!");
    reveal_strlit("not");
    reveal_strlit("<");
    reveal_strlit(">");
    reveal_strlit("<=");
    reveal_strlit(">=");
    reveal_strlit("cons");
    reveal_strlit("list");
    reveal_strlit("car");
    reveal_strlit("cdr");
    reveal_strlit("T");
    reveal_strlit("t");
    // Two of the names differ in their length or in one of their first two
    // characters.
    let name = builtin_name(builtin);
    assert(name.len() > 0 && name[0] != 'T' && name[0] != 't');
    assert(name.len() > 1 ==> name[1] != ' ');
}

} // verus!
