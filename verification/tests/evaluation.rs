use alone::ast::{Expr, Span, Token, TokenKind};
use alone::env::{make_global_env, Environment};
use alone::eval::{eval, eval_with_env, to_sym, ArgumentKind, Builtin, Cons, EvalError, Value};
use alone::parse::parse;

fn run(source: &str) -> Result<Value, EvalError> {
    eval(parse(source).unwrap()).0
}

fn run_in(source: &str, env: &mut Environment) -> Result<Value, EvalError> {
    eval_with_env(parse(source).unwrap(), env)
}

fn pair(a: Value, b: Value) -> Value {
    Value::Cons(Cons::new(a, b))
}

#[test]
fn nil_and_zero_are_false() {
    assert!(!Value::Nil.is_truthy());
    assert!(!Value::Number(0).is_truthy());
    assert!(Value::Number(7).is_truthy());
    assert!(Value::Number(-1).is_truthy());
    assert!(Value::Callable(Builtin::Add).is_truthy());
    assert!(pair(Value::Nil, Value::Nil).is_truthy());
}

#[test]
fn numbers_of_values() {
    assert_eq!(Value::Number(5).into_num(), 5);
    assert_eq!(Value::Nil.into_num(), 0);
    assert_eq!(Value::Number(5).as_num(), Some(5));
    assert_eq!(Value::Nil.as_num(), Some(0));
    assert_eq!(Value::Callable(Builtin::Car).as_num(), None);
    assert_eq!(pair(Value::Number(1), Value::Nil).as_num(), None);
}

#[test]
fn literal_evaluates_to_itself() {
    assert_eq!(run("0"), Ok(Value::Number(0)));
    assert_eq!(run("42"), Ok(Value::Number(42)));
    assert_eq!(run("9223372036854775807"), Ok(Value::Number(i64::MAX)));
}

#[test]
fn sum_and_product() {
    assert_eq!(run("(+ 1 2 3)"), Ok(Value::Number(6)));
    assert_eq!(run("(* 2 3 4)"), Ok(Value::Number(24)));
    assert_eq!(run("(+ )"), Ok(Value::Number(0)));
    assert_eq!(run("(* )"), Ok(Value::Number(1)));
    assert_eq!(run("(+ 5)"), Ok(Value::Number(5)));
}

#[test]
fn arithmetic_wraps_around() {
    assert_eq!(run("(+ 9223372036854775807 1)"), Ok(Value::Number(i64::MIN)));
    assert_eq!(run("(* 9223372036854775807 2)"), Ok(Value::Number(-2)));
    assert_eq!(run("(- (- 0 9223372036854775807) 2)"), Ok(Value::Number(i64::MAX)));
    assert_eq!(run("(- (- (- 0 9223372036854775807) 1))"), Ok(Value::Number(i64::MIN)));
    assert_eq!(
        run("(/ (- (- 0 9223372036854775807) 1) (- 1))"),
        Ok(Value::Number(i64::MIN))
    );
}

#[test]
fn difference_and_negation() {
    assert_eq!(run("(-)"), Ok(Value::Number(0)));
    assert_eq!(run("(- 5)"), Ok(Value::Number(-5)));
    assert_eq!(run("(- 10 1 2)"), Ok(Value::Number(7)));
}

#[test]
fn quotient_rounds_toward_zero() {
    assert_eq!(run("(/ 7 2)"), Ok(Value::Number(3)));
    assert_eq!(run("(/ (- 7) 2)"), Ok(Value::Number(-3)));
    assert_eq!(run("(/ 7 (- 2))"), Ok(Value::Number(-3)));
    assert_eq!(run("(/ (- 7) (- 2))"), Ok(Value::Number(3)));
    assert_eq!(run("(/ 100 5 2)"), Ok(Value::Number(10)));
    assert_eq!(run("(/ 1)"), Ok(Value::Number(1)));
    assert_eq!(run("(/ 2)"), Ok(Value::Number(0)));
    assert_eq!(run("(/ (- 1))"), Ok(Value::Number(-1)));
}

#[test]
fn division_by_zero_is_an_error() {
    assert_eq!(run("(/ 1 0)"), Err(EvalError::DivisionByZero));
    assert_eq!(run("(/ 0)"), Err(EvalError::DivisionByZero));
    assert_eq!(run("(/ 8 2 0 2)"), Err(EvalError::DivisionByZero));
    assert_eq!(run("(/ 0 1)"), Ok(Value::Number(0)));
}

#[test]
fn division_takes_an_argument() {
    assert_eq!(run("(/)"), Err(EvalError::Arity(Builtin::Div, 0)));
}

#[test]
fn arithmetic_asks_for_numbers() {
    assert_eq!(
        run("(+ 1 (cons 1 2))"),
        Err(EvalError::WrongArgumentType(Builtin::Add, ArgumentKind::Number))
    );
    assert_eq!(
        run("(* car 2)"),
        Err(EvalError::WrongArgumentType(Builtin::Mul, ArgumentKind::Number))
    );
    assert_eq!(
        run("(- (cons 1 2))"),
        Err(EvalError::WrongArgumentType(Builtin::Sub, ArgumentKind::Number))
    );
    assert_eq!(
        run("(/ 1 0 (cons 1 2))"),
        Err(EvalError::WrongArgumentType(Builtin::Div, ArgumentKind::Number))
    );
    assert_eq!(
        run("(= 1 car)"),
        Err(EvalError::WrongArgumentType(Builtin::NumEq, ArgumentKind::Number))
    );
    assert_eq!(
        run("(< 1 2 car)"),
        Err(EvalError::WrongArgumentType(Builtin::Lt, ArgumentKind::Number))
    );
    assert_eq!(
        run("(>= car 1)"),
        Err(EvalError::WrongArgumentType(Builtin::Ge, ArgumentKind::Number))
    );
}

#[test]
fn nil_counts_as_zero() {
    assert_eq!(run("(+ 1 (cons 1))"), Ok(Value::Number(1)));
    assert_eq!(run("(= 0 (cons))"), Ok(Value::Number(1)));
    assert_eq!(run("(< (cons) 1)"), Ok(Value::Number(1)));
}

#[test]
fn equality_of_numbers() {
    assert_eq!(run("(= 1 1 1)"), Ok(Value::Number(1)));
    assert_eq!(run("(= 1 1 2)"), Ok(Value::Nil));
    assert_eq!(run("(= 3)"), Ok(Value::Number(1)));
    assert_eq!(run("(eq 2 2)"), Ok(Value::Number(1)));
    assert_eq!(run("(eq 2 3)"), Ok(Value::Nil));
    assert_eq!(run("(=)"), Err(EvalError::Arity(Builtin::NumEq, 0)));
}

#[test]
fn comparisons_are_chained() {
    assert_eq!(run("(< 1 2 3)"), Ok(Value::Number(1)));
    assert_eq!(run("(< 1 3 2)"), Ok(Value::Nil));
    assert_eq!(run("(< 1)"), Ok(Value::Nil));
    assert_eq!(run("(<)"), Ok(Value::Nil));
    assert_eq!(run("(< car)"), Ok(Value::Nil));
    assert_eq!(run("(< 1 1)"), Ok(Value::Nil));
    assert_eq!(run("(<= 1 1 2)"), Ok(Value::Number(1)));
    assert_eq!(run("(<= 2 1)"), Ok(Value::Nil));
    assert_eq!(run("(> 3 2 1)"), Ok(Value::Number(1)));
    assert_eq!(run("(> 3 3)"), Ok(Value::Nil));
    assert_eq!(run("(>= 3 3 1)"), Ok(Value::Number(1)));
    assert_eq!(run("(>= 1 3)"), Ok(Value::Nil));
    assert_eq!(run("(> 1)"), Ok(Value::Nil));
    assert_eq!(run("(<= 1)"), Ok(Value::Nil));
    assert_eq!(run("(>= 1)"), Ok(Value::Nil));
}

#[test]
fn not_takes_one_argument() {
    assert_eq!(run("(not 1)"), Ok(Value::Nil));
    assert_eq!(run("(not (cons))"), Ok(Value::Number(1)));
    assert_eq!(run("(not 0)"), Ok(Value::Number(1)));
    assert_eq!(run("(! 5)"), Ok(Value::Nil));
    assert_eq!(run("(not 1 2)"), Err(EvalError::Arity(Builtin::Not, 2)));
    assert_eq!(run("(not)"), Err(EvalError::Arity(Builtin::Not, 0)));
}

#[test]
fn not_of_nil_is_true() {
    let mut out: Vec<String> = Vec::new();
    assert_eq!(
        alone::builtins::call_builtin(Builtin::Not, vec![Value::Nil], &mut out),
        Ok(Value::Number(1))
    );
    let mut env = make_global_env();
    env.insert(String::from("Nil"), Value::Nil);
    assert_eq!(run_in("(not Nil)", &mut env), Ok(Value::Number(1)));
    // No session starts with a binding of that name.
    assert_eq!(run("(not Nil)"), Err(EvalError::UndefinedSymbol(String::from("Nil"))));
}

#[test]
fn pairs_and_their_parts() {
    assert_eq!(run("(cons 1 2)"), Ok(pair(Value::Number(1), Value::Number(2))));
    assert_eq!(run("(car (cons 1 2))"), Ok(Value::Number(1)));
    assert_eq!(run("(cdr (cons 1 2))"), Ok(Value::Number(2)));
    assert_eq!(run("(cons 1)"), Ok(Value::Nil));
    assert_eq!(run("(cons)"), Ok(Value::Nil));
    assert_eq!(run("(cons 1 2 3)"), Ok(pair(Value::Number(1), Value::Number(2))));
    assert_eq!(
        run("(cons (cons 1 2) car)"),
        Ok(pair(pair(Value::Number(1), Value::Number(2)), Value::Callable(Builtin::Car)))
    );
}

#[test]
fn parts_ask_for_a_pair() {
    assert_eq!(
        run("(car 1)"),
        Err(EvalError::WrongArgumentType(Builtin::Car, ArgumentKind::Cons))
    );
    assert_eq!(
        run("(cdr 1)"),
        Err(EvalError::WrongArgumentType(Builtin::Cdr, ArgumentKind::Cons))
    );
    assert_eq!(
        run("(car)"),
        Err(EvalError::WrongArgumentType(Builtin::Car, ArgumentKind::Cons))
    );
    assert_eq!(
        run("(cdr (cons))"),
        Err(EvalError::WrongArgumentType(Builtin::Cdr, ArgumentKind::Cons))
    );
}

#[test]
fn lists_end_in_nil() {
    assert_eq!(run("(list 1)"), Ok(pair(Value::Number(1), Value::Nil)));
    assert_eq!(
        run("(list 1 2 3)"),
        Ok(pair(
            Value::Number(1),
            pair(Value::Number(2), pair(Value::Number(3), Value::Nil))
        ))
    );
    assert_eq!(run("(car (cdr (list 1 2 3)))"), Ok(Value::Number(2)));
    assert_eq!(run("(list)"), Err(EvalError::Arity(Builtin::List, 0)));
}

#[test]
fn begin_gives_its_last_argument() {
    assert_eq!(run("(begin 1 2 3)"), Ok(Value::Number(3)));
    assert_eq!(run("(begin)"), Ok(Value::Nil));
    assert_eq!(run("(begin (define x 2) (* x x))"), Ok(Value::Number(4)));
}

#[test]
fn print_hands_the_lines_over() {
    let (result, lines) = eval(parse("(print 1 (cons 2 3) car (cons) (- 4))").unwrap());
    assert_eq!(result, Ok(Value::Number(-4)));
    assert_eq!(lines, vec!["1", "(2, 3)", "<callable>", "Nil", "-4"]);
    let (result, lines) = eval(parse("(print)").unwrap());
    assert_eq!(result, Ok(Value::Nil));
    assert_eq!(lines.len(), 0);
}

#[test]
fn printed_lines_wait_in_the_environment() {
    let mut env = make_global_env();
    assert_eq!(run_in("(begin (print 1) (print 2 3))", &mut env), Ok(Value::Number(3)));
    assert_eq!(
        run_in("(begin (print 4) (car 5))", &mut env),
        Err(EvalError::WrongArgumentType(Builtin::Car, ArgumentKind::Cons))
    );
    assert_eq!(env.take_output(), vec!["1", "2", "3", "4"]);
    assert_eq!(env.take_output().len(), 0);
}

#[test]
fn exit_stops_the_evaluation() {
    assert_eq!(run("(exit)"), Err(EvalError::Exit(0)));
    assert_eq!(run("(exit 3)"), Err(EvalError::Exit(3)));
    assert_eq!(run("(exit 1 2)"), Err(EvalError::Exit(2)));
    assert_eq!(
        run("(exit car)"),
        Err(EvalError::WrongArgumentType(Builtin::Exit, ArgumentKind::Number))
    );
    let (result, lines) = eval(parse("(begin (print 1) (exit 7) (print 2))").unwrap());
    assert_eq!(result, Err(EvalError::Exit(7)));
    assert_eq!(lines, vec!["1"]);
}

#[test]
fn truth_has_two_names() {
    assert_eq!(run("t"), Ok(Value::Number(1)));
    assert_eq!(run("T"), Ok(Value::Number(1)));
}

#[test]
fn conditional_takes_one_branch() {
    assert_eq!(run("(if 1 1 2)"), Ok(Value::Number(1)));
    assert_eq!(run("(if 0 1 2)"), Ok(Value::Number(2)));
    assert_eq!(run("(if (cons) 1 2)"), Ok(Value::Number(2)));
    assert_eq!(run("(if (cons 1 2) 1 2)"), Ok(Value::Number(1)));
    assert_eq!(run("(if car 1 2)"), Ok(Value::Number(1)));
    // The branch not taken is not evaluated.
    assert_eq!(run("(if 1 5 (/ 1 0))"), Ok(Value::Number(5)));
    assert_eq!(run("(if 0 (car 1) 6)"), Ok(Value::Number(6)));
    let mut env = make_global_env();
    assert_eq!(run_in("(if 0 (define x 1) (define y 2))", &mut env), Ok(Value::Number(2)));
    assert_eq!(env.get("x"), None);
    assert_eq!(env.get("y"), Some(&Value::Number(2)));
    assert_eq!(run("(if (/ 1 0) 1 2)"), Err(EvalError::DivisionByZero));
}

#[test]
fn definition_is_seen_afterwards() {
    let mut env = make_global_env();
    assert_eq!(run_in("(define x 5)", &mut env), Ok(Value::Number(5)));
    assert_eq!(run_in("(+ x 1)", &mut env), Ok(Value::Number(6)));
    assert_eq!(run_in("(setq x (+ x 1))", &mut env), Ok(Value::Number(6)));
    assert_eq!(run_in("x", &mut env), Ok(Value::Number(6)));
}

#[test]
fn arguments_are_evaluated_from_left_to_right() {
    let mut env = make_global_env();
    assert_eq!(run_in("(+ (define x 5) x (define x 7) x)", &mut env), Ok(Value::Number(24)));
    let mut env = make_global_env();
    assert_eq!(
        run_in("(+ (define a 1) (car 2) (define b 3))", &mut env),
        Err(EvalError::WrongArgumentType(Builtin::Car, ArgumentKind::Cons))
    );
    assert_eq!(env.get("a"), Some(&Value::Number(1)));
    assert_eq!(env.get("b"), None);
}

#[test]
fn callee_is_looked_up_before_the_arguments() {
    let mut env = make_global_env();
    assert_eq!(run_in("(+ (define + 5) 1)", &mut env), Ok(Value::Number(6)));
    assert_eq!(
        run_in("(+ 1 2)", &mut env),
        Err(EvalError::InvalidFunction(String::from("+")))
    );
    let mut env = make_global_env();
    assert_eq!(
        run_in("(f (define z 1))", &mut env),
        Err(EvalError::InvalidFunction(String::from("f")))
    );
    assert_eq!(env.get("z"), None);
}

#[test]
fn unbound_symbol_is_undefined() {
    assert_eq!(run("nowhere"), Err(EvalError::UndefinedSymbol(String::from("nowhere"))));
    assert_eq!(run("(+ 1 y)"), Err(EvalError::UndefinedSymbol(String::from("y"))));
}

#[test]
fn callee_has_to_be_callable() {
    assert_eq!(run("(foo 1)"), Err(EvalError::InvalidFunction(String::from("foo"))));
    assert_eq!(run("(t 1)"), Err(EvalError::InvalidFunction(String::from("t"))));
}

fn token(kind: TokenKind) -> Token {
    Token::with_span(kind, Span::new(1, 2))
}

#[test]
fn target_and_callee_have_to_be_symbols() {
    let define = Expr::Define(
        token(TokenKind::LeftBracket),
        token(TokenKind::Symbol(String::from("define"))),
        token(TokenKind::Number(3)),
        Box::new(Expr::Number(token(TokenKind::Number(4)), 4)),
        token(TokenKind::RightBracket),
    );
    assert_eq!(eval(define).0, Err(EvalError::NotASymbol));
    let call = Expr::Call(
        token(TokenKind::LeftBracket),
        token(TokenKind::LeftBracket),
        vec![],
        token(TokenKind::RightBracket),
    );
    assert_eq!(eval(call).0, Err(EvalError::NotASymbol));
    // The value of a definition is evaluated before its target is looked at.
    let define = Expr::Define(
        token(TokenKind::LeftBracket),
        token(TokenKind::Symbol(String::from("define"))),
        token(TokenKind::Number(3)),
        Box::new(Expr::Symbol(token(TokenKind::Symbol(String::from("u"))), String::from("u"))),
        token(TokenKind::RightBracket),
    );
    assert_eq!(eval(define).0, Err(EvalError::UndefinedSymbol(String::from("u"))));
}

#[test]
fn symbol_of_a_token() {
    assert_eq!(to_sym(&token(TokenKind::Symbol(String::from("abc")))), Ok(String::from("abc")));
    assert_eq!(to_sym(&token(TokenKind::Number(1))), Err(EvalError::NotASymbol));
    assert_eq!(to_sym(&token(TokenKind::Str(String::from("abc")))), Err(EvalError::NotASymbol));
    assert_eq!(to_sym(&token(TokenKind::LeftBracket)), Err(EvalError::NotASymbol));
}

#[test]
fn string_literal_has_no_value() {
    assert_eq!(eval(Expr::Str(String::from("text"))).0, Err(EvalError::StringLiteral));
}

#[test]
fn values_are_shown_as_text() {
    assert_eq!(Value::Number(0).to_string(), "0");
    assert_eq!(Value::Number(1234567890).to_string(), "1234567890");
    assert_eq!(Value::Number(-17).to_string(), "-17");
    assert_eq!(Value::Number(i64::MAX).to_string(), "9223372036854775807");
    assert_eq!(Value::Number(i64::MIN).to_string(), "-9223372036854775808");
    assert_eq!(Value::Nil.to_string(), "Nil");
    assert_eq!(Value::Callable(Builtin::Print).to_string(), "<callable>");
    assert_eq!(pair(Value::Number(1), Value::Number(2)).to_string(), "(1, 2)");
    assert_eq!(
        pair(Value::Number(1), pair(Value::Nil, Value::Callable(Builtin::Add))).to_string(),
        "(1, (Nil, <callable>))"
    );
}

#[test]
fn copies_are_equal() {
    let value = pair(pair(Value::Number(1), Value::Nil), Value::Callable(Builtin::List));
    assert_eq!(value.clone(), value);
    assert_eq!(value.duplicate(), value);
    let cons = Cons::new(Value::Number(1), Value::Number(2));
    assert_eq!(cons.clone().car(), Value::Number(1));
    assert_eq!(cons.duplicate().cdr(), Value::Number(2));
}

#[test]
fn errors_are_told_in_words() {
    assert_eq!(
        EvalError::UndefinedSymbol(String::from("x")).to_string(),
        "error: eval: Undefined symbol x"
    );
    assert_eq!(
        EvalError::InvalidFunction(String::from("foo")).to_string(),
        "error: eval: Invalid function foo"
    );
    assert_eq!(EvalError::NotASymbol.to_string(), "error: Token is not symbol");
    assert_eq!(
        EvalError::WrongArgumentType(Builtin::Car, ArgumentKind::Cons).to_string(),
        "error: Wrong argument type: car require cons"
    );
    assert_eq!(
        EvalError::WrongArgumentType(Builtin::Le, ArgumentKind::Number).to_string(),
        "error: Wrong argument type: <= require number"
    );
    assert_eq!(
        EvalError::Arity(Builtin::Div, 0).to_string(),
        "error: Wrong number of arguments: /, 0"
    );
    assert_eq!(
        EvalError::Arity(Builtin::Not, 12).to_string(),
        "error: Wrong number of arguments: !, 12"
    );
    assert_eq!(EvalError::DivisionByZero.to_string(), "error: Division by zero");
    assert_eq!(
        EvalError::StringLiteral.to_string(),
        "error: eval: String literal has no value"
    );
    assert_eq!(EvalError::Exit(-3).to_string(), "error: exit -3");
}

#[test]
fn builtins_have_names() {
    let env = make_global_env();
    let all = [
        Builtin::Print,
        Builtin::Exit,
        Builtin::Begin,
        Builtin::Add,
        Builtin::Mul,
        Builtin::Sub,
        Builtin::Div,
        Builtin::NumEq,
        Builtin::Not,
        Builtin::Lt,
        Builtin::Gt,
        Builtin::Le,
        Builtin::Ge,
        Builtin::Cons,
        Builtin::List,
        Builtin::Car,
        Builtin::Cdr,
    ];
    for builtin in all.iter() {
        assert_eq!(env.get(builtin.name()), Some(&Value::Callable(*builtin)));
    }
    assert_eq!(Builtin::NumEq.name(), "=");
    assert_eq!(Builtin::Not.name(), "!");
}

#[test]
fn text_is_compared_by_characters() {
    assert!(alone::text::same_text("define", "define"));
    assert!(!alone::text::same_text("define", "defin"));
    assert!(!alone::text::same_text("if", "iF"));
    assert!(alone::text::same_text("", ""));
    assert!(alone::text::same_text("\u{e9}", "\u{e9}"));
    assert!(!alone::text::same_text("\u{e9}", "\u{e8}"));
}

#[test]
fn numerals_are_pushed() {
    let mut out = String::from("n=");
    alone::text::push_decimal(&mut out, -120);
    out.push(' ');
    alone::text::push_digits(&mut out, 0);
    out.push(' ');
    alone::text::push_digits(&mut out, u64::MAX);
    assert_eq!(out, "n=-120 0 18446744073709551615");
}
