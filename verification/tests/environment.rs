use alone::builtins::call_builtin;
use alone::env::{last_or_nil, make_global_env, Environment, Values};
use alone::eval::{ArgumentKind, Builtin, EvalError, Value};

#[test]
fn global_environment_binds_the_builtins() {
    let env = make_global_env();
    let expected = [
        ("print", Value::Callable(Builtin::Print)),
        ("exit", Value::Callable(Builtin::Exit)),
        ("begin", Value::Callable(Builtin::Begin)),
        ("+", Value::Callable(Builtin::Add)),
        ("*", Value::Callable(Builtin::Mul)),
        ("-", Value::Callable(Builtin::Sub)),
        ("/", Value::Callable(Builtin::Div)),
        ("=", Value::Callable(Builtin::NumEq)),
        ("eq", Value::Callable(Builtin::NumEq)),
        ("!", Value::Callable(Builtin::Not)),
        ("not", Value::Callable(Builtin::Not)),
        ("<", Value::Callable(Builtin::Lt)),
        (">", Value::Callable(Builtin::Gt)),
        ("<=", Value::Callable(Builtin::Le)),
        (">=", Value::Callable(Builtin::Ge)),
        ("cons", Value::Callable(Builtin::Cons)),
        ("list", Value::Callable(Builtin::List)),
        ("car", Value::Callable(Builtin::Car)),
        ("cdr", Value::Callable(Builtin::Cdr)),
        ("T", Value::Number(1)),
        ("t", Value::Number(1)),
    ];
    assert_eq!(env.len(), expected.len());
    for (name, value) in expected.iter() {
        assert_eq!(env.get(name), Some(value), "{}", name);
    }
    assert_eq!(env.get("define"), None);
    assert!(!env.contains_key("if"));
}

#[test]
fn new_environment_is_empty() {
    let mut env = Environment::new();
    assert_eq!(env.len(), 0);
    assert_eq!(env.get("+"), None);
    assert_eq!(env.take_output().len(), 0);
}

#[test]
fn insert_overwrites() {
    let mut env = Environment::new();
    env.insert(String::from("x"), Value::Number(1));
    env.insert(String::from("y"), Value::Number(2));
    env.insert(String::from("x"), Value::Nil);
    assert_eq!(env.len(), 2);
    assert_eq!(env.get("x"), Some(&Value::Nil));
    assert_eq!(env.get("y"), Some(&Value::Number(2)));
    assert!(env.contains_key("x"));
    assert!(!env.contains_key("z"));
}

#[test]
fn call_prints_into_the_environment() {
    let mut env = Environment::new();
    assert_eq!(
        env.call(Builtin::Print, vec![Value::Number(1), Value::Nil]),
        Ok(Value::Nil)
    );
    assert_eq!(
        env.call(Builtin::Add, vec![Value::Number(1), Value::Number(2)]),
        Ok(Value::Number(3))
    );
    assert_eq!(env.take_output(), vec!["1", "Nil"]);
}

#[test]
fn last_value_or_nil() {
    assert_eq!(last_or_nil(vec![]), Value::Nil);
    assert_eq!(last_or_nil(vec![Value::Number(1)]), Value::Number(1));
    assert_eq!(last_or_nil(vec![Value::Number(1), Value::Number(2)]), Value::Number(2));
}

#[test]
fn neighbours_as_tuples() {
    assert_eq!(Values::from(vec![]).to_tuples(), None);
    assert_eq!(Values::from(vec![Value::Number(1)]).to_tuples(), None);
    assert_eq!(
        Values::from(vec![Value::Number(1), Value::Number(2)]).to_tuples(),
        Some(vec![(Value::Number(1), Value::Number(2))])
    );
    assert_eq!(
        Values::from(vec![Value::Number(1), Value::Nil, Value::Number(3)]).to_tuples(),
        Some(vec![(Value::Number(1), Value::Nil), (Value::Nil, Value::Number(3))])
    );
}

#[test]
fn builtin_called_directly() {
    let mut out: Vec<String> = vec![String::from("before")];
    assert_eq!(
        call_builtin(Builtin::Print, vec![Value::Number(5)], &mut out),
        Ok(Value::Number(5))
    );
    assert_eq!(out, vec!["before", "5"]);
    assert_eq!(
        call_builtin(Builtin::Lt, vec![Value::Number(1), Value::Number(2)], &mut out),
        Ok(Value::Number(1))
    );
    assert_eq!(
        call_builtin(Builtin::Cons, vec![Value::Number(9), Value::Number(8)], &mut out),
        Ok(Value::Cons(alone::eval::Cons::new(Value::Number(9), Value::Number(8))))
    );
    assert_eq!(
        call_builtin(Builtin::Gt, vec![Value::Callable(Builtin::Gt), Value::Number(2)], &mut out),
        Err(EvalError::WrongArgumentType(Builtin::Gt, ArgumentKind::Number))
    );
    assert_eq!(out.len(), 2);
}
