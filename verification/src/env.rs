//! The environment of bindings, and helpers of the built-in operations.

use crate::builtins::{builtin_lines, builtin_result, call_builtin, last_or_nil_spec};
use crate::eval::{outcome, Builtin, EvalResult, Value};
use crate::text::{owned, texts};
use vstd::hash_map::StringHashMap;
use vstd::prelude::*;

verus! {

/// The one table of bindings that a session evaluates against, together
/// with the lines that the session has printed and nobody has taken yet.
pub struct Environment {
    bindings: StringHashMap<Value>,
    output: Vec<String>,
}

/// What an `Environment` holds.
pub struct EnvironmentView {
    /// The value that each bound name stands for.
    pub bindings: Map<Seq<char>, Value>,
    /// The printed lines, oldest first.
    pub output: Seq<Seq<char>>,
}

impl EnvironmentView {
    /// The same environment with `name` bound to `value`, in place of what
    /// it was bound to before.
    pub open spec fn bind(self, name: Seq<char>, value: Value) -> EnvironmentView {
        EnvironmentView { bindings: self.bindings.insert(name, value), output: self.output }
    }

    /// The same environment with the lines printed after those it had.
    pub open spec fn print(self, lines: Seq<Seq<char>>) -> EnvironmentView {
        EnvironmentView { bindings: self.bindings, output: self.output + lines }
    }
}

impl View for Environment {
    type V = EnvironmentView;

    closed spec fn view(&self) -> EnvironmentView {
        EnvironmentView { bindings: self.bindings@, output: texts(self.output@) }
    }
}

impl Environment {
    /// An environment that binds nothing and has printed nothing.
    pub fn new() -> (env: Environment)
        ensures
            env@.bindings == Map::<Seq<char>, Value>::empty(),
            env@.output == Seq::<Seq<char>>::empty(),
    {
        let env = Environment { bindings: StringHashMap::new(), output: Vec::new() };
        assert(texts(env.output@) =~= Seq::<Seq<char>>::empty());
        env
    }

    /// The value that `name` is bound to, if it is bound.
    pub fn get(&self, name: &str) -> (value: Option<&Value>)
        ensures
            value is Some <==> self@.bindings.contains_key(name@),
            value matches Some(value) ==> *value == self@.bindings[name@],
    {
        self.bindings.get(name)
    }

    /// Binds `name` to `value`, in place of what it was bound to before.
    pub fn insert(&mut self, name: String, value: Value)
        ensures
            final(self)@ == old(self)@.bind(name@, value),
    {
        self.bindings.insert(name, value);
    }

    /// Whether `name` is bound.
    pub fn contains_key(&self, name: &str) -> (bound: bool)
        ensures
            bound == self@.bindings.contains_key(name@),
    {
        self.bindings.contains_key(name)
    }

    /// How many names are bound.
    pub fn len(&self) -> (n: usize)
        ensures
            n == self@.bindings.len(),
    {
        self.bindings.len()
    }

    /// Hands out the lines printed so far, oldest first, and forgets them.
    pub fn take_output(&mut self) -> (lines: Vec<String>)
        ensures
            texts(lines@) == old(self)@.output,
            final(self)@.bindings == old(self)@.bindings,
            final(self)@.output == Seq::<Seq<char>>::empty(),
    {
        let mut lines: Vec<String> = Vec::new();
        std::mem::swap(&mut lines, &mut self.output);
        assert(texts(self.output@) =~= Seq::<Seq<char>>::empty());
        lines
    }

    /// Calls a built-in operation on its arguments. The lines that it prints
    /// join those of the environment.
    pub fn call(&mut self, builtin: Builtin, values: Vec<Value>) -> (result: EvalResult)
        ensures
            outcome(result) == builtin_result(builtin, values@),
            final(self)@ == old(self)@.print(builtin_lines(builtin, values@)),
    {
        call_builtin(builtin, values, &mut self.output)
    }
}

/// The bindings that every session starts with: each built-in operation
/// under its name, `=` and `not` under a second name too (`eq`, `!`), and
/// the two names of truth, `T` and `t`, bound to one.
pub open spec fn global_bindings() -> Map<Seq<char>, Value> {
    Map::<Seq<char>, Value>::empty().insert("print"@, Value::Callable(Builtin::Print)).insert(
        "exit"@,
        Value::Callable(Builtin::Exit),
    ).insert("begin"@, Value::Callable(Builtin::Begin)).insert(
        "+"@,
        Value::Callable(Builtin::Add),
    ).insert("*"@, Value::Callable(Builtin::Mul)).insert(
        "-"@,
        Value::Callable(Builtin::Sub),
    ).insert("/"@, Value::Callable(Builtin::Div)).insert(
        "="@,
        Value::Callable(Builtin::NumEq),
    ).insert("eq"@, Value::Callable(Builtin::NumEq)).insert(
        "!"@,
        Value::Callable(Builtin::Not),
    ).insert("not"@, Value::Callable(Builtin::Not)).insert(
        "<"@,
        Value::Callable(Builtin::Lt),
    ).insert(">"@, Value::Callable(Builtin::Gt)).insert(
        "<="@,
        Value::Callable(Builtin::Le),
    ).insert(">="@, Value::Callable(Builtin::Ge)).insert(
        "cons"@,
        Value::Callable(Builtin::Cons),
    ).insert("list"@, Value::Callable(Builtin::List)).insert(
        "car"@,
        Value::Callable(Builtin::Car),
    ).insert("cdr"@, Value::Callable(Builtin::Cdr)).insert("T"@, Value::Number(1)).insert(
        "t"@,
        Value::Number(1),
    )
}

/// The environment that every session starts with.
pub fn make_global_env() -> (env: Environment)
    ensures
        env@.bindings == global_bindings(),
        env@.output == Seq::<Seq<char>>::empty(),
{
    let mut env = Environment::new();
    env.insert(owned("print"), Value::Callable(Builtin::Print));
    env.insert(owned("exit"), Value::Callable(Builtin::Exit));
    env.insert(owned("begin"), Value::Callable(Builtin::Begin));
    env.insert(owned("+"), Value::Callable(Builtin::Add));
    env.insert(owned("*"), Value::Callable(Builtin::Mul));
    env.insert(owned("-"), Value::Callable(Builtin::Sub));
    env.insert(owned("/"), Value::Callable(Builtin::Div));
    env.insert(owned("="), Value::Callable(Builtin::NumEq));
    env.insert(owned("eq"), Value::Callable(Builtin::NumEq));
    env.insert(owned("!"), Value::Callable(Builtin::Not));
    env.insert(owned("not"), Value::Callable(Builtin::Not));
    env.insert(owned("<"), Value::Callable(Builtin::Lt));
    env.insert(owned(">"), Value::Callable(Builtin::Gt));
    env.insert(owned("<="), Value::Callable(Builtin::Le));
    env.insert(owned(">="), Value::Callable(Builtin::Ge));
    env.insert(owned("cons"), Value::Callable(Builtin::Cons));
    env.insert(owned("list"), Value::Callable(Builtin::List));
    env.insert(owned("car"), Value::Callable(Builtin::Car));
    env.insert(owned("cdr"), Value::Callable(Builtin::Cdr));
    env.insert(owned("T"), Value::Number(1));
    env.insert(owned("t"), Value::Number(1));
    env
}

/// The last of the values, `Nil` for none.
pub fn last_or_nil(values: Vec<Value>) -> (last: Value)
    ensures
        last == last_or_nil_spec(values@),
{
    let mut values = values;
    match values.pop() {
        Some(value) => value,
        None => Value::Nil,
    }
}

/// A list of argument values.
pub struct Values(pub Vec<Value>);

impl Values {
    /// The list that holds the values.
    pub fn from(v: Vec<Value>) -> (values: Values)
        ensures
            values.0 == v,
    {
        Values(v)
    }

    /// Each value paired with the one after it, in order; `None` where there
    /// are fewer than two values.
    pub fn to_tuples(&self) -> (pairs: Option<Vec<(Value, Value)>>)
        ensures
            self.0@.len() < 2 <==> pairs is None,
            pairs matches Some(pairs) ==> {
                &&& pairs@.len() == self.0@.len() - 1
                &&& forall|i: int|
                    0 <= i < pairs@.len() ==> #[trigger] pairs@[i] == (self.0@[i], self.0@[i + 1])
            },
    {
        if self.0.len() < 2 {
            None
        } else {
            let mut ret: Vec<(Value, Value)> = Vec::new();
            let last: usize = self.0.len() - 1;
            let mut i: usize = 0;
            while i < last
                invariant
                    last == self.0@.len() - 1,
                    i <= last,
                    ret@.len() == i,
                    forall|k: int|
                        0 <= k < ret@.len() ==> #[trigger] ret@[k] == (self.0@[k], self.0@[k + 1]),
                decreases self.0@.len() - i,
            {
                ret.push((self.0[i].clone(), self.0[i + 1].clone()));
                i += 1;
            }
            Some(ret)
        }
    }
}

} // verus!
