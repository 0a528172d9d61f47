//! Run-time values, evaluation errors and the evaluator.

use crate::ast::{models, Expr, ExprView, Token, TokenKind, TokenKindView, TokenView};
use crate::builtins::{builtin_lines, builtin_result};
use crate::env::{make_global_env, Environment, EnvironmentView};
use crate::text::{decimal, owned, push_decimal, push_digits, texts};
use vstd::prelude::*;
use vstd::string::StringExecFns;

verus! {

/// The operations that the initial environment binds. A callable value is one
/// of these: programs cannot make callables of their own.
#[derive(Debug, PartialEq, Eq, Clone, Copy, Structural)]
pub enum Builtin {
    Print,
    Exit,
    Begin,
    Add,
    Mul,
    Sub,
    Div,
    NumEq,
    Not,
    Lt,
    Gt,
    Le,
    Ge,
    Cons,
    List,
    Car,
    Cdr,
}

/// A pair of two values, each owned by the pair.
#[derive(Debug, PartialEq)]
pub struct Cons(pub Box<Value>, pub Box<Value>);

/// What an expression evaluates to.
#[derive(Debug, PartialEq)]
pub enum Value {
    Number(i64),
    Callable(Builtin),
    Cons(Cons),
    Nil,
}

impl Value {
    /// Every value counts as true except `Nil` and the number zero.
    pub open spec fn truthy(self) -> bool {
        match self {
            Value::Nil => false,
            Value::Number(n) => n != 0,
            _ => true,
        }
    }

    /// The number that a value stands for in arithmetic: itself for a
    /// number, zero for `Nil`, none for a callable or a pair.
    pub open spec fn numeric(self) -> Option<i64> {
        match self {
            Value::Number(n) => Some(n),
            Value::Nil => Some(0),
            _ => None,
        }
    }

    /// Whether the value counts as true.
    pub fn is_truthy(&self) -> (truthy: bool)
        ensures
            truthy == self.truthy(),
    {
        match self {
            Value::Nil => false,
            Value::Number(n) => *n != 0,
            _ => true,
        }
    }

    /// The number that the value stands for. The value has to stand for
    /// one: it is a number or `Nil`.
    pub fn into_num(self) -> (n: i64)
        requires
            self.numeric() is Some,
        ensures
            Some(n) == self.numeric(),
    {
        match self {
            Value::Number(n) => n,
            _ => 0,
        }
    }

    /// The number that the value stands for, if it stands for one.
    pub fn as_num(&self) -> (n: Option<i64>)
        ensures
            n == self.numeric(),
    {
        match self {
            Value::Number(n) => Some(*n),
            Value::Nil => Some(0),
            _ => None,
        }
    }

    /// A copy of the value, pairs copied all the way down.
    pub fn duplicate(&self) -> (copy: Value)
        ensures
            copy == *self,
        decreases self,
    {
        match self {
            Value::Number(n) => Value::Number(*n),
            Value::Callable(b) => Value::Callable(*b),
            Value::Cons(pair) => Value::Cons(pair.duplicate()),
            Value::Nil => Value::Nil,
        }
    }
}

impl Cons {
    /// The pair of the two values.
    pub fn new(car: Value, cdr: Value) -> (pair: Cons)
        ensures
            *pair.0 == car,
            *pair.1 == cdr,
    {
        Cons(Box::new(car), Box::new(cdr))
    }

    /// The first part of the pair.
    pub fn car(self) -> (car: Value)
        ensures
            car == *self.0,
    {
        *self.0
    }

    /// The second part of the pair.
    pub fn cdr(self) -> (cdr: Value)
        ensures
            cdr == *self.1,
    {
        *self.1
    }

    /// A copy of the pair, copied all the way down.
    pub fn duplicate(&self) -> (copy: Cons)
        ensures
            copy == *self,
        decreases self,
    {
        Cons(Box::new(self.0.duplicate()), Box::new(self.1.duplicate()))
    }
}

/// The text that a value is shown as: a number as its decimal numeral, `Nil`
/// as the word `Nil`, a pair as its two parts in brackets with a comma
/// between them, a callable as a fixed word that tells nothing of it.
pub open spec fn render(value: Value) -> Seq<char>
    decreases value,
{
    match value {
        Value::Number(n) => decimal(n as int),
        Value::Callable(_) => "<callable>"@,
        Value::Cons(pair) => "("@ + render(*pair.0) + ", "@ + render(*pair.1) + ")"@,
        Value::Nil => "Nil"@,
    }
}

impl Value {
    /// Appends the text of the value to `out`.
    pub fn write_to(&self, out: &mut String)
        ensures
            final(out)@ == old(out)@ + render(*self),
        decreases self,
    {
        match self {
            Value::Number(n) => {
                push_decimal(out, *n);
            },
            Value::Callable(_) => {
                out.append("<callable>");
            },
            Value::Cons(pair) => {
                out.append("(");
                pair.0.write_to(out);
                out.append(", ");
                pair.1.write_to(out);
                out.append(")");
                assert(final(out)@ =~= old(out)@ + render(*self));
            },
            Value::Nil => {
                out.append("Nil");
            },
        }
    }

    /// The text of the value.
    pub fn to_string(&self) -> (text: String)
        ensures
            text@ == render(*self),
    {
        let mut text = String::new();
        self.write_to(&mut text);
        assert(text@ =~= render(*self));
        text
    }
}

/// What kind of argument a built-in operation asks for.
#[derive(Debug, PartialEq, Eq, Clone, Copy, Structural)]
pub enum ArgumentKind {
    Number,
    Cons,
}

/// Why an evaluation did not yield a value.
#[derive(Debug, PartialEq)]
pub enum EvalError {
    /// The symbol has no binding.
    UndefinedSymbol(String),
    /// The target of a definition, or the callee of a call, is no symbol.
    NotASymbol,
    /// The callee is unbound, or bound to a value that cannot be called.
    InvalidFunction(String),
    /// The operation got an argument that is not of the kind it asks for.
    WrongArgumentType(Builtin, ArgumentKind),
    /// The operation cannot take the number of arguments that it got.
    Arity(Builtin, usize),
    DivisionByZero,
    /// A string literal was evaluated. The language has no string values.
    StringLiteral,
    /// No failure: the program called `exit` with this status. Evaluation
    /// stops at once, and the caller is to end the process.
    Exit(i64),
}

/// What an `EvalError` holds, with names as sequences of characters.
pub enum EvalErrorView {
    UndefinedSymbol(Seq<char>),
    NotASymbol,
    InvalidFunction(Seq<char>),
    WrongArgumentType(Builtin, ArgumentKind),
    Arity(Builtin, usize),
    DivisionByZero,
    StringLiteral,
    Exit(i64),
}

impl View for EvalError {
    type V = EvalErrorView;

    open spec fn view(&self) -> EvalErrorView {
        match *self {
            EvalError::UndefinedSymbol(name) => EvalErrorView::UndefinedSymbol(name@),
            EvalError::NotASymbol => EvalErrorView::NotASymbol,
            EvalError::InvalidFunction(name) => EvalErrorView::InvalidFunction(name@),
            EvalError::WrongArgumentType(builtin, kind) => EvalErrorView::WrongArgumentType(
                builtin,
                kind,
            ),
            EvalError::Arity(builtin, given) => EvalErrorView::Arity(builtin, given),
            EvalError::DivisionByZero => EvalErrorView::DivisionByZero,
            EvalError::StringLiteral => EvalErrorView::StringLiteral,
            EvalError::Exit(status) => EvalErrorView::Exit(status),
        }
    }
}

/// The name that the initial environment binds the operation to: the
/// first, where it has two.
pub open spec fn builtin_name(builtin: Builtin) -> Seq<char> {
    match builtin {
        Builtin::Print => "print"@,
        Builtin::Exit => "exit"@,
        Builtin::Begin => "begin"@,
        Builtin::Add => "+"@,
        Builtin::Mul => "*"@,
        Builtin::Sub => "-"@,
        Builtin::Div => "/"@,
        Builtin::NumEq => "="@,
        Builtin::Not => "!"@,
        Builtin::Lt => "<"@,
        Builtin::Gt => ">"@,
        Builtin::Le => "<="@,
        Builtin::Ge => ">="@,
        Builtin::Cons => "cons"@,
        Builtin::List => "list"@,
        Builtin::Car => "car"@,
        Builtin::Cdr => "cdr"@,
    }
}

impl Builtin {
    /// The name that the initial environment binds the operation to.
    pub fn name(self) -> (name: &'static str)
        ensures
            name@ == builtin_name(self),
    {
        match self {
            Builtin::Print => "print",
            Builtin::Exit => "exit",
            Builtin::Begin => "begin",
            Builtin::Add => "+",
            Builtin::Mul => "*",
            Builtin::Sub => "-",
            Builtin::Div => "/",
            Builtin::NumEq => "=",
            Builtin::Not => "!",
            Builtin::Lt => "<",
            Builtin::Gt => ">",
            Builtin::Le => "<=",
            Builtin::Ge => ">=",
            Builtin::Cons => "cons",
            Builtin::List => "list",
            Builtin::Car => "car",
            Builtin::Cdr => "cdr",
        }
    }
}

/// The message that tells of an error.
pub open spec fn message(error: EvalErrorView) -> Seq<char> {
    "error: "@ + match error {
        EvalErrorView::UndefinedSymbol(name) => "eval: Undefined symbol "@ + name,
        EvalErrorView::NotASymbol => "Token is not symbol"@,
        EvalErrorView::InvalidFunction(name) => "eval: Invalid function "@ + name,
        EvalErrorView::WrongArgumentType(builtin, kind) => "Wrong argument type: "@ + builtin_name(
            builtin,
        ) + " require "@ + match kind {
            ArgumentKind::Number => "number"@,
            ArgumentKind::Cons => "cons"@,
        },
        EvalErrorView::Arity(builtin, given) => "Wrong number of arguments: "@ + builtin_name(
            builtin,
        ) + ", "@ + decimal(given as int),
        EvalErrorView::DivisionByZero => "Division by zero"@,
        EvalErrorView::StringLiteral => "eval: String literal has no value"@,
        EvalErrorView::Exit(status) => "exit "@ + decimal(status as int),
    }
}

impl EvalError {
    /// The message that tells of the error.
    pub fn to_string(&self) -> (text: String)
        ensures
            text@ == message(self@),
    {
        let mut text = owned("error: ");
        match self {
            EvalError::UndefinedSymbol(name) => {
                text.append("eval: Undefined symbol ");
                text.append(name.as_str());
            },
            EvalError::NotASymbol => {
                text.append("Token is not symbol");
            },
            EvalError::InvalidFunction(name) => {
                text.append("eval: Invalid function ");
                text.append(name.as_str());
            },
            EvalError::WrongArgumentType(builtin, kind) => {
                text.append("Wrong argument type: ");
                text.append(builtin.name());
                text.append(" require ");
                match kind {
                    ArgumentKind::Number => {
                        text.append("number");
                    },
                    ArgumentKind::Cons => {
                        text.append("cons");
                    },
                }
                assert(text@ =~= message(self@));
            },
            EvalError::Arity(builtin, given) => {
                text.append("Wrong number of arguments: ");
                text.append(builtin.name());
                text.append(", ");
                push_digits(&mut text, *given as u64);
                assert(text@ =~= message(self@));
            },
            EvalError::DivisionByZero => {
                text.append("Division by zero");
            },
            EvalError::StringLiteral => {
                text.append("eval: String literal has no value");
            },
            EvalError::Exit(status) => {
                text.append("exit ");
                push_decimal(&mut text, *status);
                assert(text@ =~= message(self@));
            },
        }
        text
    }
}

/// What an evaluation comes to: a value, or the reason why there is none.
pub type EvalResult = Result<Value, EvalError>;

/// What an evaluation came to, with the error by its view.
pub open spec fn outcome(result: EvalResult) -> Result<Value, EvalErrorView> {
    match result {
        Ok(value) => Ok(value),
        Err(error) => Err(error@),
    }
}

/// The name that a token holds, where the token is a symbol.
pub open spec fn symbol_of(token: TokenView) -> Result<Seq<char>, EvalErrorView> {
    match token.kind {
        TokenKindView::Symbol(name) => Ok(name),
        _ => Err(EvalErrorView::NotASymbol),
    }
}

/// What evaluating an expression in an environment comes to, and the
/// environment that it leaves behind.
///
/// - A symbol gives the value that it is bound to, and fails where it is
///   unbound.
/// - A number gives itself.
/// - A conditional evaluates its condition, and then one branch: the first
///   where the condition came to a true value, the second where it did not.
/// - A definition evaluates its value, binds the target symbol to it, and
///   gives that value.
/// - A call looks its callee up before anything else, and fails where that
///   is bound to no built-in operation. It then evaluates its arguments from
///   left to right and calls the operation on what they came to.
///
/// The first failure ends the evaluation. What was bound or printed before
/// it stays bound and printed.
pub open spec fn eval_spec(expr: ExprView, env: EnvironmentView) -> (
    Result<Value, EvalErrorView>,
    EnvironmentView,
)
    decreases expr, 0nat,
{
    match expr {
        ExprView::Symbol(_, name) => if env.bindings.contains_key(name) {
            (Ok(env.bindings[name]), env)
        } else {
            (Err(EvalErrorView::UndefinedSymbol(name)), env)
        },
        ExprView::Str(_) => (Err(EvalErrorView::StringLiteral), env),
        ExprView::Number(_, n) => (Ok(Value::Number(n)), env),
        ExprView::If(_, _, cond, consequent, otherwise, _) => {
            let (tested, after) = eval_spec(*cond, env);
            match tested {
                Err(error) => (Err(error), after),
                Ok(value) => if value.truthy() {
                    eval_spec(*consequent, after)
                } else {
                    eval_spec(*otherwise, after)
                },
            }
        },
        ExprView::Define(_, _, target, value, _) => {
            let (evaluated, after) = eval_spec(*value, env);
            match evaluated {
                Err(error) => (Err(error), after),
                Ok(value) => match symbol_of(target) {
                    Err(error) => (Err(error), after),
                    Ok(name) => (Ok(value), after.bind(name, value)),
                },
            }
        },
        ExprView::Call(_, callee, args, _) => match symbol_of(callee) {
            Err(error) => (Err(error), env),
            Ok(name) => match callable_of(env, name) {
                None => (Err(EvalErrorView::InvalidFunction(name)), env),
                Some(builtin) => {
                    let (evaluated, after) = eval_args_spec(args, args.len(), env);
                    match evaluated {
                        Err(error) => (Err(error), after),
                        Ok(values) => (
                            builtin_result(builtin, values),
                            after.print(builtin_lines(builtin, values)),
                        ),
                    }
                },
            },
        },
    }
}

/// The built-in operation that a name is bound to, if it is bound to one.
pub open spec fn callable_of(env: EnvironmentView, name: Seq<char>) -> Option<Builtin> {
    if env.bindings.contains_key(name) {
        match env.bindings[name] {
            Value::Callable(builtin) => Some(builtin),
            _ => None,
        }
    } else {
        None
    }
}

/// What evaluating the first `n` of the expressions comes to, from left to
/// right, each in the environment that the one before it left behind: their
/// values in order, or the first failure, after which no further expression
/// is evaluated.
pub open spec fn eval_args_spec(args: Seq<ExprView>, n: nat, env: EnvironmentView) -> (
    Result<Seq<Value>, EvalErrorView>,
    EnvironmentView,
)
    decreases args, n,
{
    if n == 0 || n > args.len() {
        (Ok(Seq::empty()), env)
    } else {
        let (before, middle) = eval_args_spec(args, (n - 1) as nat, env);
        match before {
            Err(error) => (Err(error), middle),
            Ok(values) => {
                let (last, after) = eval_spec(args[n - 1], middle);
                match last {
                    Err(error) => (Err(error), after),
                    Ok(value) => (Ok(values.push(value)), after),
                }
            },
        }
    }
}

/// The name that the token holds, where the token is a symbol.
pub fn to_sym(token: &Token) -> (name: Result<String, EvalError>)
    ensures
        match name {
            Ok(name) => symbol_of(token@) == Ok::<Seq<char>, EvalErrorView>(name@),
            Err(error) => symbol_of(token@) == Err::<Seq<char>, EvalErrorView>(error@),
        },
{
    match &token.kind {
        TokenKind::Symbol(s) => Ok(s.clone()),
        _ => Err(EvalError::NotASymbol),
    }
}

/// Evaluates the expressions from left to right, up to the first failure.
fn eval_args(args: &Vec<Expr>, env: &mut Environment) -> (result: Result<Vec<Value>, EvalError>)
    ensures
        match result {
            Ok(values) => eval_args_spec(models(args@), args@.len(), old(env)@) == (
                Ok::<Seq<Value>, EvalErrorView>(values@),
                final(env)@,
            ),
            Err(error) => eval_args_spec(models(args@), args@.len(), old(env)@) == (
                Err::<Seq<Value>, EvalErrorView>(error@),
                final(env)@,
            ),
        },
    decreases args,
{
    let mut values: Vec<Value> = Vec::new();
    let mut i: usize = 0;
    while i < args.len()
        invariant
            i <= args@.len(),
            eval_args_spec(models(args@), i as nat, old(env)@) == (
                Ok::<Seq<Value>, EvalErrorView>(values@),
                env@,
            ),
        decreases args@.len() - i,
    {
        match eval_ref(&args[i], env) {
            Ok(value) => {
                values.push(value);
            },
            Err(error) => {
                proof {
                    lemma_failure_stays(models(args@), (i + 1) as nat, args@.len(), old(env)@);
                }
                return Err(error);
            },
        }
        i += 1;
    }
    Ok(values)
}

/// Once the first `n` expressions have failed, taking more of them changes
/// nothing.
proof fn lemma_failure_stays(args: Seq<ExprView>, n: nat, m: nat, env: EnvironmentView)
    requires
        n <= m <= args.len(),
        eval_args_spec(args, n, env).0 is Err,
    ensures
        eval_args_spec(args, m, env) == eval_args_spec(args, n, env),
    decreases m,
{
    if n < m {
        lemma_failure_stays(args, n, (m - 1) as nat, env);
    }
}

/// Evaluates the expression in the environment. The evaluation walks the
/// tree by recursion, so the depth of the tree that it can take is bounded
/// by the stack of the thread that runs it.
fn eval_ref(expr: &Expr, env: &mut Environment) -> (result: EvalResult)
    ensures
        (outcome(result), final(env)@) == eval_spec(expr@, old(env)@),
    decreases expr,
{
    match expr {
        Expr::Symbol(_, name) => match env.get(name.as_str()) {
            Some(value) => Ok(value.clone()),
            None => Err(EvalError::UndefinedSymbol(name.clone())),
        },
        Expr::Str(_) => Err(EvalError::StringLiteral),
        Expr::Number(_, n) => Ok(Value::Number(*n)),
        Expr::If(_, _, cond, consequent, otherwise, _) => {
            let tested = eval_ref(cond, env)?;
            if tested.is_truthy() {
                eval_ref(consequent, env)
            } else {
                eval_ref(otherwise, env)
            }
        },
        Expr::Define(_, _, target, value, _) => {
            let value = eval_ref(value, env)?;
            let name = to_sym(target)?;
            env.insert(name, value.clone());
            Ok(value)
        },
        Expr::Call(_, callee, args, _) => {
            let name = to_sym(callee)?;
            let builtin = match env.get(name.as_str()) {
                Some(Value::Callable(builtin)) => *builtin,
                _ => {
                    return Err(EvalError::InvalidFunction(name));
                },
            };
            assert(expr@ matches ExprView::Call(_, _, trees, _) && trees =~= models(args@));
            let values = eval_args(args, env)?;
            env.call(builtin, values)
        },
    }
}

/// Evaluates the expression in the environment, which keeps what the
/// expression bound and printed, also where the evaluation failed. The
/// depth of the tree is bounded by the stack of the thread.
pub fn eval_with_env(expr: Expr, env: &mut Environment) -> (result: EvalResult)
    ensures
        (outcome(result), final(env)@) == eval_spec(expr@, old(env)@),
{
    eval_ref(&expr, env)
}

/// Evaluates the expression in a fresh environment with the built-in
/// operations, and hands back what it came to and the lines that it printed.
pub fn eval(expr: Expr) -> (result: (EvalResult, Vec<String>))
    ensures
        ({
            let start = EnvironmentView {
                bindings: crate::env::global_bindings(),
                output: Seq::empty(),
            };
            &&& outcome(result.0) == eval_spec(expr@, start).0
            &&& texts(result.1@) == eval_spec(expr@, start).1.output
        }),
{
    let mut env = make_global_env();
    let result = eval_with_env(expr, &mut env);
    let lines = env.take_output();
    (result, lines)
}

impl Clone for Value {
    fn clone(&self) -> (copy: Value)
        ensures
            copy == *self,
    {
        self.duplicate()
    }
}

impl Clone for Cons {
    fn clone(&self) -> (copy: Cons)
        ensures
            copy == *self,
    {
        self.duplicate()
    }
}

} // verus!
