//! What each built-in operation computes from its arguments, as a
//! specification and as the code that meets it.
//!
//! Arithmetic is on 64-bit signed integers and wraps around on overflow.
//! `Nil` stands for zero wherever a number is asked for. An operation that
//! asks for numbers looks at all of its arguments first: one that is neither
//! a number nor `Nil` fails the call before anything is computed.

use crate::env::{last_or_nil, Values};
use crate::eval::{outcome, render, ArgumentKind, Builtin, Cons, EvalError, EvalErrorView,
    EvalResult, Value};
use crate::text::texts;
use itertools::Itertools;
use vstd::prelude::*;

verus! {

/// Every argument stands for a number.
pub open spec fn all_numeric(args: Seq<Value>) -> bool {
    forall|i: int| 0 <= i < args.len() ==> (#[trigger] args[i]).numeric() is Some
}

/// The numbers that the arguments stand for.
pub open spec fn numbers(args: Seq<Value>) -> Seq<i64>
    recommends
        all_numeric(args),
{
    Seq::new(args.len(), |i: int| args[i].numeric().unwrap())
}

/// The sum of the numbers, zero for none.
pub open spec fn sum(nums: Seq<i64>) -> i64
    decreases nums.len(),
{
    if nums.len() == 0 {
        0
    } else {
        sum(nums.drop_last()).wrapping_add(nums.last())
    }
}

/// The product of the numbers, one for none.
pub open spec fn product(nums: Seq<i64>) -> i64
    decreases nums.len(),
{
    if nums.len() == 0 {
        1
    } else {
        product(nums.drop_last()).wrapping_mul(nums.last())
    }
}

/// The first number less each of the others in turn.
pub open spec fn difference(nums: Seq<i64>) -> i64
    recommends
        nums.len() > 0,
    decreases nums.len(),
{
    if nums.len() <= 1 {
        nums[0]
    } else {
        difference(nums.drop_last()).wrapping_sub(nums.last())
    }
}

/// The quotient of two integers, rounded toward zero.
pub open spec fn truncated(a: int, b: int) -> int
    recommends
        b != 0,
{
    if a >= 0 && b > 0 {
        a / b
    } else if a < 0 && b < 0 {
        (-a) / (-b)
    } else if a < 0 {
        -((-a) / b)
    } else {
        -(a / (-b))
    }
}

/// The quotient of two 64-bit integers, rounded toward zero. The one
/// quotient that does not fit, the least integer by minus one, wraps around
/// to the least integer.
pub open spec fn wrapping_div(a: i64, b: i64) -> i64
    recommends
        b != 0,
{
    if a == i64::MIN && b == -1 {
        i64::MIN
    } else {
        truncated(a as int, b as int) as i64
    }
}

/// The first number divided by each of the others in turn.
pub open spec fn quotient(nums: Seq<i64>) -> i64
    recommends
        nums.len() > 0,
    decreases nums.len(),
{
    if nums.len() <= 1 {
        nums[0]
    } else {
        wrapping_div(quotient(nums.drop_last()), nums.last())
    }
}

/// One of the numbers after the first is zero.
pub open spec fn has_zero_divisor(nums: Seq<i64>) -> bool {
    exists|i: int| 1 <= i < nums.len() && #[trigger] nums[i] == 0
}

/// The four comparisons.
pub open spec fn is_comparison(builtin: Builtin) -> bool {
    builtin == Builtin::Lt || builtin == Builtin::Gt || builtin == Builtin::Le || builtin
        == Builtin::Ge
}

/// The first argument, where there is one and it is a pair.
pub open spec fn first_pair(args: Seq<Value>) -> Option<Cons> {
    if args.len() == 0 {
        None
    } else {
        match args[0] {
            Value::Cons(pair) => Some(pair),
            _ => None,
        }
    }
}

/// The relation that a comparison checks between neighbours. Only the four
/// comparisons have one.
pub open spec fn related(builtin: Builtin, a: i64, b: i64) -> bool {
    match builtin {
        Builtin::Lt => a < b,
        Builtin::Gt => a > b,
        Builtin::Le => a <= b,
        Builtin::Ge => a >= b,
        _ => false,
    }
}

/// The number at `i` is related to the one after it.
pub open spec fn related_at(builtin: Builtin, nums: Seq<i64>, i: int) -> bool {
    related(builtin, nums[i], nums[i + 1])
}

/// Each number is related to the next one.
pub open spec fn chained(builtin: Builtin, nums: Seq<i64>) -> bool {
    forall|i: int| 0 <= i < nums.len() - 1 ==> #[trigger] related_at(builtin, nums, i)
}

/// Every number equals the first.
pub open spec fn all_equal(nums: Seq<i64>) -> bool {
    forall|i: int| 0 <= i < nums.len() ==> #[trigger] nums[i] == nums[0]
}

/// The chain of pairs that holds the values in order and ends in `Nil`.
pub open spec fn list_of(values: Seq<Value>) -> Value
    decreases values.len(),
{
    if values.len() == 0 {
        Value::Nil
    } else {
        Value::Cons(Cons(Box::new(values[0]), Box::new(list_of(values.drop_first()))))
    }
}

/// The last value, `Nil` for none.
pub open spec fn last_or_nil_spec(values: Seq<Value>) -> Value {
    if values.len() == 0 {
        Value::Nil
    } else {
        values.last()
    }
}

/// The truth values of the language: one for true, `Nil` for false.
pub open spec fn truth(b: bool) -> Value {
    if b {
        Value::Number(1)
    } else {
        Value::Nil
    }
}

/// What an operation on numbers comes to, once every argument is known to
/// stand for a number.
pub open spec fn numeric_result(builtin: Builtin, nums: Seq<i64>) -> Result<Value, EvalErrorView> {
    match builtin {
        Builtin::Add => Ok(Value::Number(sum(nums))),
        Builtin::Mul => Ok(Value::Number(product(nums))),
        Builtin::Sub => if nums.len() == 0 {
            Ok(Value::Number(0))
        } else if nums.len() == 1 {
            Ok(Value::Number(0i64.wrapping_sub(nums[0])))
        } else {
            Ok(Value::Number(difference(nums)))
        },
        Builtin::Div => if nums.len() == 0 {
            Err(EvalErrorView::Arity(Builtin::Div, 0))
        } else if nums.len() == 1 {
            if nums[0] == 0 {
                Err(EvalErrorView::DivisionByZero)
            } else {
                Ok(Value::Number(wrapping_div(1, nums[0])))
            }
        } else if has_zero_divisor(nums) {
            Err(EvalErrorView::DivisionByZero)
        } else {
            Ok(Value::Number(quotient(nums)))
        },
        Builtin::NumEq => if nums.len() == 0 {
            Err(EvalErrorView::Arity(Builtin::NumEq, 0))
        } else {
            Ok(truth(all_equal(nums)))
        },
        Builtin::Exit => if nums.len() == 0 {
            Err(EvalErrorView::Exit(0))
        } else {
            Err(EvalErrorView::Exit(nums.last()))
        },
        _ => Ok(truth(chained(builtin, nums))),
    }
}

/// What a call of a built-in operation comes to.
///
/// - `print` and `begin` give their last argument, `Nil` for none.
/// - `exit` stops the evaluation with the status that its last argument
///   stands for, zero for none.
/// - `+` and `*` give the sum and the product; `-` gives zero for no
///   argument, the negation of one, and else the first less the others; `/`
///   refuses no argument, gives one divided by a single argument, and else
///   the first divided by the others; a zero divisor fails the call.
/// - `=` refuses no argument, and else tells whether all arguments equal the
///   first.
/// - `<`, `>`, `<=`, `>=` tell whether each argument is so related to the
///   next. Under two arguments the answer is `Nil`, whatever they are: a
///   comparison with nothing to compare is false, not true.
/// - `not` takes one argument and tells whether it is false.
/// - `cons` pairs its first two arguments, and gives `Nil` for fewer.
/// - `list` refuses no argument, and else chains all of them.
/// - `car` and `cdr` give the parts of their first argument, a pair.
pub open spec fn builtin_result(builtin: Builtin, args: Seq<Value>) -> Result<
    Value,
    EvalErrorView,
> {
    match builtin {
        Builtin::Print | Builtin::Begin => Ok(last_or_nil_spec(args)),
        Builtin::Not => if args.len() == 1 {
            Ok(truth(!args[0].truthy()))
        } else {
            Err(EvalErrorView::Arity(Builtin::Not, args.len() as usize))
        },
        Builtin::Cons => if args.len() >= 2 {
            Ok(Value::Cons(Cons(Box::new(args[0]), Box::new(args[1]))))
        } else {
            Ok(Value::Nil)
        },
        Builtin::List => if args.len() == 0 {
            Err(EvalErrorView::Arity(Builtin::List, 0))
        } else {
            Ok(list_of(args))
        },
        Builtin::Car => match first_pair(args) {
            Some(pair) => Ok(*pair.0),
            None => Err(EvalErrorView::WrongArgumentType(Builtin::Car, ArgumentKind::Cons)),
        },
        Builtin::Cdr => match first_pair(args) {
            Some(pair) => Ok(*pair.1),
            None => Err(EvalErrorView::WrongArgumentType(Builtin::Cdr, ArgumentKind::Cons)),
        },
        _ => if is_comparison(builtin) && args.len() < 2 {
            Ok(Value::Nil)
        } else if all_numeric(args) {
            numeric_result(builtin, numbers(args))
        } else {
            Err(EvalErrorView::WrongArgumentType(builtin, ArgumentKind::Number))
        },
    }
}

/// The lines that a call of a built-in operation prints: for `print` the
/// text of each argument in turn, for the others none.
pub open spec fn builtin_lines(builtin: Builtin, args: Seq<Value>) -> Seq<Seq<char>> {
    match builtin {
        Builtin::Print => Seq::new(args.len(), |i: int| render(args[i])),
        _ => Seq::empty(),
    }
}

/// Calls `Itertools::next_tuple` on an iterator over the values: the first
/// two of them, in order, where there are at least two, and else nothing.
#[verifier::external_body]
fn first_two(values: &Vec<Value>) -> (pair: Option<(&Value, &Value)>)
    ensures
        values@.len() < 2 <==> pair is None,
        pair matches Some((a, b)) ==> *a == values@[0] && *b == values@[1],
{
    values.iter().next_tuple()
}

/// The numbers that the values stand for, or nothing where one of them
/// stands for none.
fn to_numbers(values: &Vec<Value>) -> (nums: Option<Vec<i64>>)
    ensures
        nums is Some <==> all_numeric(values@),
        nums matches Some(nums) ==> nums@ == numbers(values@),
{
    let mut nums: Vec<i64> = Vec::new();
    let mut i: usize = 0;
    while i < values.len()
        invariant
            i <= values@.len(),
            nums@.len() == i,
            forall|k: int| 0 <= k < i ==> (#[trigger] values@[k]).numeric() == Some(nums@[k]),
        decreases values@.len() - i,
    {
        match values[i].as_num() {
            Some(n) => {
                nums.push(n);
            },
            None => {
                return None;
            },
        }
        i += 1;
    }
    assert(nums@ =~= numbers(values@));
    Some(nums)
}

/// The sum of the numbers.
fn add_all(nums: &Vec<i64>) -> (total: i64)
    ensures
        total == sum(nums@),
{
    let mut total: i64 = 0;
    let mut i: usize = 0;
    while i < nums.len()
        invariant
            i <= nums@.len(),
            total == sum(nums@.take(i as int)),
        decreases nums@.len() - i,
    {
        assert(nums@.take(i + 1).drop_last() =~= nums@.take(i as int));
        total = total.wrapping_add(nums[i]);
        i += 1;
    }
    assert(nums@.take(i as int) =~= nums@);
    total
}

/// The product of the numbers.
fn multiply_all(nums: &Vec<i64>) -> (total: i64)
    ensures
        total == product(nums@),
{
    let mut total: i64 = 1;
    let mut i: usize = 0;
    while i < nums.len()
        invariant
            i <= nums@.len(),
            total == product(nums@.take(i as int)),
        decreases nums@.len() - i,
    {
        assert(nums@.take(i + 1).drop_last() =~= nums@.take(i as int));
        total = total.wrapping_mul(nums[i]);
        i += 1;
    }
    assert(nums@.take(i as int) =~= nums@);
    total
}

/// The first number less each of the others in turn.
fn subtract_all(nums: &Vec<i64>) -> (rest: i64)
    requires
        nums@.len() > 0,
    ensures
        rest == difference(nums@),
{
    let mut rest: i64 = nums[0];
    let mut i: usize = 1;
    while i < nums.len()
        invariant
            1 <= i <= nums@.len(),
            rest == difference(nums@.take(i as int)),
        decreases nums@.len() - i,
    {
        assert(nums@.take(i + 1).drop_last() =~= nums@.take(i as int));
        rest = rest.wrapping_sub(nums[i]);
        i += 1;
    }
    assert(nums@.take(i as int) =~= nums@);
    rest
}

/// A quotient of a natural number by a positive one lies between zero and
/// the number divided.
proof fn lemma_quotient_bounds(x: int, d: int)
    requires
        0 <= x,
        0 < d,
    ensures
        0 <= x / d <= x,
        d == 1 ==> x / d == x,
        x > 0 && d > 1 ==> x / d < x,
{
    vstd::arithmetic::div_mod::lemma_div_pos_is_pos(x, d);
    vstd::arithmetic::div_mod::lemma_div_nonincreasing(x, d);
    vstd::arithmetic::div_mod::lemma_div_basics(x);
    if x > 0 && d > 1 {
        vstd::arithmetic::div_mod::lemma_div_decreases(x, d);
    }
}

/// The quotient of the two numbers, rounded toward zero.
fn divide(a: i64, b: i64) -> (q: i64)
    requires
        b != 0,
    ensures
        q == wrapping_div(a, b),
{
    proof {
        let x = a as int;
        let d = b as int;
        assert(x * -1 == -x);
        assert(d * -1 == -d);
        if x >= 0 && d > 0 {
            lemma_quotient_bounds(x, d);
        } else if x < 0 && d < 0 {
            lemma_quotient_bounds(-x, -d);
        } else if x < 0 {
            lemma_quotient_bounds(-x, d);
        } else {
            lemma_quotient_bounds(x, -d);
        }
    }
    match a.checked_div(b) {
        Some(q) => q,
        None => i64::MIN,
    }
}

/// The first number divided by the others in turn, or nothing where one of
/// the others is zero.
fn divide_all(nums: &Vec<i64>) -> (q: Option<i64>)
    requires
        nums@.len() > 0,
    ensures
        q is None <==> has_zero_divisor(nums@),
        q matches Some(q) ==> q == quotient(nums@),
{
    let mut q: i64 = nums[0];
    let mut i: usize = 1;
    while i < nums.len()
        invariant
            1 <= i <= nums@.len(),
            q == quotient(nums@.take(i as int)),
            forall|k: int| 1 <= k < i ==> #[trigger] nums@[k] != 0,
        decreases nums@.len() - i,
    {
        if nums[i] == 0 {
            return None;
        }
        assert(nums@.take(i + 1).drop_last() =~= nums@.take(i as int));
        q = divide(q, nums[i]);
        i += 1;
    }
    assert(nums@.take(i as int) =~= nums@);
    Some(q)
}

/// Whether every number equals the first.
fn equal_all(nums: &Vec<i64>) -> (equal: bool)
    requires
        nums@.len() > 0,
    ensures
        equal == all_equal(nums@),
{
    let first: i64 = nums[0];
    let mut i: usize = 0;
    while i < nums.len()
        invariant
            i <= nums@.len(),
            first == nums@[0],
            forall|k: int| 0 <= k < i ==> #[trigger] nums@[k] == first,
        decreases nums@.len() - i,
    {
        if nums[i] != first {
            return false;
        }
        i += 1;
    }
    true
}

/// Whether the comparison holds between the two numbers.
fn holds(builtin: Builtin, a: i64, b: i64) -> (r: bool)
    ensures
        r == related(builtin, a, b),
{
    match builtin {
        Builtin::Lt => a < b,
        Builtin::Gt => a > b,
        Builtin::Le => a <= b,
        Builtin::Ge => a >= b,
        _ => false,
    }
}

/// A comparison of two or more arguments: every pair of neighbours is
/// looked at, and each has to stand for two numbers.
fn compare_all(builtin: Builtin, values: Vec<Value>) -> (result: EvalResult)
    requires
        is_comparison(builtin),
    ensures
        outcome(result) == builtin_result(builtin, values@),
{
    let ghost args = values@;
    let vs = Values::from(values);
    match vs.to_tuples() {
        None => Ok(Value::Nil),
        Some(pairs) => {
            let mut all: bool = true;
            let mut i: usize = 0;
            while i < pairs.len()
                invariant
                    is_comparison(builtin),
                    args == values@,
                    args.len() >= 2,
                    i <= pairs@.len(),
                    pairs@.len() == args.len() - 1,
                    forall|k: int|
                        0 <= k < pairs@.len() ==> #[trigger] pairs@[k] == (args[k], args[k + 1]),
                    forall|k: int|
                        0 <= k < i ==> (#[trigger] pairs@[k]).0.numeric() is Some
                            && pairs@[k].1.numeric() is Some,
                    all == forall|k: int|
                        0 <= k < i ==> related(
                            builtin,
                            (#[trigger] pairs@[k]).0.numeric().unwrap(),
                            pairs@[k].1.numeric().unwrap(),
                        ),
                decreases pairs@.len() - i,
            {
                let a = pairs[i].0.as_num();
                let b = pairs[i].1.as_num();
                match (a, b) {
                    (Some(a), Some(b)) => {
                        if !holds(builtin, a, b) {
                            all = false;
                        }
                    },
                    _ => {
                        assert(pairs@[i as int] == (args[i as int], args[i + 1]));
                        assert(args[i as int].numeric() is None || args[i + 1].numeric() is None);
                        assert(!all_numeric(args));
                        return Err(EvalError::WrongArgumentType(builtin, ArgumentKind::Number));
                    },
                }
                i += 1;
            }
            let ghost nums = numbers(args);
            assert(all_numeric(args)) by {
                assert forall|k: int| 0 <= k < args.len() implies (#[trigger] args[k]).numeric()
                    is Some by {
                    if k > 0 {
                        assert(pairs@[k - 1] == (args[k - 1], args[k]));
                    } else {
                        assert(pairs@[0] == (args[0], args[1]));
                    }
                }
            }
            assert(all == chained(builtin, nums)) by {
                assert forall|k: int| 0 <= k < nums.len() - 1 implies #[trigger] related_at(
                    builtin,
                    nums,
                    k,
                ) == related(
                    builtin,
                    pairs@[k].0.numeric().unwrap(),
                    pairs@[k].1.numeric().unwrap(),
                ) by {
                    assert(pairs@[k] == (args[k], args[k + 1]));
                }
                if !all {
                    let k = choose|k: int|
                        0 <= k < i && !related(
                            builtin,
                            (#[trigger] pairs@[k]).0.numeric().unwrap(),
                            pairs@[k].1.numeric().unwrap(),
                        );
                    assert(!related_at(builtin, nums, k));
                }
            }
            if all {
                Ok(Value::Number(1))
            } else {
                Ok(Value::Nil)
            }
        },
    }
}

/// The chain of pairs that holds the values in order.
fn make_list(values: &Vec<Value>) -> (list: Value)
    ensures
        list == list_of(values@),
{
    let mut list = Value::Nil;
    let mut i: usize = values.len();
    while i > 0
        invariant
            i <= values@.len(),
            list == list_of(values@.skip(i as int)),
        decreases i,
    {
        i -= 1;
        assert(values@.skip(i as int).drop_first() =~= values@.skip(i + 1));
        list = Value::Cons(Cons::new(values[i].clone(), list));
    }
    assert(values@.skip(0) =~= values@);
    list
}

/// Puts the text of each value, in order, at the end of `out`.
fn print_all(values: &Vec<Value>, out: &mut Vec<String>)
    ensures
        texts(final(out)@) == texts(old(out)@) + builtin_lines(Builtin::Print, values@),
{
    let mut i: usize = 0;
    while i < values.len()
        invariant
            i <= values@.len(),
            texts(out@) == texts(old(out)@) + builtin_lines(Builtin::Print, values@).take(i as int),
        decreases values@.len() - i,
    {
        let ghost before = out@;
        out.push(values[i].to_string());
        assert(texts(out@) =~= texts(before).push(render(values@[i as int])));
        assert(texts(out@) =~= texts(old(out)@) + builtin_lines(Builtin::Print, values@).take(
            i + 1,
        ));
        i += 1;
    }
    assert(builtin_lines(Builtin::Print, values@).take(i as int) =~= builtin_lines(
        Builtin::Print,
        values@,
    ));
}

/// What an operation on numbers comes to.
fn call_numeric(builtin: Builtin, values: Vec<Value>) -> (result: EvalResult)
    requires
        builtin == Builtin::Add || builtin == Builtin::Mul || builtin == Builtin::Sub || builtin
            == Builtin::Div || builtin == Builtin::NumEq || builtin == Builtin::Exit,
    ensures
        outcome(result) == builtin_result(builtin, values@),
{
    let nums = match to_numbers(&values) {
        Some(nums) => nums,
        None => {
            return Err(EvalError::WrongArgumentType(builtin, ArgumentKind::Number));
        },
    };
    match builtin {
        Builtin::Add => Ok(Value::Number(add_all(&nums))),
        Builtin::Mul => Ok(Value::Number(multiply_all(&nums))),
        Builtin::Sub => if nums.len() == 0 {
            Ok(Value::Number(0))
        } else if nums.len() == 1 {
            Ok(Value::Number(0i64.wrapping_sub(nums[0])))
        } else {
            Ok(Value::Number(subtract_all(&nums)))
        },
        Builtin::Div => if nums.len() == 0 {
            Err(EvalError::Arity(Builtin::Div, 0))
        } else if nums.len() == 1 {
            if nums[0] == 0 {
                Err(EvalError::DivisionByZero)
            } else {
                Ok(Value::Number(divide(1, nums[0])))
            }
        } else {
            match divide_all(&nums) {
                Some(q) => Ok(Value::Number(q)),
                None => Err(EvalError::DivisionByZero),
            }
        },
        Builtin::NumEq => if nums.len() == 0 {
            Err(EvalError::Arity(Builtin::NumEq, 0))
        } else if equal_all(&nums) {
            Ok(Value::Number(1))
        } else {
            Ok(Value::Nil)
        },
        _ => if nums.len() == 0 {
            Err(EvalError::Exit(0))
        } else {
            Err(EvalError::Exit(nums[nums.len() - 1]))
        },
    }
}

/// Calls a built-in operation on its arguments. The lines that it prints
/// are put at the end of `out`.
pub fn call_builtin(builtin: Builtin, values: Vec<Value>, out: &mut Vec<String>) -> (result:
    EvalResult)
    ensures
        outcome(result) == builtin_result(builtin, values@),
        texts(final(out)@) == texts(old(out)@) + builtin_lines(builtin, values@),
{
    assert(texts(old(out)@) + Seq::<Seq<char>>::empty() =~= texts(old(out)@));
    match builtin {
        Builtin::Print => {
            print_all(&values, out);
            Ok(last_or_nil(values))
        },
        Builtin::Begin => Ok(last_or_nil(values)),
        Builtin::Not => if values.len() == 1 {
            if values[0].is_truthy() {
                Ok(Value::Nil)
            } else {
                Ok(Value::Number(1))
            }
        } else {
            Err(EvalError::Arity(Builtin::Not, values.len()))
        },
        Builtin::Cons => match first_two(&values) {
            Some((a, b)) => Ok(Value::Cons(Cons::new(a.clone(), b.clone()))),
            None => Ok(Value::Nil),
        },
        Builtin::List => if values.len() == 0 {
            Err(EvalError::Arity(Builtin::List, 0))
        } else {
            Ok(make_list(&values))
        },
        Builtin::Car => if values.len() == 0 {
            Err(EvalError::WrongArgumentType(Builtin::Car, ArgumentKind::Cons))
        } else {
            match &values[0] {
                Value::Cons(pair) => Ok(pair.clone().car()),
                _ => Err(EvalError::WrongArgumentType(Builtin::Car, ArgumentKind::Cons)),
            }
        },
        Builtin::Cdr => if values.len() == 0 {
            Err(EvalError::WrongArgumentType(Builtin::Cdr, ArgumentKind::Cons))
        } else {
            match &values[0] {
                Value::Cons(pair) => Ok(pair.clone().cdr()),
                _ => Err(EvalError::WrongArgumentType(Builtin::Cdr, ArgumentKind::Cons)),
            }
        },
        Builtin::Lt | Builtin::Gt | Builtin::Le | Builtin::Ge => compare_all(builtin, values),
        _ => call_numeric(builtin, values),
    }
}

} // verus!
