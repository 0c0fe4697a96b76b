//! What an expression means: the value that the compiled function is to
//! give for it.
//!
//! All values are 32-bit two's complement integers. Addition, subtraction
//! and multiplication wrap around. Division rounds toward zero; by zero,
//! and of the least integer by minus one, it has no value: the compiled
//! function traps there. A comparison gives one or zero. The value of a
//! call is whatever the built-in gave back.

use vstd::prelude::*;
use vstd::arithmetic::div_mod::lemma_mul_mod_noop_general;
use crate::expr::{BinOp, BuiltInFunc, Expr};

verus! {

/// The least 32-bit integer.
pub open spec fn least() -> int {
    -0x8000_0000
}

/// `v` is a 32-bit two's complement integer.
pub open spec fn is_i32(v: int) -> bool {
    -0x8000_0000 <= v < 0x8000_0000
}

/// The 32-bit two's complement integer that `v` wraps around to.
pub open spec fn wrap32(v: int) -> int {
    let low = v % 0x1_0000_0000;
    if low >= 0x8000_0000 {
        low - 0x1_0000_0000
    } else {
        low
    }
}

/// `x / y`, rounded toward zero.
pub open spec fn quotient(x: int, y: int) -> int {
    if x >= 0 && y > 0 {
        x / y
    } else if x >= 0 {
        -(x / (-y))
    } else if y > 0 {
        -((-x) / y)
    } else {
        (-x) / (-y)
    }
}

/// What an operator gives on two values; `None` where it traps.
pub open spec fn apply(op: BinOp, x: int, y: int) -> Option<int> {
    match op {
        BinOp::Add => Some(wrap32(x + y)),
        BinOp::Sub => Some(wrap32(x - y)),
        BinOp::Mul => Some(wrap32(x * y)),
        BinOp::Div => if y == 0 || (x == least() && y == -1) {
            None
        } else {
            Some(quotient(x, y))
        },
        BinOp::Eq => Some(
            if x == y {
                1
            } else {
                0
            },
        ),
    }
}

/// The number of calls of built-ins in an expression.
pub open spec fn call_count(expr: Expr) -> nat
    decreases expr,
{
    match expr {
        Expr::Input(_) => 0,
        Expr::Num(_) => 0,
        Expr::BinOp(_, lhs, rhs) => call_count(*lhs) + call_count(*rhs),
        Expr::Call(_, arg) => call_count(*arg) + 1,
    }
}

/// The value of `expr` on the arguments `args`, where the calls of
/// built-ins, in the order in which they are made, gave back `answers`.
///
/// Operands are evaluated left to right, the argument of a call before
/// the call. There is no value where an operator traps, where an `Input`
/// names no argument, and where `answers` are too few.
pub open spec fn eval(expr: Expr, args: Seq<int>, answers: Seq<int>) -> Option<int>
    decreases expr,
{
    match expr {
        Expr::Num(n) => Some(wrap32(n as int)),
        Expr::Input(i) => if i < args.len() {
            Some(args[i as int])
        } else {
            None
        },
        Expr::BinOp(op, lhs, rhs) => match eval(*lhs, args, answers) {
            None => None,
            Some(x) => match eval(*rhs, args, answers.skip(call_count(*lhs) as int)) {
                None => None,
                Some(y) => apply(op, x, y),
            },
        },
        Expr::Call(_, arg) => match eval(*arg, args, answers) {
            None => None,
            Some(_) => if call_count(*arg) < answers.len() {
                Some(answers[call_count(*arg) as int])
            } else {
                None
            },
        },
    }
}

/// One call of a built-in: what it was given and what it gave back.
pub struct Event {
    pub func: BuiltInFunc,
    pub arg: int,
    pub answer: int,
}

impl Event {
    /// The built-in did what is asked of it: `print` gives its argument
    /// back; `rand`, given a positive bound, a number below it and not
    /// below zero.
    pub open spec fn as_asked(self) -> bool {
        match self.func {
            BuiltInFunc::Print => self.answer == self.arg,
            BuiltInFunc::Rand => self.arg > 0 ==> 0 <= self.answer < self.arg,
        }
    }
}

/// The calls of built-ins that the evaluation of `expr` makes, first to
/// last, where `eval` gives a value.
pub open spec fn events(expr: Expr, args: Seq<int>, answers: Seq<int>) -> Seq<Event>
    decreases expr,
{
    match expr {
        Expr::Num(_) => Seq::empty(),
        Expr::Input(_) => Seq::empty(),
        Expr::BinOp(_, lhs, rhs) => events(*lhs, args, answers) + events(
            *rhs,
            args,
            answers.skip(call_count(*lhs) as int),
        ),
        Expr::Call(func, arg) => events(*arg, args, answers).push(
            Event {
                func,
                arg: eval(*arg, args, answers).unwrap(),
                answer: answers[call_count(*arg) as int],
            },
        ),
    }
}

/// Where there is a value, every call had its answer.
pub proof fn lemma_eval_answers(expr: Expr, args: Seq<int>, answers: Seq<int>)
    requires
        eval(expr, args, answers) is Some,
    ensures
        call_count(expr) <= answers.len(),
    decreases expr,
{
    match expr {
        Expr::BinOp(_, lhs, rhs) => {
            lemma_eval_answers(*lhs, args, answers);
            lemma_eval_answers(*rhs, args, answers.skip(call_count(*lhs) as int));
        },
        Expr::Call(_, arg) => {
            lemma_eval_answers(*arg, args, answers);
        },
        _ => {},
    }
}

/// A quotient of 32-bit integers is one, but for the least by minus one.
pub proof fn lemma_quotient_is_i32(x: int, y: int)
    requires
        is_i32(x),
        is_i32(y),
    ensures
        y != 0 && !(x == least() && y == -1) ==> is_i32(quotient(x, y)),
{
    if y != 0 && !(x == least() && y == -1) {
        if x >= 0 && y > 0 {
            assert(0 <= x / y <= x) by (nonlinear_arith)
                requires
                    x >= 0,
                    y > 0,
            ;
        } else if x >= 0 {
            assert(0 <= x / (-y) <= x) by (nonlinear_arith)
                requires
                    x >= 0,
                    -y > 0,
            ;
        } else if y > 0 {
            assert(0 <= (-x) / y <= -x) by (nonlinear_arith)
                requires
                    -x >= 0,
                    y > 0,
            ;
        } else {
            assert(0 <= (-x) / (-y) <= -x) by (nonlinear_arith)
                requires
                    -x >= 0,
                    -y > 0,
            ;
            if y != -1 {
                assert((-x) / (-y) < 0x8000_0000) by (nonlinear_arith)
                    requires
                        0 < -x <= 0x8000_0000,
                        -y >= 2,
                ;
            }
        }
    }
}

/// An expression without calls has the same value whatever the
/// built-ins would give back, and makes no call.
pub proof fn lemma_eval_without_calls(
    expr: Expr,
    args: Seq<int>,
    answers: Seq<int>,
    others: Seq<int>,
)
    requires
        !expr.has_call(),
    ensures
        eval(expr, args, answers) == eval(expr, args, others),
        call_count(expr) == 0,
        events(expr, args, answers) == Seq::<Event>::empty(),
    decreases expr,
{
    match expr {
        Expr::BinOp(_, lhs, rhs) => {
            lemma_eval_without_calls(*lhs, args, answers, others);
            lemma_eval_without_calls(*rhs, args, answers.skip(0), others.skip(0));
            assert(events(*lhs, args, answers) + events(*rhs, args, answers.skip(0))
                =~= Seq::<Event>::empty());
        },
        _ => {},
    }
}

/// The value of `Input(i)` is the `i`-th argument.
pub proof fn lemma_eval_input(i: u64, args: Seq<int>, answers: Seq<int>)
    requires
        i < args.len(),
    ensures
        eval(Expr::Input(i), args, answers) == Some(args[i as int]),
{
}

/// Wrapping before adding, subtracting or multiplying changes nothing.
pub proof fn lemma_wrap32_arith(x: int, y: int)
    ensures
        wrap32(wrap32(x) + wrap32(y)) == wrap32(x + y),
        wrap32(wrap32(x) - wrap32(y)) == wrap32(x - y),
        wrap32(wrap32(x) * wrap32(y)) == wrap32(x * y),
{
    let m = 0x1_0000_0000int;
    let wx = wrap32(x);
    let wy = wrap32(y);
    lemma_mul_mod_noop_general(wx, wy, m);
    lemma_mul_mod_noop_general(x, y, m);
    assert((wx * wy) % m == (x * y) % m);
}

/// The value of an operator on two literals is the operator's on the two
/// numbers: the sum, the difference and the product wrapped to 32 bits,
/// the quotient rounded toward zero, one or zero for a comparison.
/// Division has no value where the divisor wraps to zero, and for the
/// least integer by minus one.
pub proof fn lemma_eval_literals(op: BinOp, x: i64, y: i64, args: Seq<int>, answers: Seq<int>)
    ensures
        eval(Expr::BinOp(op, Box::new(Expr::Num(x)), Box::new(Expr::Num(y))), args, answers)
            == match op {
            BinOp::Add => Some(wrap32(x + y)),
            BinOp::Sub => Some(wrap32(x - y)),
            BinOp::Mul => Some(wrap32(x * y)),
            BinOp::Div => if wrap32(y as int) == 0 || (wrap32(x as int) == least() && wrap32(
                y as int,
            ) == -1) {
                None
            } else {
                Some(quotient(wrap32(x as int), wrap32(y as int)))
            },
            BinOp::Eq => Some(
                if wrap32(x as int) == wrap32(y as int) {
                    1int
                } else {
                    0int
                },
            ),
        },
{
    reveal_with_fuel(eval, 3);
    lemma_wrap32_arith(x as int, y as int);
}

/// A comparison gives one where the two values are equal and zero where
/// they are not.
pub proof fn lemma_eval_equal(lhs: Expr, rhs: Expr, args: Seq<int>, answers: Seq<int>)
    requires
        eval(lhs, args, answers) is Some,
        eval(rhs, args, answers.skip(call_count(lhs) as int)) is Some,
    ensures
        eval(Expr::BinOp(BinOp::Eq, Box::new(lhs), Box::new(rhs)), args, answers) == Some(
            if eval(lhs, args, answers) == eval(rhs, args, answers.skip(call_count(lhs) as int)) {
                1int
            } else {
                0int
            },
        ),
{
}

/// A call of `print` that does as asked has the value of its argument,
/// and is the one call made after those of the argument.
pub proof fn lemma_eval_print(arg: Expr, args: Seq<int>, answers: Seq<int>)
    requires
        eval(Expr::Call(BuiltInFunc::Print, Box::new(arg)), args, answers) is Some,
        events(Expr::Call(BuiltInFunc::Print, Box::new(arg)), args, answers).last().as_asked(),
    ensures
        eval(Expr::Call(BuiltInFunc::Print, Box::new(arg)), args, answers) == eval(
            arg,
            args,
            answers,
        ),
        events(Expr::Call(BuiltInFunc::Print, Box::new(arg)), args, answers).len() == events(
            arg,
            args,
            answers,
        ).len() + 1,
        events(Expr::Call(BuiltInFunc::Print, Box::new(arg)), args, answers).last().arg == eval(
            arg,
            args,
            answers,
        ).unwrap(),
{
}

/// The numbers of `s` as unbounded integers.
pub open spec fn ints(s: Seq<i32>) -> Seq<int> {
    Seq::new(s.len(), |i: int| s[i] as int)
}

/// Wraps `v` around to 32 bits.
pub fn wrap(v: i64) -> (r: i32)
    ensures
        r == wrap32(v as int),
{
    let shifted: i128 = v as i128 + 0x1_0000_0000_0000_0000;
    let low: i128 = shifted % 0x1_0000_0000;
    assert(low == (v as int) % 0x1_0000_0000) by {
        vstd::arithmetic::div_mod::lemma_mod_multiples_vanish(
            0x1_0000_0000,
            v as int,
            0x1_0000_0000,
        );
    }
    if low >= 0x8000_0000 {
        (low - 0x1_0000_0000) as i32
    } else {
        low as i32
    }
}

/// What an operator gives on two values; `None` where it traps.
pub fn apply_op(op: BinOp, x: i32, y: i32) -> (r: Option<i32>)
    ensures
        match apply(op, x as int, y as int) {
            Some(v) => r == Some(v as i32) && is_i32(v),
            None => r is None,
        },
{
    match op {
        BinOp::Add => Some(wrap(x as i64 + y as i64)),
        BinOp::Sub => Some(wrap(x as i64 - y as i64)),
        BinOp::Mul => {
            assert(-0x8000_0000 * 0x8000_0000 <= (x as int) * (y as int) <= 0x8000_0000
                * 0x8000_0000) by (nonlinear_arith)
                requires
                    -0x8000_0000 <= x < 0x8000_0000,
                    -0x8000_0000 <= y < 0x8000_0000,
            ;
            Some(wrap(x as i64 * y as i64))
        },
        BinOp::Div => {
            proof {
                lemma_quotient_is_i32(x as int, y as int);
            }
            x.checked_div(y)
        },
        BinOp::Eq => Some(
            if x == y {
                1
            } else {
                0
            },
        ),
    }
}

/// Evaluates `expr` from the `asked`-th answer on; gives the value and
/// the number of answers used up, that one included.
fn evaluate_from(expr: &Expr, args: &[i32; 4], answers: &[i32], asked: usize) -> (r: Option<
    (i32, usize),
>)
    requires
        asked <= answers.len(),
    ensures
        match eval(*expr, ints(args@), ints(answers@).skip(asked as int)) {
            Some(v) => r == Some((v as i32, (asked + call_count(*expr)) as usize)) && is_i32(v)
                && asked + call_count(*expr) <= answers.len(),
            None => r is None,
        },
    decreases expr,
{
    let ghost rest = ints(answers@).skip(asked as int);
    match expr {
        Expr::Num(n) => Some((wrap(*n), asked)),
        Expr::Input(i) => if *i < 4 {
            Some((args[*i as usize], asked))
        } else {
            None
        },
        Expr::BinOp(op, lhs, rhs) => {
            let (x, mid) = match evaluate_from(lhs, args, answers, asked) {
                Some(found) => found,
                None => { return None; },
            };
            assert(rest.skip(call_count(**lhs) as int) =~= ints(answers@).skip(mid as int));
            let (y, end) = match evaluate_from(rhs, args, answers, mid) {
                Some(found) => found,
                None => { return None; },
            };
            match apply_op(*op, x, y) {
                Some(v) => Some((v, end)),
                None => None,
            }
        },
        Expr::Call(_, arg) => {
            let (_, mid) = match evaluate_from(arg, args, answers, asked) {
                Some(found) => found,
                None => { return None; },
            };
            if mid < answers.len() {
                Some((answers[mid], mid + 1))
            } else {
                None
            }
        },
    }
}

/// The value of `expr` on `args`, where the calls of built-ins gave back
/// `answers`: what the compiled function is to return. `None` where the
/// compiled function traps, and where `answers` are too few.
pub fn evaluate(expr: &Expr, args: &[i32; 4], answers: &[i32]) -> (r: Option<i32>)
    ensures
        match eval(*expr, ints(args@), ints(answers@)) {
            Some(v) => r == Some(v as i32) && is_i32(v),
            None => r is None,
        },
{
    assert(ints(answers@).skip(0) =~= ints(answers@));
    match evaluate_from(expr, args, answers, 0) {
        Some((v, _)) => Some(v),
        None => None,
    }
}

} // verus!
