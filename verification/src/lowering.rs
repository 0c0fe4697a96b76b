//! What an expression is lowered to, and that the lowering computes the
//! value of the expression.
//!
//! [`lowers`] says which instructions stand for an expression.
//! [`Listing`] is one built function: the compiler keeps it beside the
//! calls it makes into Cranelift. [`lemma_function_computes`] is the
//! main result: run by the rules of [`crate::machine`], a listing gives
//! back what [`crate::semantics::eval`] says of its expression.

use vstd::prelude::*;
use cranelift::codegen::ir::{Block, Value};
use crate::backend::{Body, Placed};
use crate::compiler::FuncMap;
use crate::expr::{BinOp, BuiltInFunc, Expr, INPUT_SLOTS};
use crate::machine::{
    defined, holds_args, keeps, lemma_defined_concat, lemma_run_concat, lemma_run_one,
    lemma_single_assignment_push, lemma_single_assignment_split, out_of, run, single_assignment,
    step, Machine,
};
use crate::semantics::{
    apply, call_count, eval, events, least, lemma_eval_answers, lemma_eval_literals,
    lemma_eval_print, lemma_eval_without_calls, quotient, wrap32,
};

verus! {

/// The number of instructions that an expression is lowered to.
pub open spec fn code_len(expr: Expr) -> nat
    decreases expr,
{
    match expr {
        Expr::Input(_) => 0,
        Expr::Num(_) => 1,
        Expr::BinOp(op, lhs, rhs) => code_len(*lhs) + code_len(*rhs) + if op == BinOp::Eq {
            2nat
        } else {
            1nat
        },
        Expr::Call(_, arg) => code_len(*arg) + 1,
    }
}

/// `code` is the lowering of `expr`, and `out` the value that holds its
/// result.
///
/// * `Num(n)` is one constant.
/// * `Input(i)` is no instruction at all: its value is the `i`-th
///   parameter.
/// * `BinOp` is the code of the left operand, the code of the right
///   operand, then the instruction of the operator on their two values.
///   After a comparison comes the widening of its result to 32 bits.
/// * `Call` is the code of the argument, then the call of the function
///   that the built-in is imported as; its first result is the value.
pub open spec fn lowers(
    expr: Expr,
    params: Seq<Value>,
    funcs: FuncMap,
    code: Seq<Placed>,
    out: Value,
) -> bool
    decreases expr,
{
    match expr {
        Expr::Num(n) => code == seq![Placed::Const { value: n, out }],
        Expr::Input(i) => code.len() == 0 && i < params.len() && out == params[i as int],
        Expr::BinOp(op, lhs, rhs) => {
            let nl = code_len(*lhs) as int;
            let nr = code_len(*rhs) as int;
            &&& code.len() == code_len(expr)
            &&& code[nl + nr] matches Placed::Binary { op: o, lhs: l, rhs: r, out: m }
            &&& o == op
            &&& lowers(*lhs, params, funcs, code.subrange(0, nl), l)
            &&& lowers(*rhs, params, funcs, code.subrange(nl, nl + nr), r)
            &&& if op == BinOp::Eq {
                code[nl + nr + 1] == (Placed::Widen { arg: m, out })
            } else {
                m == out
            }
        },
        Expr::Call(func, arg) => {
            let na = code_len(*arg) as int;
            &&& code.len() == code_len(expr)
            &&& code[na] matches Placed::Call { func: f, arg: a, first: o }
            &&& f == funcs.of(func)
            &&& o == Some(out)
            &&& lowers(*arg, params, funcs, code.subrange(0, na), a)
        },
    }
}

/// A lowering has the length that `code_len` gives.
pub proof fn lemma_lowers_len(
    expr: Expr,
    params: Seq<Value>,
    funcs: FuncMap,
    code: Seq<Placed>,
    out: Value,
)
    requires
        lowers(expr, params, funcs, code, out),
    ensures
        code.len() == code_len(expr),
{
}

/// The lowering of an expression computes the value of the expression.
///
/// Started in a state that holds the arguments in the parameters, the
/// code of `expr` runs to its end exactly where `expr` has a value, and
/// then holds that value in `out`. It makes the calls that `expr` has,
/// in order, changes no value that was there before, and adds the values
/// that it defines.
pub proof fn lemma_lowering_computes(
    expr: Expr,
    params: Seq<Value>,
    funcs: FuncMap,
    code: Seq<Placed>,
    out: Value,
    args: Seq<int>,
    answers: Seq<int>,
    m: Machine,
)
    requires
        lowers(expr, params, funcs, code, out),
        single_assignment(code, m.regs.dom()),
        holds_args(m, params, args),
        m.asked <= answers.len(),
    ensures
        match eval(expr, args, answers.skip(m.asked as int)) {
            Some(v) => {
                &&& run(code, m, answers) matches Some(end)
                &&& end.has(out)
                &&& end.regs[out] == v
                &&& end.asked == m.asked + call_count(expr)
                &&& keeps(m, end)
                &&& end.regs.dom() == m.regs.dom().union(defined(code))
            },
            None => run(code, m, answers) is None,
        },
    decreases expr,
{
    let rest = answers.skip(m.asked as int);
    match expr {
        Expr::Num(n) => {
            let inst = Placed::Const { value: n, out };
            lemma_run_one(inst, m, answers);
            lemma_single_assignment_push(Seq::empty(), m.regs.dom(), inst);
        },
        Expr::Input(_) => {},
        Expr::BinOp(op, lhs, rhs) => {
            let nl = code_len(*lhs) as int;
            let nr = code_len(*rhs) as int;
            let code_l = code.subrange(0, nl);
            let code_r = code.subrange(nl, nl + nr);
            let tail = code.subrange(nl + nr, code.len() as int);
            let front = code_l + code_r;
            assert(code =~= front + tail);
            let l = code[nl + nr]->Binary_lhs;
            let r = code[nl + nr]->Binary_rhs;
            let binary = code[nl + nr];
            lemma_single_assignment_split(front, tail, m.regs.dom());
            lemma_single_assignment_split(code_l, code_r, m.regs.dom());
            lemma_defined_concat(front, tail);
            lemma_defined_concat(code_l, code_r);
            lemma_run_concat(front, tail, m, answers);
            lemma_run_concat(code_l, code_r, m, answers);
            lemma_lowering_computes(*lhs, params, funcs, code_l, l, args, answers, m);
            if eval(*lhs, args, rest) is Some {
                let after_l = run(code_l, m, answers).unwrap();
                lemma_eval_answers(*lhs, args, rest);
                assert(rest.skip(call_count(*lhs) as int) =~= answers.skip(after_l.asked as int));
                lemma_lowering_computes(*rhs, params, funcs, code_r, r, args, answers, after_l);
                if eval(*rhs, args, rest.skip(call_count(*lhs) as int)) is Some {
                    let after_r = run(code_r, after_l, answers).unwrap();
                    assert(out_of(tail[0]) == out_of(binary));
                    lemma_run_one(binary, after_r, answers);
                    lemma_single_assignment_push(Seq::empty(), after_r.regs.dom(), binary);
                    if op == BinOp::Eq {
                        let widen = tail[1];
                        assert(tail.drop_last() =~= seq![binary]);
                        lemma_single_assignment_push(seq![binary], after_r.regs.dom(), widen);
                        assert(defined(tail) =~= Set::<Value>::empty().insert(
                            binary->Binary_out,
                        ).insert(out));
                    } else {
                        assert(tail =~= seq![binary]);
                    }
                }
            }
        },
        Expr::Call(_, arg) => {
            let na = code_len(*arg) as int;
            let code_a = code.subrange(0, na);
            let call = code[na];
            assert(code =~= code_a + seq![call]);
            lemma_single_assignment_split(code_a, seq![call], m.regs.dom());
            lemma_defined_concat(code_a, seq![call]);
            lemma_lowering_computes(
                *arg,
                params,
                funcs,
                code_a,
                call->Call_arg,
                args,
                answers,
                m,
            );
            if eval(*arg, args, rest) is Some {
                let after_a = run(code_a, m, answers).unwrap();
                assert(out_of(seq![call][0]) == Some(out));
                lemma_single_assignment_push(Seq::empty(), after_a.regs.dom(), call);
            }
        },
    }
}

/// One function as it was handed to Cranelift: the parameters of its
/// only block, the imports that its calls go to, and the instructions of
/// the block, first to last.
#[derive(Debug, PartialEq, Eq)]
pub struct Listing {
    pub params: Vec<Value>,
    pub funcs: FuncMap,
    pub insts: Vec<Placed>,
}

impl Listing {
    /// The listing is the function of `expr`: a parameter of its own for
    /// each argument slot, then the lowering of `expr` and the return of
    /// its value, and nothing else. No instruction defines a value that a
    /// parameter or another instruction defines.
    pub open spec fn is_function_of(self, expr: Expr) -> bool {
        &&& self.params@.len() == INPUT_SLOTS
        &&& self.params@.no_duplicates()
        &&& self.insts@.len() == code_len(expr) + 1
        &&& self.insts@.last() matches Placed::Return { arg }
        &&& lowers(expr, self.params@, self.funcs, self.insts@.drop_last(), arg)
        &&& single_assignment(self.insts@.drop_last(), self.params@.to_set())
    }

    /// What the function gives back on `args`, where the calls of
    /// built-ins gave back `answers`; `None` where it traps.
    pub open spec fn gives_back(self, args: Seq<int>, answers: Seq<int>) -> Option<int> {
        match self.insts@.last() {
            Placed::Return { arg } => match run(
                self.insts@.drop_last(),
                entry(self.params@, args),
                answers,
            ) {
                Some(end) if end.has(arg) => Some(end.regs[arg]),
                _ => None,
            },
            _ => None,
        }
    }
}

/// The builder holds the function of the listing, whole: one block and
/// no other, sealed, with the parameters and the instructions of the
/// listing, ended by its last instruction.
pub open spec fn holds_function(b: Body, listing: Listing) -> bool {
    &&& b.arity == INPUT_SLOTS
    &&& b.position matches Some(block)
    &&& b.params.dom() == Set::<Block>::empty().insert(block)
    &&& b.params[block] == listing.params@
    &&& b.sealed.contains(block)
    &&& b.filled
    &&& b.insts == listing.insts@
}

/// The state in which a function is entered: each parameter holds its
/// argument, and no call has been made.
pub open spec fn entry(params: Seq<Value>, args: Seq<int>) -> Machine {
    Machine {
        regs: Map::new(
            |v: Value| params.contains(v),
            |v: Value| args[choose|i: int| 0 <= i < params.len() && params[i] == v],
        ),
        asked: 0,
    }
}

/// The function built for an expression computes the value of the
/// expression: on every four arguments and whatever the built-ins give
/// back, it returns what `eval` says, and traps where `eval` has no
/// value.
pub proof fn lemma_function_computes(
    listing: Listing,
    expr: Expr,
    args: Seq<int>,
    answers: Seq<int>,
)
    requires
        listing.is_function_of(expr),
        args.len() == INPUT_SLOTS,
    ensures
        listing.gives_back(args, answers) == eval(expr, args, answers),
{
    let params = listing.params@;
    let m = entry(params, args);
    let code = listing.insts@.drop_last();
    let arg = listing.insts@.last()->Return_arg;
    assert(holds_args(m, params, args));
    assert(m.regs.dom() =~= params.to_set());
    assert(answers.skip(0) =~= answers);
    lemma_lowering_computes(expr, params, listing.funcs, code, arg, args, answers, m);
}

/// The function built for `Input(i)` gives back its `i`-th argument.
pub proof fn lemma_input_gives_argument(
    listing: Listing,
    i: u64,
    args: Seq<int>,
    answers: Seq<int>,
)
    requires
        listing.is_function_of(Expr::Input(i)),
        args.len() == INPUT_SLOTS,
    ensures
        i < INPUT_SLOTS,
        listing.gives_back(args, answers) == Some(args[i as int]),
{
    lemma_function_computes(listing, Expr::Input(i), args, answers);
}

/// The function built for an operator on two literals gives back, on any
/// arguments, the sum, the difference or the product of the two numbers
/// wrapped to 32 bits, their quotient rounded toward zero, or one or
/// zero for a comparison. It traps on a division whose divisor wraps to
/// zero, and on the division of the least integer by minus one.
pub proof fn lemma_literals_give_arithmetic(
    listing: Listing,
    op: BinOp,
    x: i64,
    y: i64,
    args: Seq<int>,
    answers: Seq<int>,
)
    requires
        listing.is_function_of(Expr::BinOp(op, Box::new(Expr::Num(x)), Box::new(Expr::Num(y)))),
        args.len() == INPUT_SLOTS,
    ensures
        listing.gives_back(args, answers) == match op {
            BinOp::Add => Some(wrap32(x + y)),
            BinOp::Sub => Some(wrap32(x - y)),
            BinOp::Mul => Some(wrap32(x * y)),
            BinOp::Div => if wrap32(x as int) == least() && wrap32(y as int) == -1 {
                None
            } else if wrap32(y as int) != 0 {
                Some(quotient(wrap32(x as int), wrap32(y as int)))
            } else {
                None
            },
            BinOp::Eq => Some(
                if wrap32(x as int) == wrap32(y as int) {
                    1int
                } else {
                    0int
                },
            ),
        },
{
    let expr = Expr::BinOp(op, Box::new(Expr::Num(x)), Box::new(Expr::Num(y)));
    lemma_function_computes(listing, expr, args, answers);
    lemma_eval_literals(op, x, y, args, answers);
}

/// The function built for an expression without calls gives back the
/// same on the same arguments, whatever the built-ins would do.
pub proof fn lemma_without_calls_same_result(
    listing: Listing,
    expr: Expr,
    args: Seq<int>,
    answers: Seq<int>,
    others: Seq<int>,
)
    requires
        listing.is_function_of(expr),
        !expr.has_call(),
        args.len() == INPUT_SLOTS,
    ensures
        listing.gives_back(args, answers) == listing.gives_back(args, others),
{
    lemma_function_computes(listing, expr, args, answers);
    lemma_function_computes(listing, expr, args, others);
    lemma_eval_without_calls(expr, args, answers, others);
}

/// The function built for a call of `print` gives back the value of the
/// argument, where `print` does as asked: one call is made after those
/// of the argument, on that value, and its answer is the result.
pub proof fn lemma_print_gives_argument(
    listing: Listing,
    arg: Expr,
    args: Seq<int>,
    answers: Seq<int>,
)
    requires
        listing.is_function_of(Expr::Call(BuiltInFunc::Print, Box::new(arg))),
        args.len() == INPUT_SLOTS,
        listing.gives_back(args, answers) is Some,
        events(Expr::Call(BuiltInFunc::Print, Box::new(arg)), args, answers).last().as_asked(),
    ensures
        listing.gives_back(args, answers) == eval(arg, args, answers),
        events(Expr::Call(BuiltInFunc::Print, Box::new(arg)), args, answers).len() == events(
            arg,
            args,
            answers,
        ).len() + 1,
        events(Expr::Call(BuiltInFunc::Print, Box::new(arg)), args, answers).last().arg == eval(
            arg,
            args,
            answers,
        ).unwrap(),
{
    let expr = Expr::Call(BuiltInFunc::Print, Box::new(arg));
    lemma_function_computes(listing, expr, args, answers);
    lemma_eval_print(arg, args, answers);
}

} // verus!
