//! What a run of instructions computes, after Cranelift's reference for
//! each of them, and that every instruction defines a value of its own.

use vstd::prelude::*;
use cranelift::codegen::ir::Value;
use crate::backend::Placed;
use crate::semantics::{apply, wrap32};

verus! {

/// The value that an instruction defines, if it defines one.
pub open spec fn out_of(inst: Placed) -> Option<Value> {
    match inst {
        Placed::Const { out, .. } => Some(out),
        Placed::Binary { out, .. } => Some(out),
        Placed::Widen { out, .. } => Some(out),
        Placed::Call { first, .. } => first,
        Placed::Return { .. } => None,
    }
}

/// The values that the instructions of `code` define.
pub open spec fn defined(code: Seq<Placed>) -> Set<Value> {
    Set::new(|v: Value| exists|k: int| 0 <= k < code.len() && #[trigger] out_of(code[k]) == Some(v))
}

/// No instruction of `code` defines a value that is in `known` or that
/// another instruction of `code` defines.
pub open spec fn single_assignment(code: Seq<Placed>, known: Set<Value>) -> bool {
    &&& forall|k: int|
        0 <= k < code.len() ==> (#[trigger] out_of(code[k]) matches Some(v) ==> !known.contains(v))
    &&& forall|j: int, k: int|
        0 <= j < k < code.len() && out_of(code[k]) is Some ==> #[trigger] out_of(code[j])
            != #[trigger] out_of(code[k])
}

/// One more instruction that defines nothing known keeps the
/// assignments single.
pub proof fn lemma_single_assignment_push(code: Seq<Placed>, known: Set<Value>, inst: Placed)
    requires
        single_assignment(code, known),
        out_of(inst) matches Some(v) ==> !known.contains(v) && !defined(code).contains(v),
    ensures
        single_assignment(code.push(inst), known),
        defined(code.push(inst)) == match out_of(inst) {
            Some(v) => defined(code).insert(v),
            None => defined(code),
        },
{
    let more = code.push(inst);
    assert forall|j: int, k: int|
        0 <= j < k < more.len() && out_of(more[k]) is Some implies #[trigger] out_of(more[j])
        != #[trigger] out_of(more[k]) by {}
    lemma_defined_push(code, inst);
}

/// Two runs of single assignments, the second knowing what the first
/// defines, are one.
pub proof fn lemma_single_assignment_concat(a: Seq<Placed>, b: Seq<Placed>, known: Set<Value>)
    requires
        single_assignment(a, known),
        single_assignment(b, known.union(defined(a))),
    ensures
        single_assignment(a + b, known),
        defined(a + b) == defined(a).union(defined(b)),
    decreases b.len(),
{
    if b.len() > 0 {
        let front = b.drop_last();
        assert(single_assignment(front, known.union(defined(a)))) by {
            assert forall|k: int| 0 <= k < front.len() implies front[k] == b[k] by {}
        }
        lemma_single_assignment_concat(a, front, known);
        assert(b =~= front.push(b.last()));
        lemma_single_assignment_push(a + front, known, b.last());
        lemma_defined_push(front, b.last());
    }
}

/// What one more instruction adds to the defined values.
pub proof fn lemma_defined_push(code: Seq<Placed>, inst: Placed)
    ensures
        defined(code.push(inst)) == match out_of(inst) {
            Some(v) => defined(code).insert(v),
            None => defined(code),
        },
{
    let more = code.push(inst);
    let expected = match out_of(inst) {
        Some(v) => defined(code).insert(v),
        None => defined(code),
    };
    assert forall|v: Value| expected.contains(v) implies defined(more).contains(v) by {
        if defined(code).contains(v) {
            let k = choose|k: int| 0 <= k < code.len() && #[trigger] out_of(code[k]) == Some(v);
            assert(more[k] == code[k]);
        } else {
            assert(more[code.len() as int] == inst);
        }
    }
    assert(defined(more) =~= expected);
}

/// The state of a run: the values computed so far, and how many calls of
/// built-ins were made.
pub struct Machine {
    pub regs: Map<Value, int>,
    pub asked: nat,
}

impl Machine {
    /// The state after one more value.
    pub open spec fn set(self, out: Value, v: int) -> Machine {
        Machine { regs: self.regs.insert(out, v), ..self }
    }

    pub open spec fn has(self, v: Value) -> bool {
        self.regs.dom().contains(v)
    }
}

/// What one instruction does to the state; `None` where it traps, where
/// it reads a value that was never computed, and where a call finds no
/// answer.
///
/// * `iconst.i32` gives its immediate, of which the low 32 bits count.
/// * `iadd`, `isub` and `imul` wrap around; `sdiv` rounds toward zero and
///   traps on a zero divisor and on the least integer by minus one.
/// * `icmp eq` gives one where its operands are equal and zero where not;
///   `uextend` keeps that number.
/// * `call` gives what the called function gave back: the next answer.
/// * `return` computes nothing.
pub open spec fn step(inst: Placed, m: Machine, answers: Seq<int>) -> Option<Machine> {
    match inst {
        Placed::Const { value, out } => Some(m.set(out, wrap32(value as int))),
        Placed::Binary { op, lhs, rhs, out } => if m.has(lhs) && m.has(rhs) {
            match apply(op, m.regs[lhs], m.regs[rhs]) {
                Some(v) => Some(m.set(out, v)),
                None => None,
            }
        } else {
            None
        },
        Placed::Widen { arg, out } => if m.has(arg) {
            Some(m.set(out, m.regs[arg]))
        } else {
            None
        },
        Placed::Call { func, arg, first } => if m.has(arg) && m.asked < answers.len() {
            let regs = match first {
                Some(out) => m.regs.insert(out, answers[m.asked as int]),
                None => m.regs,
            };
            Some(Machine { regs, asked: m.asked + 1 })
        } else {
            None
        },
        Placed::Return { .. } => Some(m),
    }
}

/// The state after the instructions of `code`, first to last.
pub open spec fn run(code: Seq<Placed>, m: Machine, answers: Seq<int>) -> Option<Machine>
    decreases code.len(),
{
    if code.len() == 0 {
        Some(m)
    } else {
        match run(code.drop_last(), m, answers) {
            Some(before) => step(code.last(), before, answers),
            None => None,
        }
    }
}

/// Running `a` and then `b` is running `a + b`.
pub proof fn lemma_run_concat(a: Seq<Placed>, b: Seq<Placed>, m: Machine, answers: Seq<int>)
    ensures
        run(a + b, m, answers) == match run(a, m, answers) {
            Some(mid) => run(b, mid, answers),
            None => None,
        },
    decreases b.len(),
{
    if b.len() > 0 {
        lemma_run_concat(a, b.drop_last(), m, answers);
        assert((a + b).drop_last() =~= a + b.drop_last());
    }
}

/// Running one instruction is taking its step.
pub proof fn lemma_run_one(inst: Placed, m: Machine, answers: Seq<int>)
    ensures
        run(seq![inst], m, answers) == step(inst, m, answers),
{
    reveal_with_fuel(run, 2);
}

/// The values defined by two runs of instructions are those of the one
/// and those of the other.
pub proof fn lemma_defined_concat(a: Seq<Placed>, b: Seq<Placed>)
    ensures
        defined(a + b) == defined(a).union(defined(b)),
{
    let ab = a + b;
    assert forall|v: Value| defined(a).union(defined(b)).contains(v) implies defined(
        ab,
    ).contains(v) by {
        if defined(a).contains(v) {
            let k = choose|k: int| 0 <= k < a.len() && #[trigger] out_of(a[k]) == Some(v);
            assert(ab[k] == a[k]);
        }
        if defined(b).contains(v) {
            let k = choose|k: int| 0 <= k < b.len() && #[trigger] out_of(b[k]) == Some(v);
            assert(ab[k + a.len()] == b[k]);
        }
    }
    assert forall|v: Value| defined(ab).contains(v) implies defined(a).union(
        defined(b),
    ).contains(v) by {
        let k = choose|k: int| 0 <= k < ab.len() && #[trigger] out_of(ab[k]) == Some(v);
        if k < a.len() {
            assert(out_of(a[k]) == Some(v));
        } else {
            assert(out_of(b[k - a.len()]) == Some(v));
        }
    }
    assert(defined(ab) =~= defined(a).union(defined(b)));
}

/// Single assignments stay single in the two halves of a run, the second
/// half knowing what the first defines.
pub proof fn lemma_single_assignment_split(a: Seq<Placed>, b: Seq<Placed>, known: Set<Value>)
    requires
        single_assignment(a + b, known),
    ensures
        single_assignment(a, known),
        single_assignment(b, known.union(defined(a))),
{
    let ab = a + b;
    assert forall|k: int| 0 <= k < a.len() implies (#[trigger] out_of(a[k]) matches Some(v)
        ==> !known.contains(v)) by {
        assert(ab[k] == a[k]);
    }
    assert forall|j: int, k: int|
        0 <= j < k < a.len() && out_of(a[k]) is Some implies #[trigger] out_of(a[j])
        != #[trigger] out_of(a[k]) by {
        assert(ab[j] == a[j] && ab[k] == a[k]);
    }
    assert forall|k: int| 0 <= k < b.len() implies (#[trigger] out_of(b[k]) matches Some(v)
        ==> !known.union(defined(a)).contains(v)) by {
        if let Some(v) = out_of(b[k]) {
            if defined(a).contains(v) {
                let j = choose|j: int| 0 <= j < a.len() && #[trigger] out_of(a[j]) == Some(v);
                assert(out_of(ab[j]) != out_of(ab[k + a.len()]));
            }
        }
    }
    assert forall|j: int, k: int|
        0 <= j < k < b.len() && out_of(b[k]) is Some implies #[trigger] out_of(b[j])
        != #[trigger] out_of(b[k]) by {
        assert(ab[j + a.len()] == b[j] && ab[k + a.len()] == b[k]);
    }
}

/// `m` holds each argument in the parameter that stands for it.
pub open spec fn holds_args(m: Machine, params: Seq<Value>, args: Seq<int>) -> bool {
    &&& params.len() == args.len()
    &&& forall|i: int|
        0 <= i < params.len() ==> m.has(#[trigger] params[i]) && m.regs[params[i]] == args[i]
}

/// `after` holds every value that `before` holds.
pub open spec fn keeps(before: Machine, after: Machine) -> bool {
    forall|v: Value| #[trigger] before.has(v) ==> after.has(v) && after.regs[v] == before.regs[v]
}

} // verus!
