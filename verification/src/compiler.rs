//! Lowering of an `Expr` into the body of one Cranelift function, and
//! the definition of that function in a module.
//!
//! The function takes `INPUT_SLOTS` 32-bit integers and returns one. Its
//! body is a single block: the instructions of the expression, operands
//! before the operation that uses them, then `return`. What the
//! instructions are is said in [`crate::lowering`].

use vstd::prelude::*;
use cranelift::codegen::ir::{AbiParam, Block, FuncRef, Signature, Value};
use cranelift::codegen::Context;
use cranelift_frontend::FunctionBuilder;
use cranelift_jit::JITModule;
use cranelift_module::{FuncId, ModuleError};
use crate::backend::{
    append_entry_params, body, clear_context, create_block, declare_import, declare_local,
    declared, declares, define_function, emit_call, emit_equal, emit_iadd, emit_iconst,
    emit_imul, emit_isub, emit_return, emit_sdiv, emit_uextend, entry_params, error_text,
    finish_body, first_block, frame, frame_params, frame_returns, holds_code, import_function,
    is_i32, keeps_declarations, make_context, make_signature, new_builder_context,
    push_i32_param, push_i32_return, seal_block, set_signature, shape, slots, start_body,
    switch_to_block, taken, Body, Declaration, Link, Placed, Shape, Slot,
};
use crate::expr::{BinOp, BuiltInFunc, Expr, InputRangeError, INPUT_SLOTS};
use crate::lowering::{code_len, holds_function, lemma_lowers_len, lowers, Listing};
use crate::machine::{
    defined, lemma_single_assignment_concat, lemma_single_assignment_push, out_of,
    single_assignment,
};

verus! {

/// Why an expression was not compiled.
#[derive(Debug, PartialEq, Eq)]
pub enum CompileError {
    /// An `Input` names no argument slot. Found before any code is
    /// generated.
    InputRange(InputRangeError),
    /// The module refused to declare the symbol `name`.
    Declaration { name: String, reason: String },
    /// The function to build in already holds code.
    Occupied,
    /// The function does not have the signature of a compiled expression;
    /// it has `params` parameters.
    Signature { params: usize },
    /// A call of the built-in gives no value.
    NoResult(BuiltInFunc),
    /// Cranelift could not compile the function.
    Codegen { reason: String },
}

/// The imported function that each built-in is called by.
#[derive(Debug, Clone, Copy, PartialEq, Eq)]
pub struct FuncMap {
    pub print: FuncRef,
    pub rand: FuncRef,
}

impl FuncMap {
    /// The import that calls of `func` go to.
    pub open spec fn of(self, func: BuiltInFunc) -> FuncRef {
        match func {
            BuiltInFunc::Print => self.print,
            BuiltInFunc::Rand => self.rand,
        }
    }

    /// The import that calls of `func` go to.
    pub fn get(&self, func: BuiltInFunc) -> (r: FuncRef)
        ensures
            r == self.of(func),
    {
        match func {
            BuiltInFunc::Print => self.print,
            BuiltInFunc::Rand => self.rand,
        }
    }
}

/// `n` ordinary 32-bit integers.
pub open spec fn i32s(n: nat) -> Seq<Slot> {
    Seq::new(n, |i: int| Slot::I32)
}

/// The shape of the signature of a compiled expression: one 32-bit
/// integer for each argument slot, one 32-bit integer back.
pub open spec fn entry_shape() -> Shape {
    Shape { params: i32s(INPUT_SLOTS as nat), returns: i32s(1) }
}

/// The shape of the signature of a built-in: one 32-bit integer in, one
/// 32-bit integer back.
pub open spec fn unary_shape() -> Shape {
    Shape { params: i32s(1), returns: i32s(1) }
}

/// The name that the compiled function is declared under.
pub open spec fn main_name() -> Seq<char> {
    "main"@
}

/// The three names that the compiler declares are three.
pub proof fn lemma_names_differ()
    ensures
        BuiltInFunc::Print.name() != BuiltInFunc::Rand.name(),
        main_name() != BuiltInFunc::Print.name(),
        main_name() != BuiltInFunc::Rand.name(),
{
    reveal_strlit("print");
    reveal_strlit("rand");
    reveal_strlit("main");
    assert("print"@.len() == 5);
    assert("rand"@.len() == 4);
    assert("main"@[0] == 'm');
    assert("rand"@[0] == 'r');
}

/// `func_ref` is the import of the built-in `func`: the function that the
/// builder builds holds it as an import from one 32-bit integer to one,
/// and it stands for a declaration of `after` that has the name of
/// `func` and that signature. The declaration is an import itself where
/// `before` did not hold it.
pub open spec fn imports(
    b: Body,
    before: Map<FuncId, Declaration>,
    after: Map<FuncId, Declaration>,
    func_ref: FuncRef,
    func: BuiltInFunc,
) -> bool {
    &&& b.funcs.dom().contains(func_ref)
    &&& b.funcs[func_ref].shape == unary_shape()
    &&& is_builtin(before, after, b.funcs[func_ref].id, func)
}

/// `id` is the built-in `func` in `after`: declared under the name of
/// `func`, from one 32-bit integer to one, and as an import where
/// `before` did not hold it.
pub open spec fn is_builtin(
    before: Map<FuncId, Declaration>,
    after: Map<FuncId, Declaration>,
    id: FuncId,
    func: BuiltInFunc,
) -> bool {
    &&& after.dom().contains(id)
    &&& after[id].name == Some(func.name())
    &&& after[id].shape == unary_shape()
    &&& !before.dom().contains(id) ==> after[id].link == Link::Import
}

/// `after` holds the built-in `func`.
pub open spec fn has_builtin(
    before: Map<FuncId, Declaration>,
    after: Map<FuncId, Declaration>,
    func: BuiltInFunc,
) -> bool {
    exists|id: FuncId| #[trigger] is_builtin(before, after, id, func)
}

/// Every declaration that `after` holds and `before` did not is one of
/// a built-in.
pub open spec fn adds_built_ins_only(
    before: Map<FuncId, Declaration>,
    after: Map<FuncId, Declaration>,
) -> bool {
    forall|id: FuncId| #[trigger]
        after.dom().contains(id) && !before.dom().contains(id) ==> after[id].name == Some(
            BuiltInFunc::Print.name(),
        ) || after[id].name == Some(BuiltInFunc::Rand.name())
}

/// Both imports of `map` are there and give one value back.
pub open spec fn callable(b: Body, map: FuncMap) -> bool {
    &&& b.funcs.dom().contains(map.print)
    &&& b.funcs[map.print].shape == unary_shape()
    &&& b.funcs.dom().contains(map.rand)
    &&& b.funcs[map.rand].shape == unary_shape()
}

/// `after` is `before` with instructions appended, each of which defines
/// a value that was not there before.
pub open spec fn grows(before: Body, after: Body) -> bool {
    let code = after.insts.skip(before.insts.len() as int);
    &&& after.arity == before.arity
    &&& after.params == before.params
    &&& after.sealed == before.sealed
    &&& after.funcs == before.funcs
    &&& after.position == before.position
    &&& after.filled == before.filled
    &&& before.insts.len() <= after.insts.len()
    &&& after.insts == before.insts + code
    &&& single_assignment(code, before.values)
    &&& after.values == before.values.union(defined(code))
}

/// Nothing appended.
pub proof fn lemma_grows_not(a: Body)
    ensures
        grows(a, a),
{
    let code = a.insts.skip(a.insts.len() as int);
    assert(a.values =~= a.values.union(defined(code)));
}

/// One instruction appended.
pub proof fn lemma_grows_once(a: Body, b: Body, inst: Placed)
    requires
        b == (Body {
            insts: a.insts.push(inst),
            values: match out_of(inst) {
                Some(v) => a.values.insert(v),
                None => a.values,
            },
            ..a
        }),
        out_of(inst) matches Some(v) ==> !a.values.contains(v),
    ensures
        grows(a, b),
{
    let code = b.insts.skip(a.insts.len() as int);
    assert(code =~= Seq::<Placed>::empty().push(inst));
    assert(b.insts =~= a.insts + code);
    lemma_single_assignment_push(Seq::empty(), a.values, inst);
    assert(b.values =~= a.values.union(defined(code)));
}

/// Appending twice is appending.
pub proof fn lemma_grows_twice(a: Body, b: Body, c: Body)
    requires
        grows(a, b),
        grows(b, c),
    ensures
        grows(a, c),
        c.insts.skip(a.insts.len() as int) == b.insts.skip(a.insts.len() as int) + c.insts.skip(
            b.insts.len() as int,
        ),
{
    let ab = b.insts.skip(a.insts.len() as int);
    let bc = c.insts.skip(b.insts.len() as int);
    let ac = c.insts.skip(a.insts.len() as int);
    assert(ac =~= ab + bc);
    assert(c.insts =~= a.insts + ac);
    lemma_single_assignment_concat(ab, bc, a.values);
    assert(c.values =~= a.values.union(defined(ac)));
}

/// The value of a call, from what the call returned: the first value,
/// and an error where the built-in returns none.
pub fn call_result(func: BuiltInFunc, first: Option<Value>) -> (r: Result<Value, CompileError>)
    ensures
        r == match first {
            Some(v) => Ok::<Value, CompileError>(v),
            None => Err(CompileError::NoResult(func)),
        },
{
    match first {
        Some(v) => Ok(v),
        None => Err(CompileError::NoResult(func)),
    }
}

/// Tells whether `params` are ordinary 32-bit integers, `count` of them.
fn all_i32(params: &Vec<AbiParam>, count: usize) -> (r: bool)
    ensures
        r == (slots(params@) == i32s(count as nat)),
{
    if params.len() != count {
        assert(slots(params@).len() != i32s(count as nat).len());
        return false;
    }
    let mut i: usize = 0;
    while i < count
        invariant
            i <= count,
            count == params.len(),
            forall|k: int| 0 <= k < i ==> slots(params@)[k] == Slot::I32,
        decreases count - i,
    {
        if !is_i32(&params[i]) {
            assert(slots(params@)[i as int] != i32s(count as nat)[i as int]);
            return false;
        }
        i = i + 1;
    }
    assert(slots(params@) =~= i32s(count as nat));
    true
}

/// Accepts the parameters and returns of a signature where they are
/// those of a compiled expression: one 32-bit integer for each argument
/// slot, one 32-bit integer back.
pub fn check_signature(params: &Vec<AbiParam>, results: &Vec<AbiParam>) -> (r: Result<
    (),
    CompileError,
>)
    ensures
        r == if (Shape { params: slots(params@), returns: slots(results@) }) == entry_shape() {
            Ok::<(), CompileError>(())
        } else {
            Err(CompileError::Signature { params: params.len() })
        },
{
    if all_i32(params, 4) && all_i32(results, 1) {
        Ok(())
    } else {
        Err(CompileError::Signature { params: params.len() })
    }
}

/// The identifier of the symbol `name`, from what the module answered
/// to its declaration.
pub fn declared_symbol(name: &str, answer: Result<FuncId, ModuleError>) -> (r: Result<
    FuncId,
    CompileError,
>)
    ensures
        match answer {
            Ok(id) => r == Ok::<FuncId, CompileError>(id),
            Err(_) => r matches Err(CompileError::Declaration { name: n, .. }) && n@ == name@,
        },
{
    match answer {
        Ok(id) => Ok(id),
        Err(e) => Err(CompileError::Declaration { name: name.to_owned(), reason: error_text(&e) }),
    }
}

/// The compiled function, from what the module answered to its
/// definition.
pub fn defined_function(
    module: JITModule,
    id: FuncId,
    listing: Listing,
    answer: Result<(), ModuleError>,
) -> (r: Result<Fn4I32ToI32, CompileError>)
    ensures
        match answer {
            Ok(()) => r matches Ok(compiled) && compiled.module == module && compiled.id == id
                && compiled.listing == listing,
            Err(_) => r matches Err(e) && e is Codegen,
        },
{
    match answer {
        Ok(()) => Ok(Fn4I32ToI32 { module, id, listing }),
        Err(e) => Err(CompileError::Codegen { reason: error_text(&e) }),
    }
}

/// Insert the expression into the block
///
/// The language has no branches, so one walk over the tree, operands
/// first, is all it takes.
pub(crate) fn insert_expr_to_block(
    expr: &Expr,
    builder: &mut FunctionBuilder<'_>,
    params: &Vec<Value>,
    func_map: &FuncMap,
    listing: &mut Vec<Placed>,
) -> (r: Result<Value, CompileError>)
    requires
        expr.inputs_in_range(),
        params.len() == INPUT_SLOTS,
        old(listing)@ == body(*old(builder)).insts,
        body(*old(builder)).open(),
        forall|i: int| 0 <= i < params.len() ==> body(*old(builder)).values.contains(params[i]),
        callable(body(*old(builder)), *func_map),
    ensures
        grows(body(*old(builder)), body(*final(builder))),
        final(listing)@ == body(*final(builder)).insts,
        r matches Ok(out) && body(*final(builder)).values.contains(out) && lowers(
            *expr,
            params@,
            *func_map,
            body(*final(builder)).insts.skip(body(*old(builder)).insts.len() as int),
            out,
        ),
    decreases expr,
{
    let ghost start = body(*builder);
    match expr {
        Expr::Num(n) => {
            let out = emit_iconst(builder, *n);
            listing.push(Placed::Const { value: *n, out });
            proof {
                let inst = Placed::Const { value: *n, out };
                lemma_grows_once(start, body(*builder), inst);
                assert(body(*builder).insts.skip(start.insts.len() as int) =~= seq![inst]);
            }
            Ok(out)
        },
        Expr::Input(i) => {
            proof {
                lemma_grows_not(start);
            }
            Ok(params[*i as usize])
        },
        Expr::BinOp(op, lhs, rhs) => {
            let l = match insert_expr_to_block(lhs, builder, params, func_map, listing) {
                Ok(v) => v,
                Err(e) => { return Err(e); },
            };
            let ghost mid = body(*builder);
            let r = match insert_expr_to_block(rhs, builder, params, func_map, listing) {
                Ok(v) => v,
                Err(e) => {
                    proof {
                        lemma_grows_twice(start, mid, body(*builder));
                    }
                    return Err(e);
                },
            };
            let ghost both = body(*builder);
            let m = match op {
                BinOp::Add => emit_iadd(builder, l, r),
                BinOp::Sub => emit_isub(builder, l, r),
                BinOp::Mul => emit_imul(builder, l, r),
                BinOp::Div => emit_sdiv(builder, l, r),
                BinOp::Eq => emit_equal(builder, l, r),
            };
            listing.push(Placed::Binary { op: *op, lhs: l, rhs: r, out: m });
            let ghost placed = body(*builder);
            let out = match op {
                BinOp::Eq => {
                    let wide = emit_uextend(builder, m);
                    listing.push(Placed::Widen { arg: m, out: wide });
                    wide
                },
                _ => m,
            };
            proof {
                let end = body(*builder);
                let n0 = start.insts.len() as int;
                let code = end.insts.skip(n0);
                let code_l = mid.insts.skip(n0);
                let code_r = both.insts.skip(mid.insts.len() as int);
                let binary = Placed::Binary { op: *op, lhs: l, rhs: r, out: m };
                lemma_grows_once(both, placed, binary);
                if *op == BinOp::Eq {
                    lemma_grows_once(placed, end, Placed::Widen { arg: m, out });
                } else {
                    lemma_grows_not(placed);
                }
                lemma_grows_twice(start, mid, both);
                lemma_grows_twice(both, placed, end);
                lemma_grows_twice(start, both, end);
                lemma_lowers_len(**lhs, params@, *func_map, code_l, l);
                lemma_lowers_len(**rhs, params@, *func_map, code_r, r);
                let nl = code_len(**lhs) as int;
                let nr = code_len(**rhs) as int;
                assert(code.subrange(0, nl) =~= code_l);
                assert(code.subrange(nl, nl + nr) =~= code_r);
            }
            Ok(out)
        },
        Expr::Call(func, arg) => {
            // For function call, find the symbol first.
            let f = func_map.get(*func);
            let a = match insert_expr_to_block(arg, builder, params, func_map, listing) {
                Ok(v) => v,
                Err(e) => { return Err(e); },
            };
            let ghost mid = body(*builder);
            let out = emit_call(builder, f, a);
            listing.push(Placed::Call { func: f, arg: a, first: out });
            proof {
                let end = body(*builder);
                let n0 = start.insts.len() as int;
                let code = end.insts.skip(n0);
                let code_a = mid.insts.skip(n0);
                let call = Placed::Call { func: f, arg: a, first: out };
                lemma_grows_once(mid, end, call);
                lemma_grows_twice(start, mid, end);
                lemma_lowers_len(**arg, params@, *func_map, code_a, a);
                let na = code_len(**arg) as int;
                assert(code.subrange(0, na) =~= code_a);
            }
            call_result(*func, out)
        },
    }
}

/// Build the function with the given expression
pub(crate) fn build_function_with_expr(
    expr: &Expr,
    builder: &mut FunctionBuilder<'_>,
    func_map: &FuncMap,
) -> (r: Result<Listing, CompileError>)
    requires
        expr.inputs_in_range(),
        body(*old(builder)) == (Body {
            funcs: body(*old(builder)).funcs,
            ..Body::blank(INPUT_SLOTS as nat)
        }),
        callable(body(*old(builder)), *func_map),
    ensures
        r matches Ok(listing) && holds_function(body(*final(builder)), listing)
            && listing.is_function_of(*expr) && listing.funcs == *func_map,
        body(*final(builder)).funcs == body(*old(builder)).funcs,
{
    let block = create_block(builder);
    append_entry_params(builder, block);
    switch_to_block(builder, block);
    seal_block(builder, block);

    let params = entry_params(builder, block);
    let ghost start = body(*builder);
    assert forall|i: int| 0 <= i < params.len() implies start.values.contains(params[i]) by {
        assert(params@.to_set().contains(params@[i]));
    }
    assert(start.params.dom() =~= Set::<Block>::empty().insert(block));
    let mut insts: Vec<Placed> = Vec::new();
    let result = match insert_expr_to_block(expr, builder, &params, func_map, &mut insts) {
        Ok(v) => v,
        Err(e) => { return Err(e); },
    };
    let ghost code = body(*builder).insts;
    emit_return(builder, result);
    insts.push(Placed::Return { arg: result });
    proof {
        lemma_lowers_len(*expr, params@, *func_map, code, result);
        assert(code.skip(0) =~= code);
        assert(insts@.drop_last() =~= code);
        assert(start.values =~= params@.to_set());
    }
    Ok(Listing { params, funcs: *func_map, insts })
}

/// The signature of a built-in: one 32-bit integer in, one back.
fn unary_signature(module: &JITModule) -> (r: Signature)
    ensures
        shape(r) == unary_shape(),
{
    let mut signature = make_signature(module);
    push_i32_param(&mut signature);
    push_i32_return(&mut signature);
    assert(shape(signature).params =~= i32s(1));
    assert(shape(signature).returns =~= i32s(1));
    signature
}

/// Declares the built-in `func` in `module`, under its name and as an
/// import from one 32-bit integer to one, and imports it into the
/// function being built. Whether the declaration is taken is the
/// module's to say; where it is not, nothing is changed.
fn declare_runtime_function(
    module: &mut JITModule,
    builder: &mut FunctionBuilder<'_>,
    func: BuiltInFunc,
) -> (r: Result<FuncRef, CompileError>)
    ensures
        !taken(*old(module)).contains(func.name()) ==> r is Ok,
        holds_code(*final(module)) == holds_code(*old(module)),
        match r {
            Ok(func_ref) => {
                &&& taken(*final(module)) == taken(*old(module)).insert(func.name())
                &&& !body(*old(builder)).funcs.dom().contains(func_ref)
                &&& body(*final(builder)) == (Body {
                    funcs: body(*old(builder)).funcs.insert(
                        func_ref,
                        body(*final(builder)).funcs[func_ref],
                    ),
                    ..body(*old(builder))
                })
                &&& body(*final(builder)).funcs[func_ref].shape == unary_shape()
                &&& declares(
                    declared(*old(module)),
                    declared(*final(module)),
                    body(*final(builder)).funcs[func_ref].id,
                    func.name(),
                    Link::Import,
                    unary_shape(),
                )
            },
            Err(e) => {
                &&& e matches CompileError::Declaration { name, .. } && name@ == func.name()
                &&& body(*final(builder)) == body(*old(builder))
                &&& declared(*final(module)) == declared(*old(module))
                &&& taken(*final(module)) == taken(*old(module))
            },
        },
{
    let signature = unary_signature(module);
    let name = func.to_string();
    let answer = declare_import(module, name, &signature);
    match declared_symbol(name, answer) {
        Ok(id) => Ok(import_function(module, id, builder)),
        Err(e) => Err(e),
    }
}

/// Declare runtime functions into the given module.
///
/// Each built-in is declared under its own name, as an import from one
/// 32-bit integer to one, and imported into the function being built;
/// the map gives each built-in the reference that it was imported as.
pub(crate) fn declare_runtime_functions(
    module: &mut JITModule,
    builder: &mut FunctionBuilder<'_>,
) -> (r: Result<FuncMap, CompileError>)
    ensures
        !taken(*old(module)).contains(BuiltInFunc::Print.name()) && !taken(*old(module)).contains(
            BuiltInFunc::Rand.name(),
        ) ==> r is Ok,
        keeps_declarations(declared(*old(module)), declared(*final(module))),
        adds_built_ins_only(declared(*old(module)), declared(*final(module))),
        holds_code(*final(module)) == holds_code(*old(module)),
        match r {
            Ok(map) => {
                &&& taken(*final(module)) == taken(*old(module)).insert(
                    BuiltInFunc::Print.name(),
                ).insert(BuiltInFunc::Rand.name())
                &&& map.print != map.rand
                &&& !body(*old(builder)).funcs.dom().contains(map.print)
                &&& !body(*old(builder)).funcs.dom().contains(map.rand)
                &&& body(*final(builder)) == (Body {
                    funcs: body(*old(builder)).funcs.insert(
                        map.print,
                        body(*final(builder)).funcs[map.print],
                    ).insert(map.rand, body(*final(builder)).funcs[map.rand]),
                    ..body(*old(builder))
                })
                &&& imports(
                    body(*final(builder)),
                    declared(*old(module)),
                    declared(*final(module)),
                    map.print,
                    BuiltInFunc::Print,
                )
                &&& imports(
                    body(*final(builder)),
                    declared(*old(module)),
                    declared(*final(module)),
                    map.rand,
                    BuiltInFunc::Rand,
                )
            },
            Err(e) => {
                &&& e matches CompileError::Declaration { name, .. }
                &&& name@ == BuiltInFunc::Print.name() || name@ == BuiltInFunc::Rand.name()
                &&& taken(*old(module)).contains(name@)
            },
        },
{
    proof {
        lemma_names_differ();
    }
    let print = match declare_runtime_function(module, builder, BuiltInFunc::Print) {
        Ok(func_ref) => func_ref,
        Err(e) => { return Err(e); },
    };
    let rand = match declare_runtime_function(module, builder, BuiltInFunc::Rand) {
        Ok(func_ref) => func_ref,
        Err(e) => { return Err(e); },
    };
    Ok(FuncMap { print, rand })
}

/// The signature of a compiled expression: one 32-bit integer for each
/// argument slot, one 32-bit integer back.
fn entry_signature(module: &JITModule) -> (r: Signature)
    ensures
        shape(r) == entry_shape(),
{
    let mut signature = make_signature(module);
    let mut slot: u64 = 0;
    while slot < INPUT_SLOTS
        invariant
            slot <= INPUT_SLOTS,
            shape(signature) == (Shape { params: i32s(slot as nat), returns: Seq::empty() }),
        decreases INPUT_SLOTS - slot,
    {
        push_i32_param(&mut signature);
        slot = slot + 1;
    }
    push_i32_return(&mut signature);
    signature
}

/// Builds the function of `expr` in `context`, ready to be defined in
/// `module`, and gives its listing.
///
/// Three things are looked at before anything is declared or built, in
/// this order: an `Input` that names no argument slot; a function in
/// `context` that already holds code; a signature in `context` that is
/// not that of a compiled expression. Past these checks the built-ins
/// are declared in `module` and imported, and the body is handed to a
/// `FunctionBuilder` instruction by instruction. A declaration can be
/// refused only where the module holds the name already; nothing else
/// can fail. The listing holds what was handed over.
pub fn build_function(expr: &Expr, module: &mut JITModule, context: &mut Context) -> (r: Result<
    Listing,
    CompileError,
>)
    ensures
        expr.bad_input() is None && frame(*old(context)).empty && frame(*old(context)).shape
            == entry_shape() && !taken(*old(module)).contains(BuiltInFunc::Print.name())
            && !taken(*old(module)).contains(BuiltInFunc::Rand.name()) ==> r is Ok,
        keeps_declarations(declared(*old(module)), declared(*final(module))),
        adds_built_ins_only(declared(*old(module)), declared(*final(module))),
        holds_code(*final(module)) == holds_code(*old(module)),
        match r {
            Ok(listing) => {
                &&& expr.bad_input() is None
                &&& frame(*old(context)).empty
                &&& frame(*old(context)).shape == entry_shape()
                &&& listing.is_function_of(*expr)
                &&& taken(*final(module)) == taken(*old(module)).insert(
                    BuiltInFunc::Print.name(),
                ).insert(BuiltInFunc::Rand.name())
                &&& has_builtin(
                    declared(*old(module)),
                    declared(*final(module)),
                    BuiltInFunc::Print,
                )
                &&& has_builtin(
                    declared(*old(module)),
                    declared(*final(module)),
                    BuiltInFunc::Rand,
                )
            },
            Err(CompileError::InputRange(e)) => {
                &&& expr.bad_input() == Some(e.index)
                &&& declared(*final(module)) == declared(*old(module))
                &&& taken(*final(module)) == taken(*old(module))
            },
            Err(CompileError::Occupied) => {
                &&& expr.bad_input() is None
                &&& !frame(*old(context)).empty
                &&& declared(*final(module)) == declared(*old(module))
                &&& taken(*final(module)) == taken(*old(module))
            },
            Err(CompileError::Signature { params }) => {
                &&& expr.bad_input() is None
                &&& frame(*old(context)).empty
                &&& frame(*old(context)).shape != entry_shape()
                &&& params == frame(*old(context)).shape.params.len()
                &&& declared(*final(module)) == declared(*old(module))
                &&& taken(*final(module)) == taken(*old(module))
            },
            Err(CompileError::Declaration { name, .. }) => {
                &&& expr.bad_input() is None
                &&& frame(*old(context)).empty
                &&& frame(*old(context)).shape == entry_shape()
                &&& name@ == BuiltInFunc::Print.name() || name@ == BuiltInFunc::Rand.name()
                &&& taken(*old(module)).contains(name@)
            },
            Err(CompileError::NoResult(_)) => false,
            Err(CompileError::Codegen { .. }) => false,
        },
{
    match expr.find_bad_input() {
        Some(index) => { return Err(CompileError::InputRange(InputRangeError { index })); },
        None => {},
    }
    proof {
        expr.lemma_bad_input();
    }
    match first_block(context) {
        Some(_) => { return Err(CompileError::Occupied); },
        None => {},
    }
    let params = frame_params(context);
    let results = frame_returns(context);
    match check_signature(&params, &results) {
        Ok(()) => {},
        Err(e) => { return Err(e); },
    }
    let mut scratch = new_builder_context();
    let mut builder = start_body(context, &mut scratch);

    // Before building the function, declare runtime functions
    let func_map = match declare_runtime_functions(module, &mut builder) {
        Ok(map) => map,
        Err(e) => { return Err(e); },
    };
    let listing = match build_function_with_expr(expr, &mut builder, &func_map) {
        Ok(listing) => listing,
        Err(e) => { return Err(e); },
    };
    proof {
        let b = body(builder);
        assert(is_builtin(
            declared(*old(module)),
            declared(*module),
            b.funcs[func_map.print].id,
            BuiltInFunc::Print,
        ));
        assert(is_builtin(
            declared(*old(module)),
            declared(*module),
            b.funcs[func_map.rand].id,
            BuiltInFunc::Rand,
        ));
    }
    finish_body(builder);
    Ok(listing)
}

/// Compiled object, which takes 4 i32 arguments and returns an i32 value
///
/// The module owns the code; `id` names the function in it. The code can
/// be called once the module has finalized its definitions, and for as
/// long as the module lives.
pub struct Fn4I32ToI32 {
    pub module: JITModule,
    pub id: FuncId,
    /// The function as it was handed to Cranelift.
    pub listing: Listing,
}

/// Compile the expression into a single function with cranelift
///
/// The module is the caller's to make, with the symbols `print` and
/// `rand` bound to what the built-ins shall do. An `Input` that names no
/// argument slot is refused before anything is generated. Then the
/// built-ins are declared in the module as imports from one 32-bit
/// integer to one, and the function as `main`, from four 32-bit
/// integers to one. On success the function is defined in the module,
/// which then holds its code and has yet to finalize it. A declaration
/// can be refused only where the module holds the name already; whether
/// the definition is taken is the module's to say; nothing else can
/// fail.
pub fn compile_expr(expr: &Expr, module: JITModule) -> (r: Result<Fn4I32ToI32, CompileError>)
    ensures
        match r {
            Ok(compiled) => {
                &&& expr.bad_input() is None
                &&& compiled.listing.is_function_of(*expr)
                &&& keeps_declarations(declared(module), declared(compiled.module))
                &&& has_builtin(declared(module), declared(compiled.module), BuiltInFunc::Print)
                &&& has_builtin(declared(module), declared(compiled.module), BuiltInFunc::Rand)
                &&& taken(compiled.module) == taken(module).insert(
                    BuiltInFunc::Print.name(),
                ).insert(BuiltInFunc::Rand.name()).insert(main_name())
                &&& holds_code(compiled.module) == holds_code(module).insert(compiled.id)
                &&& !holds_code(module).contains(compiled.id)
                &&& declared(compiled.module).dom().contains(compiled.id)
                &&& declared(compiled.module)[compiled.id].name == Some(main_name())
                &&& declared(compiled.module)[compiled.id].shape == entry_shape()
                &&& !declared(module).dom().contains(compiled.id) ==> declared(
                    compiled.module,
                )[compiled.id].link == Link::Local
            },
            Err(CompileError::InputRange(e)) => expr.bad_input() == Some(e.index),
            Err(CompileError::Declaration { name, .. }) => {
                &&& expr.bad_input() is None
                &&& name@ == BuiltInFunc::Print.name() || name@ == BuiltInFunc::Rand.name()
                    || name@ == main_name()
                &&& taken(module).contains(name@)
            },
            Err(CompileError::Codegen { .. }) => expr.bad_input() is None,
            Err(CompileError::Occupied) => false,
            Err(CompileError::Signature { .. }) => false,
            Err(CompileError::NoResult(_)) => false,
        },
{
    match expr.find_bad_input() {
        Some(index) => { return Err(CompileError::InputRange(InputRangeError { index })); },
        None => {},
    }
    let ghost before = declared(module);
    let mut module = module;
    let mut context = make_context(&module);
    set_signature(&mut context, entry_signature(&module));
    let listing = match build_function(expr, &mut module, &mut context) {
        Ok(listing) => listing,
        Err(e) => { return Err(e); },
    };
    let ghost built = declared(module);

    // Declare and define the main function into the module
    proof {
        lemma_names_differ();
    }
    let signature = entry_signature(&module);
    let answer = declare_local(&mut module, "main", &signature);
    let main_fn = match declared_symbol("main", answer) {
        Ok(id) => id,
        Err(e) => { return Err(e); },
    };
    proof {
        let after = declared(module);
        let print = choose|id: FuncId| #[trigger]
            is_builtin(before, built, id, BuiltInFunc::Print);
        let rand = choose|id: FuncId| #[trigger] is_builtin(before, built, id, BuiltInFunc::Rand);
        assert(is_builtin(before, after, print, BuiltInFunc::Print));
        assert(is_builtin(before, after, rand, BuiltInFunc::Rand));
    }
    let answer = define_function(&mut module, main_fn, &mut context);
    clear_context(&module, &mut context);
    defined_function(module, main_fn, listing, answer)
}

} // verus!
