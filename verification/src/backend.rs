//! The calls into Cranelift, and what this library takes them to do.
//!
//! Nothing in this file is proved. Each function below makes one call
//! into Cranelift; its contract is what the rest of the library relies
//! on instead of Cranelift's code. The contracts are stated over a few
//! records: [`body`], what has been done through a `FunctionBuilder`
//! since [`start_body`] made it; [`declared`], [`taken`] and
//! [`holds_code`], what a module holds declared, named and compiled;
//! [`frame`], what a context holds before a builder works on it; and
//! [`shape`] and [`slot_of`], the parameters and returns of a signature. No other function of the library makes a builder, and
//! none but these touches one: a builder sees no variable, no jump and
//! no second switch of block.

use vstd::prelude::*;
use cranelift::codegen::ir::condcodes::IntCC;
use cranelift::codegen::ir::{types, AbiParam, Block, FuncRef, InstBuilder, Signature, Value};
use cranelift::codegen::Context;
use cranelift_frontend::{FunctionBuilder, FunctionBuilderContext};
use cranelift_jit::JITModule;
use cranelift_module::{FuncId, Linkage, Module, ModuleError};
use crate::expr::BinOp;

verus! {

#[verifier::external_type_specification]
#[verifier::external_body]
pub struct ExJITModule(cranelift_jit::JITModule);

#[verifier::external_type_specification]
#[verifier::external_body]
pub struct ExModuleError(cranelift_module::ModuleError);

#[verifier::external_type_specification]
#[verifier::external_body]
pub struct ExFuncId(cranelift_module::FuncId);

#[verifier::external_type_specification]
#[verifier::external_body]
pub struct ExContext(cranelift::codegen::Context);

#[verifier::external_type_specification]
#[verifier::external_body]
pub struct ExSignature(cranelift::codegen::ir::Signature);

#[verifier::external_type_specification]
#[verifier::external_body]
pub struct ExAbiParam(cranelift::codegen::ir::AbiParam);

#[verifier::external_type_specification]
#[verifier::external_body]
pub struct ExBlock(cranelift::codegen::ir::Block);

#[verifier::external_type_specification]
#[verifier::external_body]
pub struct ExValue(cranelift::codegen::ir::Value);

#[verifier::external_type_specification]
#[verifier::external_body]
pub struct ExFuncRef(cranelift::codegen::ir::FuncRef);

#[verifier::external_type_specification]
#[verifier::external_body]
pub struct ExFunctionBuilderContext(cranelift_frontend::FunctionBuilderContext);

#[verifier::external_type_specification]
#[verifier::external_body]
pub struct ExFunctionBuilder<'a>(cranelift_frontend::FunctionBuilder<'a>);

/// One instruction as a builder holds it. `out` is the value that the
/// instruction defines.
#[derive(Debug, Clone, Copy, PartialEq, Eq)]
pub enum Placed {
    /// `iconst.i32 value`
    Const { value: i64, out: Value },
    /// `iadd`, `isub`, `imul`, `sdiv` for the four arithmetic operators;
    /// `icmp eq` for `Eq`, whose `out` is eight bits wide.
    Binary { op: BinOp, lhs: Value, rhs: Value, out: Value },
    /// `uextend.i32 arg`
    Widen { arg: Value, out: Value },
    /// `call func(arg)`; `first` is the first value that the call
    /// returns, if it returns any.
    Call { func: FuncRef, arg: Value, first: Option<Value> },
    /// `return arg`
    Return { arg: Value },
}

/// The type of one parameter or return of a signature, as far as this
/// library tells types apart.
pub enum Slot {
    /// An ordinary 32-bit integer: `AbiParam::new(types::I32)`.
    I32,
    /// Anything else.
    Other,
}

/// The parameters and the returns of a signature, first to last.
#[verifier::ext_equal]
pub struct Shape {
    pub params: Seq<Slot>,
    pub returns: Seq<Slot>,
}

impl Shape {
    /// Neither parameters nor returns.
    pub open spec fn none() -> Shape {
        Shape { params: Seq::empty(), returns: Seq::empty() }
    }
}

/// How a declared function is linked, as far as this library tells
/// linkages apart.
pub enum Link {
    /// `Linkage::Import`: defined outside the module.
    Import,
    /// `Linkage::Local`: defined in the module and not seen outside it.
    Local,
    /// Any other linkage.
    Other,
}

/// What a module holds of one declared function.
pub struct Declaration {
    /// The name it was declared under; none for an anonymous function.
    pub name: Option<Seq<char>>,
    /// How it is linked.
    pub link: Link,
    /// The parameters and returns of its signature.
    pub shape: Shape,
}

/// What a function holds of one function that it imports: the
/// declaration in the module that it stands for, and the parameters and
/// returns of the signature it was imported with.
pub struct Callee {
    /// The declaration in the module.
    pub id: FuncId,
    /// The parameters and returns it is called with.
    pub shape: Shape,
}

/// What a context holds before a builder works on it.
pub struct Frame {
    /// The function in it has no block laid out.
    pub empty: bool,
    /// The parameters and returns of that function's signature.
    pub shape: Shape,
}

/// What has been done through a builder since it was made.
#[verifier::ext_equal]
pub struct Body {
    /// The number of parameters in the signature of the function that
    /// the builder was made for.
    pub arity: nat,
    /// The blocks made, each with the parameters given to it.
    pub params: Map<Block, Seq<Value>>,
    /// The blocks sealed.
    pub sealed: Set<Block>,
    /// The functions imported, each with what it was imported as.
    pub funcs: Map<FuncRef, Callee>,
    /// The values handed out: block parameters and results.
    pub values: Set<Value>,
    /// The block switched to.
    pub position: Option<Block>,
    /// The instructions appended, first to last.
    pub insts: Seq<Placed>,
    /// The last of them ends the block.
    pub filled: bool,
}

impl Body {
    /// Nothing done, for a function of `arity` parameters.
    pub open spec fn blank(arity: nat) -> Body {
        Body {
            arity,
            params: Map::empty(),
            sealed: Set::empty(),
            funcs: Map::empty(),
            values: Set::empty(),
            position: None,
            insts: Seq::empty(),
            filled: false,
        }
    }

    /// A block is switched to and can take one more instruction.
    pub open spec fn open(self) -> bool {
        self.position is Some && !self.filled
    }

    /// The record after one more instruction that defines `out`.
    pub open spec fn with(self, inst: Placed, out: Value) -> Body {
        Body { insts: self.insts.push(inst), values: self.values.insert(out), ..self }
    }
}

/// What has been done through `builder` since `start_body` made it.
pub uninterp spec fn body(builder: FunctionBuilder<'_>) -> Body;

/// The parameters and the returns that `signature` holds.
pub uninterp spec fn shape(signature: Signature) -> Shape;

/// The functions declared in `module`, by their identifiers.
pub uninterp spec fn declared(module: JITModule) -> Map<FuncId, Declaration>;

/// The names that `module` holds declared, of functions and of data.
pub uninterp spec fn taken(module: JITModule) -> Set<Seq<char>>;

/// The functions that `module` holds compiled code for.
pub uninterp spec fn holds_code(module: JITModule) -> Set<FuncId>;

/// What `context` holds of its function: see `Frame`.
pub uninterp spec fn frame(context: Context) -> Frame;

/// What `param` is, as far as this library tells types apart.
pub uninterp spec fn slot_of(param: AbiParam) -> Slot;

/// What each of `params` is, first to last.
pub open spec fn slots(params: Seq<AbiParam>) -> Seq<Slot> {
    Seq::new(params.len(), |i: int| slot_of(params[i]))
}

/// `after` holds every declaration of `before`, under its name and with
/// its signature. (A later declaration of the same name may change how
/// it is linked.)
pub open spec fn keeps_declarations(
    before: Map<FuncId, Declaration>,
    after: Map<FuncId, Declaration>,
) -> bool {
    forall|id: FuncId| #[trigger]
        before.dom().contains(id) ==> {
            &&& after.dom().contains(id)
            &&& after[id].name == before[id].name
            &&& after[id].shape == before[id].shape
        }
}

/// `after` is `before` with the declaration `id` added or declared once
/// more: under `name` and with the signature `shape`. Where it is new it
/// is linked as `link`; where it was there, it had that name and that
/// signature before.
pub open spec fn declares(
    before: Map<FuncId, Declaration>,
    after: Map<FuncId, Declaration>,
    id: FuncId,
    name: Seq<char>,
    link: Link,
    shape: Shape,
) -> bool {
    &&& after.dom().contains(id)
    &&& after == before.insert(id, after[id])
    &&& after[id].name == Some(name)
    &&& after[id].shape == shape
    &&& if before.dom().contains(id) {
        before[id].name == Some(name) && before[id].shape == shape
    } else {
        after[id].link == link
    }
}

/// `context` has served no builder since it was made or last cleared.
pub uninterp spec fn unused(context: FunctionBuilderContext) -> bool;

/// `Module::make_context`: a context whose function is empty and whose
/// signature has neither parameters nor returns.
#[verifier::external_body]
pub(crate) fn make_context(module: &JITModule) -> (r: Context)
    ensures
        frame(r) == (Frame { empty: true, shape: Shape::none() }),
{
    module.make_context()
}

/// The parameters of the signature of the function in `context`.
#[verifier::external_body]
pub(crate) fn frame_params(context: &Context) -> (r: Vec<AbiParam>)
    ensures
        slots(r@) == frame(*context).shape.params,
{
    context.func.signature.params.clone()
}

/// The returns of the signature of the function in `context`.
#[verifier::external_body]
pub(crate) fn frame_returns(context: &Context) -> (r: Vec<AbiParam>)
    ensures
        slots(r@) == frame(*context).shape.returns,
{
    context.func.signature.returns.clone()
}

/// `AbiParam`'s `==` against `AbiParam::new(types::I32)`: whether `param`
/// is an ordinary 32-bit integer.
#[verifier::external_body]
pub(crate) fn is_i32(param: &AbiParam) -> (r: bool)
    ensures
        r == (slot_of(*param) is I32),
{
    *param == AbiParam::new(types::I32)
}

/// `Layout::entry_block` of the function in `context`: its first block,
/// which it has unless it is empty.
#[verifier::external_body]
pub(crate) fn first_block(context: &Context) -> (r: Option<Block>)
    ensures
        r is None <==> frame(*context).empty,
{
    context.func.layout.entry_block()
}

/// `Module::make_signature`: a signature without parameters or returns.
#[verifier::external_body]
pub(crate) fn make_signature(module: &JITModule) -> (r: Signature)
    ensures
        shape(r) == Shape::none(),
{
    module.make_signature()
}

/// `AbiParam::new(types::I32)`, appended to the parameters: one more
/// parameter, an ordinary 32-bit integer, after those that were there.
#[verifier::external_body]
pub(crate) fn push_i32_param(signature: &mut Signature)
    ensures
        shape(*final(signature)) == (Shape {
            params: shape(*old(signature)).params.push(Slot::I32),
            ..shape(*old(signature))
        }),
{
    signature.params.push(AbiParam::new(types::I32));
}

/// `AbiParam::new(types::I32)`, appended to the returns: one more
/// return, an ordinary 32-bit integer, after those that were there.
#[verifier::external_body]
pub(crate) fn push_i32_return(signature: &mut Signature)
    ensures
        shape(*final(signature)) == (Shape {
            returns: shape(*old(signature)).returns.push(Slot::I32),
            ..shape(*old(signature))
        }),
{
    signature.returns.push(AbiParam::new(types::I32));
}

/// Gives the function in `context` the signature `signature`, and
/// leaves the rest of the function as it is.
#[verifier::external_body]
pub(crate) fn set_signature(context: &mut Context, signature: Signature)
    ensures
        frame(*final(context)) == (Frame { shape: shape(signature), ..frame(*old(context)) }),
{
    context.func.signature = signature;
}

/// `Module::declare_function` with `Linkage::Import`. A name that the
/// module does not hold yet is always taken. On success the function is
/// declared under `name` with the signature given, and as an import
/// where the name was new; every other declaration is as before. On
/// failure all declarations and names are as before.
#[verifier::external_body]
pub(crate) fn declare_import(module: &mut JITModule, name: &str, signature: &Signature) -> (r:
    Result<FuncId, ModuleError>)
    ensures
        !taken(*old(module)).contains(name@) ==> r is Ok,
        taken(*final(module)) == match r {
            Ok(_) => taken(*old(module)).insert(name@),
            Err(_) => taken(*old(module)),
        },
        holds_code(*final(module)) == holds_code(*old(module)),
        match r {
            Ok(id) => declares(
                declared(*old(module)),
                declared(*final(module)),
                id,
                name@,
                Link::Import,
                shape(*signature),
            ),
            Err(_) => declared(*final(module)) == declared(*old(module)),
        },
{
    module.declare_function(name, Linkage::Import, signature)
}

/// `Module::declare_function` with `Linkage::Local`. A name that the
/// module does not hold yet is always taken. On success the function is
/// declared under `name` with the signature given, and as local where
/// the name was new; every other declaration is as before. On failure
/// every declaration keeps its name and its signature, and the names
/// are as before.
#[verifier::external_body]
pub(crate) fn declare_local(module: &mut JITModule, name: &str, signature: &Signature) -> (r:
    Result<FuncId, ModuleError>)
    ensures
        !taken(*old(module)).contains(name@) ==> r is Ok,
        taken(*final(module)) == match r {
            Ok(_) => taken(*old(module)).insert(name@),
            Err(_) => taken(*old(module)),
        },
        holds_code(*final(module)) == holds_code(*old(module)),
        match r {
            Ok(id) => declares(
                declared(*old(module)),
                declared(*final(module)),
                id,
                name@,
                Link::Local,
                shape(*signature),
            ),
            Err(_) => {
                &&& declared(*final(module)).dom() == declared(*old(module)).dom()
                &&& keeps_declarations(declared(*old(module)), declared(*final(module)))
            },
        },
{
    module.declare_function(name, Linkage::Local, signature)
}

/// `Module::declare_func_in_func` on the function that `builder` builds:
/// imports a declared function, with the signature it was declared with,
/// and gives the new reference to call it by.
#[verifier::external_body]
pub(crate) fn import_function(
    module: &mut JITModule,
    id: FuncId,
    builder: &mut FunctionBuilder<'_>,
) -> (r: FuncRef)
    requires
        declared(*old(module)).dom().contains(id),
    ensures
        declared(*final(module)) == declared(*old(module)),
        taken(*final(module)) == taken(*old(module)),
        holds_code(*final(module)) == holds_code(*old(module)),
        !body(*old(builder)).funcs.dom().contains(r),
        body(*final(builder)) == (Body {
            funcs: body(*old(builder)).funcs.insert(
                r,
                Callee { id, shape: declared(*old(module))[id].shape },
            ),
            ..body(*old(builder))
        }),
{
    module.declare_func_in_func(id, builder.func)
}

/// `Module::define_function`: compiles the function in `context` and,
/// on success, keeps the code under `id`. A function that has code
/// already is refused. On failure the module holds the code it held.
/// Declares nothing.
#[verifier::external_body]
pub(crate) fn define_function(module: &mut JITModule, id: FuncId, context: &mut Context) -> (r:
    Result<(), ModuleError>)
    requires
        declared(*old(module)).dom().contains(id),
    ensures
        declared(*final(module)) == declared(*old(module)),
        taken(*final(module)) == taken(*old(module)),
        holds_code(*old(module)).contains(id) ==> r is Err,
        holds_code(*final(module)) == match r {
            Ok(()) => holds_code(*old(module)).insert(id),
            Err(_) => holds_code(*old(module)),
        },
{
    module.define_function(id, context)
}

/// `Module::clear_context`: the function in `context` is empty again,
/// its signature without parameters or returns.
#[verifier::external_body]
pub(crate) fn clear_context(module: &JITModule, context: &mut Context)
    ensures
        frame(*final(context)) == (Frame { empty: true, shape: Shape::none() }),
{
    module.clear_context(context);
}

/// The text of `ModuleError`'s `Display`.
#[verifier::external_body]
pub(crate) fn error_text(error: &ModuleError) -> String {
    format!("{}", error)
}

/// `FunctionBuilderContext::new`.
#[verifier::external_body]
pub(crate) fn new_builder_context() -> (r: FunctionBuilderContext)
    ensures
        unused(r),
{
    FunctionBuilderContext::new()
}

/// `FunctionBuilder::new` on the empty function in `context`: a builder
/// through which nothing has been done yet, for a function with the
/// parameters that the signature in `context` has.
#[verifier::external_body]
pub(crate) fn start_body<'a>(
    context: &'a mut Context,
    scratch: &'a mut FunctionBuilderContext,
) -> (r: FunctionBuilder<'a>)
    requires
        frame(*old(context)).empty,
        unused(*old(scratch)),
    ensures
        body(r) == Body::blank(frame(*old(context)).shape.params.len()),
{
    FunctionBuilder::new(&mut context.func, scratch)
}

/// `FunctionBuilder::finalize`. The builder wants every block that holds
/// instructions sealed and ended.
#[verifier::external_body]
pub(crate) fn finish_body(builder: FunctionBuilder<'_>)
    requires
        body(builder).position matches Some(block) && body(builder).sealed.contains(block),
        body(builder).filled,
{
    builder.finalize();
}

/// `FunctionBuilder::create_block`: a block that was not there before,
/// without parameters.
#[verifier::external_body]
pub(crate) fn create_block(builder: &mut FunctionBuilder<'_>) -> (r: Block)
    ensures
        !body(*old(builder)).params.dom().contains(r),
        body(*final(builder)) == (Body {
            params: body(*old(builder)).params.insert(r, Seq::empty()),
            ..body(*old(builder))
        }),
{
    builder.create_block()
}

/// `FunctionBuilder::append_block_params_for_function_params`: gives
/// `block` one new value for each parameter of the function's signature.
#[verifier::external_body]
pub(crate) fn append_entry_params(builder: &mut FunctionBuilder<'_>, block: Block)
    requires
        body(*old(builder)).arity <= 0xffff,
        body(*old(builder)).position is None,
        body(*old(builder)).params.dom().contains(block),
        body(*old(builder)).params[block].len() == 0,
    ensures
        body(*final(builder)).params.dom().contains(block),
        body(*final(builder)).params[block].len() == body(*old(builder)).arity,
        body(*final(builder)).params[block].no_duplicates(),
        forall|v: Value|
            body(*final(builder)).params[block].contains(v) ==> !body(*old(builder)).values.contains(
                v,
            ),
        body(*final(builder)) == (Body {
            params: body(*old(builder)).params.insert(block, body(*final(builder)).params[block]),
            values: body(*old(builder)).values.union(
                body(*final(builder)).params[block].to_set(),
            ),
            ..body(*old(builder))
        }),
{
    builder.append_block_params_for_function_params(block);
}

/// `FunctionBuilder::block_params`: the parameters of `block`.
#[verifier::external_body]
pub(crate) fn entry_params(builder: &FunctionBuilder<'_>, block: Block) -> (r: Vec<Value>)
    requires
        body(*builder).params.dom().contains(block),
    ensures
        r@ == body(*builder).params[block],
{
    builder.block_params(block).to_vec()
}

/// `FunctionBuilder::switch_to_block`, for the first and only time.
#[verifier::external_body]
pub(crate) fn switch_to_block(builder: &mut FunctionBuilder<'_>, block: Block)
    requires
        body(*old(builder)).position is None,
        body(*old(builder)).params.dom().contains(block),
    ensures
        body(*final(builder)) == (Body { position: Some(block), ..body(*old(builder)) }),
{
    builder.switch_to_block(block);
}

/// `FunctionBuilder::seal_block`.
#[verifier::external_body]
pub(crate) fn seal_block(builder: &mut FunctionBuilder<'_>, block: Block)
    requires
        body(*old(builder)).params.dom().contains(block),
        !body(*old(builder)).sealed.contains(block),
    ensures
        body(*final(builder)) == (Body {
            sealed: body(*old(builder)).sealed.insert(block),
            ..body(*old(builder))
        }),
{
    builder.seal_block(block);
}

/// `InstBuilder::iconst` with type `I32`: appends the instruction and
/// gives the new value that it defines.
#[verifier::external_body]
pub(crate) fn emit_iconst(builder: &mut FunctionBuilder<'_>, value: i64) -> (out: Value)
    requires
        body(*old(builder)).open(),
    ensures
        !body(*old(builder)).values.contains(out),
        body(*final(builder)) == body(*old(builder)).with(Placed::Const { value, out }, out),
{
    builder.ins().iconst(types::I32, value)
}

/// `InstBuilder::iadd`: appends the instruction and gives the new value
/// that it defines.
#[verifier::external_body]
pub(crate) fn emit_iadd(builder: &mut FunctionBuilder<'_>, lhs: Value, rhs: Value) -> (out: Value)
    requires
        body(*old(builder)).open(),
        body(*old(builder)).values.contains(lhs),
        body(*old(builder)).values.contains(rhs),
    ensures
        !body(*old(builder)).values.contains(out),
        body(*final(builder)) == body(*old(builder)).with(
            Placed::Binary { op: BinOp::Add, lhs, rhs, out },
            out,
        ),
{
    builder.ins().iadd(lhs, rhs)
}

/// `InstBuilder::isub`: appends the instruction and gives the new value
/// that it defines.
#[verifier::external_body]
pub(crate) fn emit_isub(builder: &mut FunctionBuilder<'_>, lhs: Value, rhs: Value) -> (out: Value)
    requires
        body(*old(builder)).open(),
        body(*old(builder)).values.contains(lhs),
        body(*old(builder)).values.contains(rhs),
    ensures
        !body(*old(builder)).values.contains(out),
        body(*final(builder)) == body(*old(builder)).with(
            Placed::Binary { op: BinOp::Sub, lhs, rhs, out },
            out,
        ),
{
    builder.ins().isub(lhs, rhs)
}

/// `InstBuilder::imul`: appends the instruction and gives the new value
/// that it defines.
#[verifier::external_body]
pub(crate) fn emit_imul(builder: &mut FunctionBuilder<'_>, lhs: Value, rhs: Value) -> (out: Value)
    requires
        body(*old(builder)).open(),
        body(*old(builder)).values.contains(lhs),
        body(*old(builder)).values.contains(rhs),
    ensures
        !body(*old(builder)).values.contains(out),
        body(*final(builder)) == body(*old(builder)).with(
            Placed::Binary { op: BinOp::Mul, lhs, rhs, out },
            out,
        ),
{
    builder.ins().imul(lhs, rhs)
}

/// `InstBuilder::sdiv`: appends the instruction and gives the new value
/// that it defines.
#[verifier::external_body]
pub(crate) fn emit_sdiv(builder: &mut FunctionBuilder<'_>, lhs: Value, rhs: Value) -> (out: Value)
    requires
        body(*old(builder)).open(),
        body(*old(builder)).values.contains(lhs),
        body(*old(builder)).values.contains(rhs),
    ensures
        !body(*old(builder)).values.contains(out),
        body(*final(builder)) == body(*old(builder)).with(
            Placed::Binary { op: BinOp::Div, lhs, rhs, out },
            out,
        ),
{
    builder.ins().sdiv(lhs, rhs)
}

/// `InstBuilder::icmp` with `IntCC::Equal`: appends the instruction and
/// gives the new value that it defines.
#[verifier::external_body]
pub(crate) fn emit_equal(builder: &mut FunctionBuilder<'_>, lhs: Value, rhs: Value) -> (out: Value)
    requires
        body(*old(builder)).open(),
        body(*old(builder)).values.contains(lhs),
        body(*old(builder)).values.contains(rhs),
    ensures
        !body(*old(builder)).values.contains(out),
        body(*final(builder)) == body(*old(builder)).with(
            Placed::Binary { op: BinOp::Eq, lhs, rhs, out },
            out,
        ),
{
    builder.ins().icmp(IntCC::Equal, lhs, rhs)
}

/// `InstBuilder::uextend` to type `I32`: appends the instruction and
/// gives the new value that it defines.
#[verifier::external_body]
pub(crate) fn emit_uextend(builder: &mut FunctionBuilder<'_>, arg: Value) -> (out: Value)
    requires
        body(*old(builder)).open(),
        body(*old(builder)).values.contains(arg),
    ensures
        !body(*old(builder)).values.contains(out),
        body(*final(builder)) == body(*old(builder)).with(Placed::Widen { arg, out }, out),
{
    builder.ins().uextend(types::I32, arg)
}

/// `InstBuilder::call` with one argument, then the first of
/// `FunctionBuilder::inst_results`: appends the call and gives the first
/// value that it returns, a new one. A call returns one value for each
/// return of the signature that its function was imported with, so
/// there is a first value exactly where that signature has a return.
#[verifier::external_body]
pub(crate) fn emit_call(builder: &mut FunctionBuilder<'_>, func: FuncRef, arg: Value) -> (out:
    Option<Value>)
    requires
        body(*old(builder)).open(),
        body(*old(builder)).funcs.dom().contains(func),
        body(*old(builder)).values.contains(arg),
    ensures
        out is Some <==> body(*old(builder)).funcs[func].shape.returns.len() > 0,
        out matches Some(v) ==> !body(*old(builder)).values.contains(v),
        body(*final(builder)) == (Body {
            insts: body(*old(builder)).insts.push(Placed::Call { func, arg, first: out }),
            values: match out {
                Some(v) => body(*old(builder)).values.insert(v),
                None => body(*old(builder)).values,
            },
            ..body(*old(builder))
        }),
{
    let call = builder.ins().call(func, &[arg]);
    builder.inst_results(call).first().copied()
}

/// `InstBuilder::return_` with one value: appends the instruction, which
/// ends the block.
#[verifier::external_body]
pub(crate) fn emit_return(builder: &mut FunctionBuilder<'_>, arg: Value)
    requires
        body(*old(builder)).open(),
        body(*old(builder)).values.contains(arg),
    ensures
        body(*final(builder)) == (Body {
            insts: body(*old(builder)).insts.push(Placed::Return { arg }),
            filled: true,
            ..body(*old(builder))
        }),
{
    builder.ins().return_(&[arg]);
}

} // verus!
