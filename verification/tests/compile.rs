use cranelift::codegen::data_value::DataValue;
use cranelift::codegen::ir::{types, AbiParam, Function, InstBuilder, Signature, UserFuncName};
use cranelift::codegen::isa::CallConv;
use cranelift::codegen::Context;
use cranelift::codegen::ir::{FuncRef, Value};
use cranelift_expr::backend::Placed;
use cranelift_expr::compiler::{
    call_result, check_signature, declared_symbol, defined_function, FuncMap,
};
use cranelift_expr::{
    build_function, compile_expr, evaluate, parse_expr, BinOp, BuiltInFunc, CompileError, Expr,
    InputRangeError, Listing,
};
use cranelift_module::{FuncId, Linkage, ModuleError};
use cranelift_frontend::{FunctionBuilder, FunctionBuilderContext};
use cranelift_interpreter::environment::FunctionStore;
use cranelift_interpreter::interpreter::{Interpreter, InterpreterState};
use cranelift_interpreter::step::ControlFlow;
use cranelift_jit::{JITBuilder, JITModule};
use cranelift_module::Module;

fn new_module() -> JITModule {
    JITModule::new(JITBuilder::new(cranelift_module::default_libcall_names()).unwrap())
}

/// A context whose function takes `params` 32-bit integers and gives
/// one back.
fn new_context(module: &JITModule, params: usize) -> Context {
    let mut context = module.make_context();
    for _ in 0..params {
        context.func.signature.params.push(AbiParam::new(types::I32));
    }
    context.func.signature.returns.push(AbiParam::new(types::I32));
    context
}

/// The function that `expr` is built to, as Cranelift prints it.
fn listing(expr: &Expr) -> String {
    let mut module = new_module();
    let mut context = new_context(&module, 4);
    build_function(expr, &mut module, &mut context).unwrap();
    context.func.display().to_string()
}

/// A function from one `i32` to one that hands its argument back.
fn identity() -> Function {
    let mut signature = Signature::new(CallConv::SystemV);
    signature.params.push(AbiParam::new(types::I32));
    signature.returns.push(AbiParam::new(types::I32));
    let mut function = Function::with_name_signature(UserFuncName::default(), signature);
    let mut scratch = FunctionBuilderContext::new();
    let mut builder = FunctionBuilder::new(&mut function, &mut scratch);
    let block = builder.create_block();
    builder.append_block_params_for_function_params(block);
    builder.switch_to_block(block);
    builder.seal_block(block);
    let argument = builder.block_params(block)[0];
    builder.ins().return_(&[argument]);
    builder.finalize();
    function
}

/// What `expr` gives on `args` when Cranelift's interpreter runs what it
/// was built to, with both built-ins standing in as the identity.
/// `None` where the run traps.
fn run(expr: &Expr, args: [i32; 4]) -> Option<i32> {
    let mut module = new_module();
    let mut context = new_context(&module, 4);
    build_function(expr, &mut module, &mut context).unwrap();

    let stand_in = identity();
    let mut store = FunctionStore::default();
    store.add("u0:0".to_string(), &stand_in);
    store.add("u0:1".to_string(), &stand_in);
    store.add("main".to_string(), &context.func);
    let state = InterpreterState::default().with_function_store(store);
    let mut interpreter = Interpreter::new(state);
    let args: Vec<DataValue> = args.iter().map(|a| DataValue::I32(*a)).collect();
    match interpreter.call_by_name("main", &args).unwrap() {
        ControlFlow::Return(values) => {
            assert_eq!(values.len(), 1);
            match values[0] {
                DataValue::I32(v) => Some(v),
                _ => panic!("the function gave back something else than an i32"),
            }
        }
        ControlFlow::Trap(_) => None,
        _ => panic!("the function neither returned nor trapped"),
    }
}

fn binop(op: BinOp, lhs: Expr, rhs: Expr) -> Expr {
    Expr::BinOp(op, Box::new(lhs), Box::new(rhs))
}

fn call(func: BuiltInFunc, arg: Expr) -> Expr {
    Expr::Call(func, Box::new(arg))
}

#[test]
fn an_input_gives_its_argument() {
    let args = [11, -22, 33, i32::MIN];
    for i in 0..4 {
        assert_eq!(run(&Expr::Input(i), args), Some(args[i as usize]));
    }
}

#[test]
fn an_input_is_the_return_of_a_parameter() {
    let text = listing(&Expr::Input(2));
    assert!(text.contains("block0(v0: i32, v1: i32, v2: i32, v3: i32):"), "{}", text);
    assert!(text.contains("return v2"), "{}", text);
    assert!(!text.contains("iconst"), "{}", text);
}

#[test]
fn the_function_takes_four_and_gives_one() {
    let text = listing(&Expr::Num(1));
    assert!(text.contains("(i32, i32, i32, i32) -> i32"), "{}", text);
}

#[test]
fn both_built_ins_are_imported_from_i32_to_i32() {
    let text = listing(&Expr::Num(1));
    assert!(text.contains("sig0 = (i32) -> i32"), "{}", text);
    assert!(text.contains("sig1 = (i32) -> i32"), "{}", text);
    assert!(text.contains("fn0 = u0:0 sig0"), "{}", text);
    assert!(text.contains("fn1 = u0:1 sig1"), "{}", text);
}

#[test]
fn a_number_gives_itself() {
    assert_eq!(run(&Expr::Num(0), [1, 2, 3, 4]), Some(0));
    assert_eq!(run(&Expr::Num(-1), [1, 2, 3, 4]), Some(-1));
    assert_eq!(run(&Expr::Num(i32::MAX as i64), [0; 4]), Some(i32::MAX));
    assert_eq!(run(&Expr::Num(i32::MIN as i64), [0; 4]), Some(i32::MIN));
}

#[test]
fn a_number_keeps_its_low_32_bits() {
    assert_eq!(run(&Expr::Num((1i64 << 32) + 5), [0; 4]), Some(5));
    assert_eq!(run(&Expr::Num(i32::MAX as i64 + 1), [0; 4]), Some(i32::MIN));
    assert_eq!(run(&Expr::Num(i64::MIN), [0; 4]), Some(0));
    assert_eq!(run(&Expr::Num(i64::MAX), [0; 4]), Some(-1));
}

#[test]
fn addition_of_literals() {
    assert_eq!(run(&binop(BinOp::Add, Expr::Num(2), Expr::Num(3)), [9; 4]), Some(5));
    assert_eq!(run(&binop(BinOp::Add, Expr::Num(-2), Expr::Num(-3)), [9; 4]), Some(-5));
    assert_eq!(
        run(&binop(BinOp::Add, Expr::Num(i32::MAX as i64), Expr::Num(1)), [0; 4]),
        Some(i32::MIN)
    );
}

#[test]
fn subtraction_of_literals() {
    assert_eq!(run(&binop(BinOp::Sub, Expr::Num(2), Expr::Num(3)), [9; 4]), Some(-1));
    assert_eq!(
        run(&binop(BinOp::Sub, Expr::Num(i32::MIN as i64), Expr::Num(1)), [0; 4]),
        Some(i32::MAX)
    );
}

#[test]
fn multiplication_of_literals() {
    assert_eq!(run(&binop(BinOp::Mul, Expr::Num(-4), Expr::Num(3)), [9; 4]), Some(-12));
    assert_eq!(
        run(&binop(BinOp::Mul, Expr::Num(65536), Expr::Num(65536)), [0; 4]),
        Some(0)
    );
    assert_eq!(
        run(&binop(BinOp::Mul, Expr::Num(i32::MAX as i64), Expr::Num(2)), [0; 4]),
        Some(-2)
    );
}

#[test]
fn division_rounds_toward_zero() {
    assert_eq!(run(&binop(BinOp::Div, Expr::Num(7), Expr::Num(2)), [0; 4]), Some(3));
    assert_eq!(run(&binop(BinOp::Div, Expr::Num(-7), Expr::Num(2)), [0; 4]), Some(-3));
    assert_eq!(run(&binop(BinOp::Div, Expr::Num(7), Expr::Num(-2)), [0; 4]), Some(-3));
    assert_eq!(run(&binop(BinOp::Div, Expr::Num(-7), Expr::Num(-2)), [0; 4]), Some(3));
}

#[test]
fn division_by_zero_traps() {
    assert_eq!(run(&binop(BinOp::Div, Expr::Num(7), Expr::Num(0)), [0; 4]), None);
    assert_eq!(run(&binop(BinOp::Div, Expr::Input(0), Expr::Input(1)), [1, 0, 0, 0]), None);
}

#[test]
fn division_of_the_least_by_minus_one_traps() {
    let expr = binop(BinOp::Div, Expr::Num(i32::MIN as i64), Expr::Num(-1));
    assert_eq!(run(&expr, [0; 4]), None);
}

#[test]
fn equality_gives_one_or_zero() {
    assert_eq!(run(&binop(BinOp::Eq, Expr::Num(5), Expr::Num(5)), [0; 4]), Some(1));
    assert_eq!(run(&binop(BinOp::Eq, Expr::Num(5), Expr::Num(6)), [0; 4]), Some(0));
}

#[test]
fn equality_is_widened_to_32_bits() {
    let text = listing(&binop(BinOp::Eq, Expr::Input(0), Expr::Input(1)));
    assert!(text.contains("v4 = icmp eq v0, v1"), "{}", text);
    assert!(text.contains("v5 = uextend.i32 v4"), "{}", text);
    assert!(text.contains("return v5"), "{}", text);
}

#[test]
fn equality_can_be_an_operand() {
    let expr = binop(
        BinOp::Add,
        binop(BinOp::Eq, Expr::Input(0), Expr::Input(1)),
        binop(BinOp::Eq, Expr::Input(2), Expr::Input(3)),
    );
    assert_eq!(run(&expr, [1, 1, 2, 2]), Some(2));
    assert_eq!(run(&expr, [1, 1, 2, 3]), Some(1));
    assert_eq!(run(&expr, [1, 0, 2, 3]), Some(0));
}

#[test]
fn print_gives_its_argument() {
    assert_eq!(run(&call(BuiltInFunc::Print, Expr::Num(7)), [0; 4]), Some(7));
}

#[test]
fn print_is_called_once() {
    let text = listing(&call(BuiltInFunc::Print, Expr::Num(7)));
    assert_eq!(text.matches("call fn0(").count(), 1, "{}", text);
    assert_eq!(text.matches("call fn1(").count(), 0, "{}", text);
    assert!(text.contains("v4 = iconst.i32 7"), "{}", text);
    assert!(text.contains("v5 = call fn0(v4)"), "{}", text);
    assert!(text.contains("return v5"), "{}", text);
}

#[test]
fn rand_is_called_by_its_own_import() {
    let text = listing(&call(BuiltInFunc::Rand, Expr::Input(3)));
    assert!(text.contains("v4 = call fn1(v3)"), "{}", text);
    assert!(text.contains("return v4"), "{}", text);
}

#[test]
fn operands_come_before_their_operation() {
    let expr = binop(
        BinOp::Sub,
        binop(BinOp::Mul, Expr::Input(0), Expr::Num(3)),
        binop(BinOp::Div, Expr::Input(1), Expr::Num(2)),
    );
    let text = listing(&expr);
    let expected = [
        "v4 = iconst.i32 3",
        "v5 = imul v0, v4",
        "v6 = iconst.i32 2",
        "v7 = sdiv v1, v6",
        "v8 = isub v5, v7",
        "return v8",
    ];
    let mut from = 0;
    for line in expected {
        let at = text[from..].find(line).unwrap_or_else(|| panic!("{} in {}", line, text));
        from += at + line.len();
    }
    assert_eq!(run(&expr, [10, 9, 0, 0]), Some(26));
}

#[test]
fn each_operator_has_its_instruction() {
    let cases = [
        (BinOp::Add, "iadd v0, v1"),
        (BinOp::Sub, "isub v0, v1"),
        (BinOp::Mul, "imul v0, v1"),
        (BinOp::Div, "sdiv v0, v1"),
        (BinOp::Eq, "icmp eq v0, v1"),
    ];
    for (op, inst) in cases {
        let text = listing(&binop(op, Expr::Input(0), Expr::Input(1)));
        assert!(text.contains(inst), "{} in {}", inst, text);
    }
}

#[test]
fn without_calls_the_result_depends_on_the_arguments_alone() {
    let expr = binop(
        BinOp::Mul,
        binop(BinOp::Add, Expr::Input(0), Expr::Input(1)),
        binop(BinOp::Sub, Expr::Input(2), Expr::Input(3)),
    );
    let args = [3, 4, 10, 8];
    assert_eq!(run(&expr, args), run(&expr, args));
    assert_eq!(run(&expr, args), Some(14));
    let text = listing(&expr);
    assert!(!text.contains("call"), "{}", text);
}

#[test]
fn an_input_beyond_the_slots_is_rejected_before_anything_is_built() {
    let mut module = new_module();
    let mut context = new_context(&module, 4);
    assert_eq!(
        build_function(&Expr::Input(4), &mut module, &mut context),
        Err(CompileError::InputRange(InputRangeError { index: 4 }))
    );
    assert_eq!(context.func.dfg.num_blocks(), 0);
    assert_eq!(context.func.dfg.num_insts(), 0);
    assert_eq!(context.func.dfg.ext_funcs.len(), 0);
    assert_eq!(module.declarations().get_functions().count(), 0);
}

#[test]
fn a_function_with_other_parameters_than_slots_is_rejected() {
    for params in [0, 1, 3, 5] {
        let mut module = new_module();
        let mut context = new_context(&module, params);
        assert_eq!(
            build_function(&Expr::Num(1), &mut module, &mut context),
            Err(CompileError::Signature { params })
        );
        assert_eq!(context.func.dfg.num_blocks(), 0);
        assert_eq!(module.declarations().get_functions().count(), 0);
    }
}

#[test]
fn the_input_is_looked_at_before_the_signature() {
    let mut module = new_module();
    let mut context = new_context(&module, 2);
    assert_eq!(
        build_function(&Expr::Input(7), &mut module, &mut context),
        Err(CompileError::InputRange(InputRangeError { index: 7 }))
    );
}

#[test]
fn a_built_in_declared_otherwise_is_reported_by_name() {
    let mut module = new_module();
    let mut other = module.make_signature();
    other.params.push(AbiParam::new(types::I64));
    module.declare_function("rand", Linkage::Import, &other).unwrap();
    let mut context = new_context(&module, 4);
    match build_function(&Expr::Num(1), &mut module, &mut context) {
        Err(CompileError::Declaration { name, reason }) => {
            assert_eq!(name, "rand");
            assert!(!reason.is_empty());
        }
        other => panic!("{:?}", other),
    }
}

#[test]
fn a_taken_name_for_the_function_is_reported() {
    let mut module = new_module();
    module.declare_data("main", Linkage::Local, false, false).unwrap();
    match compile_expr(&Expr::Num(1), module) {
        Err(CompileError::Declaration { name, .. }) => assert_eq!(name, "main"),
        Err(other) => panic!("{:?}", other),
        Ok(_) => panic!("main was declared twice"),
    }
}

#[test]
fn a_call_without_a_value_is_an_error() {
    let value = Value::from_u32(12);
    assert_eq!(call_result(BuiltInFunc::Print, Some(value)), Ok(value));
    assert_eq!(
        call_result(BuiltInFunc::Print, None),
        Err(CompileError::NoResult(BuiltInFunc::Print))
    );
    assert_eq!(
        call_result(BuiltInFunc::Rand, None),
        Err(CompileError::NoResult(BuiltInFunc::Rand))
    );
}

#[test]
fn four_i32_in_and_one_back_are_accepted_and_nothing_else() {
    let int = AbiParam::new(types::I32);
    let long = AbiParam::new(types::I64);
    let wide = AbiParam::new(types::I32).sext();
    assert_eq!(check_signature(&vec![int; 4], &vec![int]), Ok(()));
    for count in [0, 1, 3, 5] {
        assert_eq!(
            check_signature(&vec![int; count], &vec![int]),
            Err(CompileError::Signature { params: count })
        );
    }
    let refused = Err(CompileError::Signature { params: 4 });
    assert_eq!(check_signature(&vec![int, int, long, int], &vec![int]), refused);
    assert_eq!(check_signature(&vec![int, int, int, wide], &vec![int]), refused);
    assert_eq!(check_signature(&vec![int; 4], &vec![]), refused);
    assert_eq!(check_signature(&vec![int; 4], &vec![long]), refused);
    assert_eq!(check_signature(&vec![int; 4], &vec![int, int]), refused);
}

#[test]
fn a_refused_declaration_names_its_symbol() {
    let id = FuncId::from_u32(5);
    assert_eq!(declared_symbol("print", Ok(id)), Ok(id));
    match declared_symbol("print", Err(ModuleError::Undeclared("print".to_string()))) {
        Err(CompileError::Declaration { name, reason }) => {
            assert_eq!(name, "print");
            assert!(reason.contains("print"), "{}", reason);
        }
        other => panic!("{:?}", other),
    }
}

fn some_listing() -> Listing {
    Listing {
        params: vec![Value::from_u32(0)],
        funcs: FuncMap { print: FuncRef::from_u32(0), rand: FuncRef::from_u32(1) },
        insts: vec![Placed::Return { arg: Value::from_u32(0) }],
    }
}

#[test]
fn a_refused_definition_is_a_code_generation_error() {
    let id = FuncId::from_u32(0);
    match defined_function(new_module(), id, some_listing(), Ok(())) {
        Ok(compiled) => {
            assert_eq!(compiled.id, id);
            assert_eq!(compiled.listing, some_listing());
        }
        Err(error) => panic!("{:?}", error),
    }
    let refusal = Err(ModuleError::DuplicateDefinition("main".to_string()));
    match defined_function(new_module(), id, some_listing(), refusal) {
        Err(CompileError::Codegen { reason }) => assert!(reason.contains("main"), "{}", reason),
        Err(other) => panic!("{:?}", other),
        Ok(_) => panic!("a refused definition was taken for a function"),
    }
}

#[test]
fn an_input_beyond_the_slots_is_rejected_wherever_it_stands() {
    let expr = call(
        BuiltInFunc::Print,
        binop(BinOp::Add, Expr::Input(3), binop(BinOp::Mul, Expr::Input(9), Expr::Input(u64::MAX))),
    );
    match compile_expr(&expr, new_module()) {
        Err(error) => assert_eq!(error, CompileError::InputRange(InputRangeError { index: 9 })),
        Ok(_) => panic!("an input beyond the slots was compiled"),
    }
}

#[test]
fn every_slot_is_accepted() {
    for i in 0..4 {
        assert!(compile_expr(&Expr::Input(i), new_module()).is_ok());
    }
}

#[test]
fn compiling_defines_main_in_the_module() {
    let expr = binop(BinOp::Add, Expr::Input(0), Expr::Input(1));
    let mut compiled = match compile_expr(&expr, new_module()) {
        Ok(compiled) => compiled,
        Err(error) => panic!("{:?}", error),
    };
    let id = compiled.id;
    assert_eq!(
        compiled.module.declarations().get_function_decl(id).linkage_name(id),
        "main"
    );
    assert_eq!(compiled.module.declarations().get_functions().count(), 3);
    assert!(compiled.module.finalize_definitions().is_ok());
    assert!(!compiled.module.get_finalized_function(id).is_null());
}

#[test]
fn compiling_twice_into_one_module_is_refused() {
    let expr = Expr::Num(1);
    let compiled = match compile_expr(&expr, new_module()) {
        Ok(compiled) => compiled,
        Err(error) => panic!("{:?}", error),
    };
    match compile_expr(&expr, compiled.module) {
        Err(error) => assert!(matches!(error, CompileError::Codegen { .. })),
        Ok(_) => panic!("main was defined twice"),
    }
}

#[test]
fn source_to_result() {
    let add = parse_expr("$0 + $1").unwrap();
    assert_eq!(run(&add, [3, 4, 0, 0]), Some(7));
    let eq = parse_expr("$0 == $1").unwrap();
    assert_eq!(run(&eq, [2, 2, 0, 0]), Some(1));
    assert_eq!(run(&eq, [2, 3, 0, 0]), Some(0));
    let print = parse_expr("print($0)").unwrap();
    assert_eq!(run(&print, [9, 0, 0, 0]), Some(9));
}

#[test]
fn unused_slots_are_ignored() {
    let expr = parse_expr("$1 * 2").unwrap();
    assert_eq!(run(&expr, [100, 21, 300, 400]), Some(42));
    assert_eq!(run(&expr, [0, 21, 0, 0]), Some(42));
}

#[test]
fn the_built_function_gives_what_the_expression_means() {
    let sources = [
        "$0 + $1",
        "$0 - $1",
        "$0 * $1",
        "$0 / $1",
        "$0 == $1",
        "($0 + $1) * ($2 - $3)",
        "($0 * $0) / ($1 - $2)",
        "(($0 == $1) + ($2 == $3)) * 21",
        "4294967296 + $3",
        "-9223372036854775808 - $0",
        "(2147483647 + $0) / $1",
        "($0 / $1) == ($2 / $3)",
        "(-2147483648 / $1) + 1",
    ];
    let arguments = [
        [0, 0, 0, 0],
        [1, 2, 3, 4],
        [7, -2, -7, 2],
        [i32::MAX, 1, i32::MIN, -1],
        [i32::MIN, -1, i32::MAX, 1],
        [-1, i32::MIN, 1, i32::MAX],
        [65536, 65536, -65536, 65537],
        [12345, 0, -6789, 1],
    ];
    for source in sources {
        let expr = parse_expr(source).unwrap();
        for args in arguments {
            assert_eq!(
                run(&expr, args),
                evaluate(&expr, &args, &[]),
                "{} on {:?}",
                source,
                args
            );
        }
    }
}

#[test]
fn the_built_function_calls_as_the_expression_means() {
    // Both built-ins stand in as the identity, so each call gives back the
    // value of its argument.
    let expr = parse_expr("print($0 + 1) * rand(print($1) - 2)").unwrap();
    let args = [4, 9, 0, 0];
    let answers = [5, 9, 7];
    assert_eq!(evaluate(&expr, &args, &answers), Some(35));
    assert_eq!(run(&expr, args), Some(35));
}

/// The listing and what Cranelift prints of the function it was built in.
fn built(expr: &Expr) -> (Listing, String) {
    let mut module = new_module();
    let mut context = new_context(&module, 4);
    let listing = build_function(expr, &mut module, &mut context).unwrap();
    (listing, context.func.display().to_string())
}

fn value(n: u32) -> Value {
    Value::from_u32(n)
}

#[test]
fn the_listing_of_an_input_is_the_return_of_a_parameter() {
    let (listing, text) = built(&Expr::Input(2));
    assert_eq!(listing.params, vec![value(0), value(1), value(2), value(3)]);
    assert_eq!(listing.insts, vec![Placed::Return { arg: value(2) }]);
    assert!(text.contains("return v2"), "{}", text);
}

#[test]
fn the_listing_of_a_number_is_a_constant_and_its_return() {
    let (listing, text) = built(&Expr::Num(-3));
    assert_eq!(
        listing.insts,
        vec![
            Placed::Const { value: -3, out: value(4) },
            Placed::Return { arg: value(4) },
        ]
    );
    assert!(text.contains("v4 = iconst.i32 -3"), "{}", text);
}

#[test]
fn the_listing_of_an_operator_on_literals() {
    let (listing, _) = built(&binop(BinOp::Add, Expr::Num(2), Expr::Num(3)));
    assert_eq!(
        listing.insts,
        vec![
            Placed::Const { value: 2, out: value(4) },
            Placed::Const { value: 3, out: value(5) },
            Placed::Binary { op: BinOp::Add, lhs: value(4), rhs: value(5), out: value(6) },
            Placed::Return { arg: value(6) },
        ]
    );
}

#[test]
fn the_listing_of_a_comparison_widens_its_result() {
    let (listing, _) = built(&binop(BinOp::Eq, Expr::Input(0), Expr::Input(1)));
    assert_eq!(
        listing.insts,
        vec![
            Placed::Binary { op: BinOp::Eq, lhs: value(0), rhs: value(1), out: value(4) },
            Placed::Widen { arg: value(4), out: value(5) },
            Placed::Return { arg: value(5) },
        ]
    );
}

#[test]
fn the_listing_of_a_call_goes_to_the_import_of_its_built_in() {
    let (listing, _) = built(&call(BuiltInFunc::Rand, call(BuiltInFunc::Print, Expr::Input(3))));
    let funcs = listing.funcs;
    assert_ne!(funcs.print, funcs.rand);
    assert_eq!(funcs.get(BuiltInFunc::Print), funcs.print);
    assert_eq!(funcs.get(BuiltInFunc::Rand), funcs.rand);
    assert_eq!(
        listing.insts,
        vec![
            Placed::Call { func: funcs.print, arg: value(3), first: Some(value(4)) },
            Placed::Call { func: funcs.rand, arg: value(4), first: Some(value(5)) },
            Placed::Return { arg: value(5) },
        ]
    );
}

/// One line of Cranelift's text for one instruction of a listing.
fn printed(inst: &Placed) -> String {
    match inst {
        Placed::Const { value, out } => format!("{} = iconst.i32 {}", out, *value as i32),
        Placed::Binary { op, lhs, rhs, out } => {
            let name = match op {
                BinOp::Add => "iadd",
                BinOp::Sub => "isub",
                BinOp::Mul => "imul",
                BinOp::Div => "sdiv",
                BinOp::Eq => "icmp eq",
            };
            format!("{} = {} {}, {}", out, name, lhs, rhs)
        }
        Placed::Widen { arg, out } => format!("{} = uextend.i32 {}", out, arg),
        Placed::Call { func, arg, first } => match first {
            Some(out) => format!("{} = call {}({})", out, func, arg),
            None => format!("call {}({})", func, arg),
        },
        Placed::Return { arg } => format!("return {}", arg),
    }
}

#[test]
fn the_listing_is_what_cranelift_holds() {
    let sources = [
        "7",
        "$3",
        "$0 + $1",
        "($0 - 1) * ($1 / 2)",
        "print($0 == rand($1 + 5))",
        "(print(1) == print(2)) - (rand($2) * -4)",
    ];
    for source in sources {
        let expr = parse_expr(source).unwrap();
        let (listing, text) = built(&expr);
        let lines: Vec<&str> = text
            .lines()
            .map(|line| line.split(';').next().unwrap_or("").trim())
            .skip_while(|line| !line.starts_with("block0"))
            .skip(1)
            .take_while(|line| !line.starts_with('}'))
            .filter(|line| !line.is_empty())
            .collect();
        let expected: Vec<String> = listing.insts.iter().map(printed).collect();
        assert_eq!(lines, expected, "{}", source);
    }
}

#[test]
fn compiling_keeps_the_listing() {
    let expr = binop(BinOp::Mul, Expr::Input(1), Expr::Num(3));
    let compiled = match compile_expr(&expr, new_module()) {
        Ok(compiled) => compiled,
        Err(error) => panic!("{:?}", error),
    };
    assert_eq!(
        compiled.listing.insts,
        vec![
            Placed::Const { value: 3, out: value(4) },
            Placed::Binary { op: BinOp::Mul, lhs: value(1), rhs: value(4), out: value(5) },
            Placed::Return { arg: value(5) },
        ]
    );
}

#[test]
fn main_is_declared_from_four_i32_to_one() {
    let compiled = match compile_expr(&Expr::Num(1), new_module()) {
        Ok(compiled) => compiled,
        Err(error) => panic!("{:?}", error),
    };
    let signature = &compiled.module.declarations().get_function_decl(compiled.id).signature;
    assert_eq!(signature.params, vec![AbiParam::new(types::I32); 4]);
    assert_eq!(signature.returns, vec![AbiParam::new(types::I32)]);
}

#[test]
fn the_built_ins_are_declared_from_one_i32_to_one() {
    let compiled = match compile_expr(&Expr::Num(1), new_module()) {
        Ok(compiled) => compiled,
        Err(error) => panic!("{:?}", error),
    };
    for name in ["print", "rand"] {
        let id = match compiled.module.declarations().get_name(name) {
            Some(cranelift_module::FuncOrDataId::Func(id)) => id,
            other => panic!("{}: {:?}", name, other),
        };
        let decl = compiled.module.declarations().get_function_decl(id);
        assert_eq!(decl.linkage, Linkage::Import);
        assert_eq!(decl.signature.params, vec![AbiParam::new(types::I32)]);
        assert_eq!(decl.signature.returns, vec![AbiParam::new(types::I32)]);
    }
}

#[test]
fn a_function_that_holds_code_is_rejected() {
    let mut module = new_module();
    let mut context = new_context(&module, 4);
    {
        let mut scratch = FunctionBuilderContext::new();
        let mut builder = FunctionBuilder::new(&mut context.func, &mut scratch);
        let block = builder.create_block();
        builder.append_block_params_for_function_params(block);
        builder.switch_to_block(block);
        builder.seal_block(block);
        let first = builder.block_params(block)[0];
        builder.ins().return_(&[first]);
        builder.finalize();
    }
    let before = context.func.display().to_string();
    assert_eq!(
        build_function(&Expr::Num(1), &mut module, &mut context),
        Err(CompileError::Occupied)
    );
    assert_eq!(context.func.display().to_string(), before);
    assert_eq!(module.declarations().get_functions().count(), 0);
}

#[test]
fn the_input_is_looked_at_before_the_code_that_is_there() {
    let mut module = new_module();
    let mut context = new_context(&module, 4);
    {
        let mut scratch = FunctionBuilderContext::new();
        let mut builder = FunctionBuilder::new(&mut context.func, &mut scratch);
        let block = builder.create_block();
        builder.switch_to_block(block);
        builder.seal_block(block);
        let zero = builder.ins().iconst(types::I32, 0);
        builder.ins().return_(&[zero]);
        builder.finalize();
    }
    assert_eq!(
        build_function(&Expr::Input(4), &mut module, &mut context),
        Err(CompileError::InputRange(InputRangeError { index: 4 }))
    );
}

#[test]
fn the_code_that_is_there_is_looked_at_before_the_signature() {
    let mut module = new_module();
    let mut context = new_context(&module, 2);
    {
        let mut scratch = FunctionBuilderContext::new();
        let mut builder = FunctionBuilder::new(&mut context.func, &mut scratch);
        let block = builder.create_block();
        builder.switch_to_block(block);
        builder.seal_block(block);
        let zero = builder.ins().iconst(types::I32, 0);
        builder.ins().return_(&[zero]);
        builder.finalize();
    }
    assert_eq!(
        build_function(&Expr::Num(1), &mut module, &mut context),
        Err(CompileError::Occupied)
    );
}

#[test]
fn one_block_is_made_and_no_other() {
    let mut module = new_module();
    let mut context = new_context(&module, 4);
    let expr = parse_expr("print(($0 + 1) == rand($1))").unwrap();
    build_function(&expr, &mut module, &mut context).unwrap();
    assert_eq!(context.func.dfg.num_blocks(), 1);
    assert_eq!(context.func.layout.blocks().count(), 1);
}

#[test]
fn each_built_in_is_called_by_the_import_of_its_own_name() {
    let mut module = new_module();
    let mut context = new_context(&module, 4);
    let listing = build_function(&Expr::Num(1), &mut module, &mut context).unwrap();
    for (func, name) in [(BuiltInFunc::Print, "print"), (BuiltInFunc::Rand, "rand")] {
        let id = match module.declarations().get_name(name) {
            Some(cranelift_module::FuncOrDataId::Func(id)) => id,
            other => panic!("{}: {:?}", name, other),
        };
        let func_ref = listing.funcs.get(func);
        let imported = &context.func.dfg.ext_funcs[func_ref];
        let signature = &context.func.dfg.signatures[imported.signature];
        assert_eq!(signature.params, vec![AbiParam::new(types::I32)]);
        assert_eq!(signature.returns, vec![AbiParam::new(types::I32)]);
        assert_eq!(
            imported.name.display(Some(&context.func.params)).to_string(),
            format!("u0:{}", id.as_u32())
        );
    }
}

#[test]
fn built_ins_that_are_declared_already_are_taken_as_they_are() {
    let mut module = new_module();
    let mut unary = module.make_signature();
    unary.params.push(AbiParam::new(types::I32));
    unary.returns.push(AbiParam::new(types::I32));
    let rand = module.declare_function("rand", Linkage::Import, &unary).unwrap();
    let mut context = new_context(&module, 4);
    let expr = call(BuiltInFunc::Rand, Expr::Input(0));
    let listing = build_function(&expr, &mut module, &mut context).unwrap();
    assert_eq!(module.declarations().get_functions().count(), 2);
    let imported = &context.func.dfg.ext_funcs[listing.funcs.rand];
    assert_eq!(
        imported.name.display(Some(&context.func.params)).to_string(),
        format!("u0:{}", rand.as_u32())
    );
}

#[test]
fn a_function_of_other_types_is_rejected() {
    let mut module = new_module();
    let mut context = module.make_context();
    for _ in 0..4 {
        context.func.signature.params.push(AbiParam::new(types::I64));
    }
    context.func.signature.returns.push(AbiParam::new(types::I32));
    assert_eq!(
        build_function(&Expr::Num(1), &mut module, &mut context),
        Err(CompileError::Signature { params: 4 })
    );
    assert_eq!(context.func.dfg.num_blocks(), 0);
    assert_eq!(module.declarations().get_functions().count(), 0);
}

#[test]
fn a_function_that_gives_nothing_back_is_rejected() {
    let mut module = new_module();
    let mut context = module.make_context();
    for _ in 0..4 {
        context.func.signature.params.push(AbiParam::new(types::I32));
    }
    assert_eq!(
        build_function(&Expr::Num(1), &mut module, &mut context),
        Err(CompileError::Signature { params: 4 })
    );
    assert_eq!(module.declarations().get_functions().count(), 0);
}

#[test]
fn the_module_holds_the_code_of_what_was_compiled() {
    let mut compiled = match compile_expr(&Expr::Input(0), new_module()) {
        Ok(compiled) => compiled,
        Err(error) => panic!("{:?}", error),
    };
    let names: Vec<&str> = ["print", "rand", "main"]
        .into_iter()
        .filter(|name| compiled.module.declarations().get_name(name).is_some())
        .collect();
    assert_eq!(names, ["print", "rand", "main"]);
    // Finalizing asks for the code of every function that was defined.
    assert!(compiled.module.finalize_definitions().is_ok());
    assert!(!compiled.module.get_finalized_function(compiled.id).is_null());
}

#[test]
fn with_free_names_the_function_is_built() {
    let mut module = new_module();
    module
        .declare_function("other", Linkage::Local, &module.make_signature())
        .unwrap();
    module.declare_data("table", Linkage::Local, false, false).unwrap();
    let mut context = new_context(&module, 4);
    let expr = parse_expr("print($0) + rand($1)").unwrap();
    assert!(build_function(&expr, &mut module, &mut context).is_ok());
}

#[test]
fn a_built_in_name_taken_by_data_is_refused() {
    let mut module = new_module();
    module.declare_data("print", Linkage::Local, false, false).unwrap();
    let mut context = new_context(&module, 4);
    match build_function(&Expr::Num(1), &mut module, &mut context) {
        Err(CompileError::Declaration { name, .. }) => assert_eq!(name, "print"),
        other => panic!("{:?}", other),
    }
}
