use brainfreak::backend::object::{assemble, compile, CompileError, Routine, HEAP_SIZE};
use brainfreak::backend::{Backend, Intrinsics};
use brainfreak::inst::Inst;
use brainfreak::opt::Optimizer;
use brainfreak::parser::Parser;
use cranelift::codegen::flowgraph::ControlFlowGraph;
use cranelift::codegen::ir::{types, AbiParam, Block, UserExternalName, UserFuncName};
use cranelift::codegen::settings::{self, Configurable};
use cranelift::codegen::verifier::verify_function;
use cranelift::codegen::Context;
use cranelift::frontend::{FunctionBuilder, FunctionBuilderContext};
use cranelift_module::{
    default_libcall_names, DataDescription, DataId, FuncId, Linkage, Module, ModuleError,
};
use cranelift_object::{ObjectBuilder, ObjectModule};

fn object() -> ObjectBuilder {
    let mut flags = settings::builder();
    flags.set("use_colocated_libcalls", "false").unwrap();
    flags.set("is_pic", "false").unwrap();
    let isa = cranelift_native::builder()
        .unwrap()
        .finish(settings::Flags::new(flags))
        .unwrap();
    ObjectBuilder::new(isa, "", default_libcall_names()).unwrap()
}

fn module() -> ObjectModule {
    ObjectModule::new(object())
}

fn insts(source: &str) -> Vec<Inst> {
    let tokens = Parser::new(source).parse().unwrap();
    let mut optimizer = Optimizer::new();
    optimizer.write_tokens(&tokens);
    optimizer.finish()
}

struct Built {
    module: ObjectModule,
    ctx: Context,
    routine: Routine,
}

impl Built {
    fn blocks(&self) -> usize {
        self.ctx.func.dfg.num_blocks()
    }

    fn text(&self) -> String {
        self.ctx.func.display().to_string()
    }

    fn count(&self, what: &str) -> usize {
        self.text().matches(what).count()
    }
}

fn build(source: &str) -> Built {
    let mut module = module();
    let mut ctx = module.make_context();
    let mut builder_ctx = FunctionBuilderContext::new();
    let routine = {
        let mut builder = FunctionBuilder::new(&mut ctx.func, &mut builder_ctx);
        compile(&insts(source), &mut builder, &mut module).unwrap()
    };
    Built { module, ctx, routine }
}

#[test]
fn heap_is_thirty_two_thousand_bytes() {
    assert_eq!(HEAP_SIZE, 32000);
}

#[test]
fn empty_program_is_one_block_that_returns_zero() {
    let built = build("");
    assert_eq!(built.blocks(), 1);
    assert_eq!(built.ctx.func.layout.blocks().count(), 1);
    assert_eq!(built.count("iconst.i32 0"), 1);
    assert_eq!(built.count("return"), 1);
    assert_eq!(built.count("load"), 0);
    assert_eq!(built.count("store"), 0);
    assert_eq!(built.count("call"), 0);
    assert_eq!(built.count("jump"), 0);
    assert_eq!(built.count("brif"), 0);
}

#[test]
fn program_without_loops_is_one_block() {
    let built = build("++>-<.,");
    assert_eq!(built.blocks(), 1);
    assert_eq!(built.ctx.func.layout.blocks().count(), 1);
}

#[test]
fn each_loop_adds_three_blocks() {
    assert_eq!(build("[]").blocks(), 4);
    assert_eq!(build("[][]").blocks(), 7);
    assert_eq!(build("[[]]").blocks(), 7);
    assert_eq!(build("+[>[-]<[.,]]-").blocks(), 10);
    assert_eq!(build("[[[[]]]][[]]").blocks(), 19);
}

#[test]
fn every_block_made_is_laid_out() {
    let built = build("+[>[-]<[.,]]-");
    assert_eq!(built.ctx.func.layout.blocks().count(), built.blocks());
}

#[test]
fn cell_increment_is_a_byte_load_an_addition_and_a_store() {
    let built = build("+");
    assert_eq!(built.count("load.i8"), 1);
    assert_eq!(built.count("iadd_imm"), 1);
    assert_eq!(built.count(", 1\n"), 1);
    assert_eq!(built.count("store"), 1);
    assert_eq!(built.count("call"), 0);
}

#[test]
fn cell_decrement_adds_minus_one() {
    let built = build("-");
    assert_eq!(built.count("load.i8"), 1);
    assert_eq!(built.count("iadd_imm"), 1);
    assert_eq!(built.count(", -1\n"), 1);
    assert_eq!(built.count("store"), 1);
}

#[test]
fn pointer_moves_touch_no_memory() {
    let built = build("><>");
    assert_eq!(built.count("iadd_imm"), 3);
    assert_eq!(built.count(", 1\n"), 2);
    assert_eq!(built.count(", -1\n"), 1);
    assert_eq!(built.count("load"), 0);
    assert_eq!(built.count("store"), 0);
}

#[test]
fn output_loads_the_cell_and_calls() {
    let built = build(".");
    assert_eq!(built.count("load.i8"), 1);
    assert_eq!(built.count("call fn"), 1);
    assert_eq!(built.count("store"), 0);
}

#[test]
fn input_calls_and_stores_what_came_back() {
    let built = build(",");
    assert_eq!(built.count("call fn"), 1);
    assert_eq!(built.count("store"), 1);
    assert_eq!(built.count("load"), 0);
}

#[test]
fn loop_jumps_in_branches_and_jumps_back() {
    let built = build("[-]");
    assert_eq!(built.blocks(), 4);
    assert_eq!(built.count("brif"), 1);
    assert_eq!(built.count("jump"), 2);
    assert_eq!(built.count("load.i8"), 2);
    assert_eq!(built.count("return"), 1);
}

#[test]
fn transfer_loop_lowers_to_its_instructions() {
    let built = build("++>+++<[->+<]");
    assert_eq!(built.blocks(), 4);
    // Five increments before the loop, a decrement and an increment in it,
    // and the test of the cell in the header.
    assert_eq!(built.count("load.i8"), 8);
    assert_eq!(built.count("store"), 7);
    // Seven cell updates and four pointer moves.
    assert_eq!(built.count("iadd_imm"), 11);
    assert_eq!(built.count("brif"), 1);
    assert_eq!(built.count("jump"), 2);
    assert_eq!(built.count("return"), 1);
}

#[test]
fn built_function_passes_the_verifier() {
    for source in ["", "+", "[-]", "++>+++<[->+<]", ",[.,]", "[[[+]>]<]", "[][[]]+[>[-]<[.,]]-"] {
        let built = build(source);
        verify_function(&built.ctx.func, built.module.isa()).unwrap();
    }
}

#[test]
fn built_function_returns_one_value_and_takes_none() {
    let built = build("+");
    assert!(built.ctx.func.signature.params.is_empty());
    assert_eq!(built.ctx.func.signature.returns, vec![AbiParam::new(types::I32)]);
}

#[test]
fn main_is_exported_and_the_others_are_imported() {
    let built = build("");
    let declarations = built.module.declarations();
    let main = declarations.get_function_decl(FuncId::from_u32(built.routine.main));
    assert_eq!(main.name.as_deref(), Some("main"));
    assert_eq!(main.linkage, Linkage::Export);
    assert!(main.signature.params.is_empty());
    assert_eq!(main.signature.returns, vec![AbiParam::new(types::I32)]);

    let putchar = declarations.get_function_decl(FuncId::from_u32(built.routine.intrinsics.putchar));
    assert_eq!(putchar.name.as_deref(), Some("putchar"));
    assert_eq!(putchar.linkage, Linkage::Import);
    assert_eq!(putchar.signature.params, vec![AbiParam::new(types::I8)]);
    assert_eq!(putchar.signature.returns, vec![AbiParam::new(types::I32)]);

    let getchar = declarations.get_function_decl(FuncId::from_u32(built.routine.intrinsics.getchar));
    assert_eq!(getchar.name.as_deref(), Some("getchar"));
    assert_eq!(getchar.linkage, Linkage::Import);
    assert!(getchar.signature.params.is_empty());
    assert_eq!(getchar.signature.returns, vec![AbiParam::new(types::I8)]);
}

#[test]
fn functions_are_numbered_in_the_order_declared() {
    let built = build("");
    assert_eq!(built.routine.main, 0);
    assert_eq!(built.routine.intrinsics.putchar, 1);
    assert_eq!(built.routine.intrinsics.getchar, 2);
    assert_eq!(built.routine.intrinsics.heap, 0);
}

#[test]
fn heap_is_private_writable_data() {
    let built = build("");
    let heap = built
        .module
        .declarations()
        .get_data_decl(DataId::from_u32(built.routine.intrinsics.heap));
    assert_eq!(heap.name, None);
    assert_eq!(heap.linkage, Linkage::Local);
    assert!(heap.writable);
    assert!(!heap.tls);
}

#[test]
fn compiled_program_can_be_defined_and_emitted() {
    let mut built = build("++>+++<[->+<],.");
    built
        .module
        .define_function(FuncId::from_u32(built.routine.main), &mut built.ctx)
        .unwrap();
    let bytes = built.module.finish().emit().unwrap();
    assert!(bytes.len() > 100);
    let text = String::from_utf8_lossy(&bytes).into_owned();
    assert!(text.contains("main"));
    assert!(text.contains("putchar"));
    assert!(text.contains("getchar"));
}

#[test]
fn compile_fails_where_main_is_declared_otherwise() {
    let mut module = module();
    let mut other = module.make_signature();
    other.params.push(AbiParam::new(types::I64));
    module.declare_function("main", Linkage::Export, &other).unwrap();

    let mut ctx = module.make_context();
    let mut builder_ctx = FunctionBuilderContext::new();
    let mut builder = FunctionBuilder::new(&mut ctx.func, &mut builder_ctx);
    let result = compile(&insts("+"), &mut builder, &mut module);
    assert_eq!(result.unwrap_err(), CompileError::Function);
}

#[test]
fn compile_fails_where_putchar_is_declared_as_data() {
    let mut module = module();
    module.declare_data("putchar", Linkage::Import, false, false).unwrap();

    let mut ctx = module.make_context();
    let mut builder_ctx = FunctionBuilderContext::new();
    let mut builder = FunctionBuilder::new(&mut ctx.func, &mut builder_ctx);
    let result = compile(&insts("+"), &mut builder, &mut module);
    assert_eq!(result.unwrap_err(), CompileError::Function);
}

#[test]
fn compile_error_can_be_copied_and_compared() {
    let error = CompileError::Data;
    let copy = error;
    assert_eq!(error, copy);
    assert_ne!(CompileError::Target, CompileError::Function);
}

#[test]
fn backend_lowers_in_steps() {
    let mut module = module();
    let mut putchar_sig = module.make_signature();
    putchar_sig.params.push(AbiParam::new(types::I8));
    putchar_sig.returns.push(AbiParam::new(types::I32));
    let putchar = module.declare_function("write", Linkage::Import, &putchar_sig).unwrap();
    let mut getchar_sig = module.make_signature();
    getchar_sig.returns.push(AbiParam::new(types::I8));
    let getchar = module.declare_function("read", Linkage::Import, &getchar_sig).unwrap();
    let heap = module.declare_anonymous_data(true, false).unwrap();
    let intrinsics = Intrinsics {
        putchar: putchar.as_u32(),
        getchar: getchar.as_u32(),
        heap: heap.as_u32(),
    };

    let mut ctx = module.make_context();
    ctx.func.signature.returns.push(AbiParam::new(types::I32));
    let mut builder_ctx = FunctionBuilderContext::new();
    {
        let mut builder = FunctionBuilder::new(&mut ctx.func, &mut builder_ctx);
        let backend = Backend::new(&intrinsics, &mut builder, &module);
        assert_eq!(builder.func.dfg.num_blocks(), 1);
        backend.lower(&mut builder, &mut module, &insts(",[.-]"));
        assert_eq!(builder.func.dfg.num_blocks(), 4);
        backend.lower(&mut builder, &mut module, &insts("[]"));
        assert_eq!(builder.func.dfg.num_blocks(), 7);
        backend.finish(&mut builder);
    }
    let text = ctx.func.display().to_string();
    assert_eq!(text.matches("call fn").count(), 2);
    assert_eq!(text.matches("brif").count(), 2);
    assert_eq!(text.matches("return").count(), 1);
    verify_function(&ctx.func, module.isa()).unwrap();
}

#[test]
fn backend_sets_the_data_pointer_to_the_heap() {
    let built = build("");
    assert_eq!(built.count("global_value"), 1);
    assert_eq!(built.count("symbol"), 1);
}

#[test]
fn loop_header_has_two_predecessors_and_the_others_one() {
    let built = build("+[>[-]<[.,]]-[]");
    let cfg = ControlFlowGraph::with_function(&built.ctx.func);
    let loops: u32 = 4;
    assert_eq!(built.blocks(), 13);
    assert_eq!(cfg.pred_iter(Block::from_u32(0)).count(), 0);
    for index in 0..loops {
        let header = Block::from_u32(1 + 3 * index);
        let body = Block::from_u32(2 + 3 * index);
        let exit = Block::from_u32(3 + 3 * index);
        assert_eq!(cfg.pred_iter(header).count(), 2);
        assert_eq!(cfg.pred_iter(body).count(), 1);
        assert_eq!(cfg.pred_iter(exit).count(), 1);
        assert_eq!(cfg.succ_iter(header).collect::<Vec<_>>(), vec![body, exit]);
    }
}

#[test]
fn loop_header_takes_the_data_pointer_as_its_parameter() {
    // The pointer differs between the two ways into the header, so the
    // header, sealed after both are known, merges them in one parameter.
    let built = build("[>]");
    let header = Block::from_u32(1);
    assert_eq!(built.ctx.func.dfg.block_params(header).len(), 1);
}

#[test]
fn built_function_is_named_after_main() {
    let built = build("+");
    assert_eq!(
        built.ctx.func.name,
        UserFuncName::User(UserExternalName::new(0, built.routine.main))
    );
}

#[test]
fn heap_is_defined_once_compiled() {
    let mut built = build("");
    let mut again = DataDescription::new();
    again.define_zeroinit(1);
    let heap = DataId::from_u32(built.routine.intrinsics.heap);
    match built.module.define_data(heap, &again) {
        Err(ModuleError::DuplicateDefinition(_)) => {}
        other => panic!("the heap was not defined: {:?}", other),
    }
}

#[test]
fn emitted_object_reserves_the_heap() {
    let mut built = build("+");
    built
        .module
        .define_function(FuncId::from_u32(built.routine.main), &mut built.ctx)
        .unwrap();
    let product = built.module.finish();
    let heap = product.data_symbol(DataId::from_u32(built.routine.intrinsics.heap));
    assert_eq!(product.object.symbol(heap).size, HEAP_SIZE as u64);
}

#[test]
fn compile_declares_again_what_the_module_has() {
    let mut module = module();
    let mut sig = module.make_signature();
    sig.returns.push(AbiParam::new(types::I8));
    let getchar = module.declare_function("getchar", Linkage::Import, &sig).unwrap();

    let mut ctx = module.make_context();
    let mut builder_ctx = FunctionBuilderContext::new();
    let routine = {
        let mut builder = FunctionBuilder::new(&mut ctx.func, &mut builder_ctx);
        compile(&insts(","), &mut builder, &mut module).unwrap()
    };
    assert_eq!(routine.intrinsics.getchar, getchar.as_u32());
    assert_eq!(routine.main, 1);
    assert_eq!(routine.intrinsics.putchar, 2);
}

#[test]
fn assemble_succeeds_on_this_machine() {
    assert!(assemble(&insts("+[-]"), object()).is_ok());
    assert!(assemble(&[], object()).is_ok());
}

#[test]
fn assembled_empty_program_is_one_block_that_returns_zero() {
    let assembled = assemble(&[], object()).unwrap();
    let func = &assembled.context.func;
    let text = func.display().to_string();
    assert_eq!(func.dfg.num_blocks(), 1);
    assert_eq!(func.layout.blocks().count(), 1);
    assert_eq!(text.matches("iconst.i32 0").count(), 1);
    assert_eq!(text.matches("return").count(), 1);
    for absent in ["load", "store", "call", "jump", "brif"] {
        assert_eq!(text.matches(absent).count(), 0);
    }
}

#[test]
fn assembled_program_has_three_blocks_for_each_loop() {
    let assembled = assemble(&insts("+[>[-]<[.,]]-"), object()).unwrap();
    assert_eq!(assembled.context.func.dfg.num_blocks(), 10);
    verify_function(&assembled.context.func, assembled.module.isa()).unwrap();
}

#[test]
fn assembled_module_declares_three_functions_and_the_tape_only() {
    let assembled = assemble(&insts("+"), object()).unwrap();
    let declarations = assembled.module.declarations();
    assert_eq!(declarations.get_functions().count(), 3);
    assert_eq!(declarations.get_data_objects().count(), 1);
    let exported: Vec<_> = declarations
        .get_functions()
        .filter(|(_, decl)| decl.linkage == Linkage::Export)
        .map(|(_, decl)| decl.name.clone())
        .collect();
    assert_eq!(exported, vec![Some("main".to_string())]);
    let imported: Vec<_> = declarations
        .get_functions()
        .filter(|(_, decl)| decl.linkage == Linkage::Import)
        .map(|(_, decl)| decl.name.clone())
        .collect();
    assert_eq!(
        imported,
        vec![Some("putchar".to_string()), Some("getchar".to_string())]
    );
    let (_, heap) = declarations.get_data_objects().next().unwrap();
    assert_eq!(heap.linkage, Linkage::Local);
    assert_eq!(heap.name, None);
}

#[test]
fn assembled_program_can_be_defined_and_emitted() {
    let mut assembled = assemble(&insts(",[.,]"), object()).unwrap();
    assembled
        .module
        .define_function(FuncId::from_u32(assembled.routine.main), &mut assembled.context)
        .unwrap();
    let product = assembled.module.finish();
    let heap = product.data_symbol(DataId::from_u32(assembled.routine.intrinsics.heap));
    assert_eq!(product.object.symbol(heap).size, HEAP_SIZE as u64);
    assert!(product.emit().unwrap().len() > 100);
}

#[test]
fn compile_succeeds_where_the_names_are_free() {
    let mut module = module();
    let mut other = module.make_signature();
    other.params.push(AbiParam::new(types::I64));
    module.declare_function("helper", Linkage::Local, &other).unwrap();
    module.declare_data("table", Linkage::Export, true, false).unwrap();

    let mut ctx = module.make_context();
    let mut builder_ctx = FunctionBuilderContext::new();
    let routine = {
        let mut builder = FunctionBuilder::new(&mut ctx.func, &mut builder_ctx);
        compile(&insts("+."), &mut builder, &mut module).unwrap()
    };
    assert_eq!(routine.main, 1);
    assert_eq!(routine.intrinsics.putchar, 2);
    assert_eq!(routine.intrinsics.getchar, 3);
    assert_eq!(routine.intrinsics.heap, 1);
    let helper = module.declarations().get_function_decl(FuncId::from_u32(0));
    assert_eq!(helper.name.as_deref(), Some("helper"));
    assert_eq!(helper.linkage, Linkage::Local);
    assert_eq!(helper.signature, other);
}

#[test]
fn compile_fails_where_main_names_data() {
    let mut module = module();
    module.declare_data("main", Linkage::Export, true, false).unwrap();

    let mut ctx = module.make_context();
    let mut builder_ctx = FunctionBuilderContext::new();
    let mut builder = FunctionBuilder::new(&mut ctx.func, &mut builder_ctx);
    let result = compile(&insts("+"), &mut builder, &mut module);
    assert_eq!(result.unwrap_err(), CompileError::Function);
}

#[test]
fn program_that_takes_too_much_room_is_refused() {
    // Each cell update takes three instructions, and 5,592,404 of them one
    // more than a function has room for.
    let program = vec![Inst::DataInc; 5_592_404];
    match assemble(&program, object()) {
        Err(error) => assert_eq!(error, CompileError::TooLarge),
        Ok(_) => panic!("a program beyond the limit was built"),
    }
}

#[test]
fn deeply_nested_program_that_takes_too_much_room_is_refused() {
    let mut program = vec![Inst::DataInc; 16];
    for _ in 0..2_000 {
        let mut outer = vec![Inst::Loop(program)];
        outer.extend(vec![Inst::PtrInc; 8_400]);
        program = outer;
    }
    match assemble(&program, object()) {
        Err(error) => assert_eq!(error, CompileError::TooLarge),
        Ok(_) => panic!("a program beyond the limit was built"),
    }
}

#[test]
fn program_of_a_hundred_thousand_instructions_is_built() {
    let mut program = vec![Inst::DataInc; 30_000];
    for _ in 0..100 {
        program.push(Inst::Loop(vec![Inst::DataDec, Inst::PtrInc, Inst::Output]));
    }
    let assembled = assemble(&program, object()).unwrap();
    assert_eq!(assembled.context.func.dfg.num_blocks(), 301);
    assert!(assembled.context.func.dfg.num_insts() >= 90_000);
}

#[test]
fn largest_room_is_below_the_limit_of_a_value() {
    assert_eq!(brainfreak::backend::object::LARGEST, (1 << 24) - 1 - 5);
    assert_eq!(brainfreak::backend::flow::LIMIT, (1 << 24) - 1);
    assert_eq!(brainfreak::backend::flow::MOST, 65_536);
}
