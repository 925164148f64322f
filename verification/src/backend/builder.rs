//! The calls into Cranelift, each with what it is taken to do.
//!
//! Nothing in this file is proved: each contract restates what Cranelift's
//! source shows of the call. Blocks, variables, values, globals and
//! function references cross this boundary as the numbers Cranelift gives
//! them. Cranelift keeps the number `u32::MAX` for no entity: in a debug
//! build it panics where one is made from that number, so each number
//! handed in is required to be below it, and each number handed back is.
//! A value refers to the instruction or block that made it in 24 bits, and
//! to its place among results or parameters in 16, so the model counts
//! what a function holds and the wrappers require room for what they add.

use vstd::prelude::*;
use cranelift::codegen::ir::{
    Block, FuncRef, GlobalValue, InstBuilder, MemFlags, Signature, Type, Value,
};
use cranelift::frontend::{FunctionBuilder, Variable};
use cranelift_module::{DataId, FuncId, Module};
use cranelift_object::ObjectModule;
use crate::backend::flow::{Built, Data, Function, Holder, Request, LIMIT, MOST};

verus! {

/// Cranelift's builder of one function, of which nothing is seen but
/// through `built`.
#[verifier::external_type_specification]
#[verifier::external_body]
pub struct ExFunctionBuilder<'a>(FunctionBuilder<'a>);

/// Cranelift's module that becomes an object file, of which nothing is
/// seen but through `functions`, `data_objects` and `pointer_width`.
#[verifier::external_type_specification]
#[verifier::external_body]
pub struct ExObjectModule(ObjectModule);

/// Cranelift's type of a value.
#[verifier::external_type_specification]
#[verifier::external_body]
pub struct ExType(Type);

/// What is known of the function that `builder` builds: how many blocks it
/// has, which block is current, which are filled and which sealed, the
/// variables, values and function references that exist, and the requests
/// that were made of it, oldest first.
pub uninterp spec fn built(builder: FunctionBuilder) -> Built;

/// The functions declared in `module`, each under its number.
pub uninterp spec fn functions(module: ObjectModule) -> Map<nat, Function>;

/// The data objects declared in `module`, each under its number.
pub uninterp spec fn data_objects(module: ObjectModule) -> Map<nat, Data>;

/// The names under which `module` has declared functions and data
/// objects, each with what it stands for.
pub uninterp spec fn symbols(module: ObjectModule) -> Map<Seq<char>, Holder>;

/// The signature that `module` makes for a function that takes values of
/// the types `params` and returns values of the types `results`, each
/// passed in the ordinary way: it has the calling convention of the
/// module's target.
pub uninterp spec fn signed(module: ObjectModule, params: Seq<Type>, results: Seq<Type>) -> Signature;

/// The width in bits of a pointer on the target of `module`.
pub uninterp spec fn pointer_width(module: ObjectModule) -> u8;

/// The size in bytes of the section of `module` that holds its
/// uninitialized data that is not thread-local; zero where it has none.
pub uninterp spec fn uninitialized(module: ObjectModule) -> nat;

/// Holds when `after` is for the target that `before` is for: pointers are
/// as wide, and signatures are made alike.
pub open spec fn same_target(before: ObjectModule, after: ObjectModule) -> bool {
    &&& pointer_width(after) == pointer_width(before)
    &&& forall|params: Seq<Type>, results: Seq<Type>| #[trigger]
        signed(after, params, results) == signed(before, params, results)
}

/// Holds when `after` declares and holds what `before` does, for the same
/// target.
pub open spec fn unchanged(before: ObjectModule, after: ObjectModule) -> bool {
    &&& uninitialized(after) == uninitialized(before)
    &&& functions(after) == functions(before)
    &&& data_objects(after) == data_objects(before)
    &&& symbols(after) == symbols(before)
    &&& same_target(before, after)
}

/// The integer type that is `bits` wide, if Cranelift has one.
pub uninterp spec fn int_type(bits: u16) -> Option<Type>;

/// Holds when `ty` is one of Cranelift's integer types.
pub open spec fn is_int(ty: Type) -> bool {
    exists|bits: u16| int_type(bits) == Some(ty)
}

/// Holds when every variable declared in `graph` has an integer type.
pub open spec fn integral(graph: Built) -> bool {
    forall|var: nat| #[trigger] graph.vars.dom().contains(var) ==> is_int(graph.vars[var])
}

/// `Type::int`: the integer type of the given width. Cranelift has one for
/// 8, 16, 32, 64 and 128 bits, and for no other width.
#[verifier::external_body]
pub(crate) fn integer(bits: u16) -> (ty: Option<Type>)
    ensures
        ty == int_type(bits),
        ty is Some <==> bits == 8 || bits == 16 || bits == 32 || bits == 64 || bits == 128,
{
    Type::int(bits)
}

/// `Module::target_config` with `TargetFrontendConfig::pointer_bits`: the
/// width of a pointer of the target, which is 16, 32 or 64 bits.
#[verifier::external_body]
pub(crate) fn pointer_bits(module: &ObjectModule) -> (bits: u8)
    ensures
        bits == pointer_width(*module),
        bits == 16 || bits == 32 || bits == 64,
{
    module.target_config().pointer_bits()
}

/// `Module::target_config` with `TargetFrontendConfig::pointer_type`: the
/// integer type as wide as a pointer of the target.
#[verifier::external_body]
pub(crate) fn pointer_type(module: &ObjectModule) -> (ty: Type)
    ensures
        Some(ty) == int_type(pointer_width(*module) as u16),
{
    module.target_config().pointer_type()
}

/// `Module::declare_data_in_func`: makes data object `data` of the module
/// known to the function and hands back the global that refers to it. It
/// indexes the module's declarations with `data`, so `data` must be
/// declared. It adds a name and a global to the function.
#[verifier::external_body]
pub(crate) fn import_data(module: &ObjectModule, data: u32, builder: &mut FunctionBuilder) -> (global:
    u32)
    requires
        data < u32::MAX,
        data_objects(*module).dom().contains(data as nat),
        built(*old(builder)).imported < u32::MAX,
    ensures
        global < u32::MAX,
        built(*final(builder)) == (Built {
            imported: built(*final(builder)).imported,
            ..built(*old(builder)).served(
                Request::ImportData { data: data as nat, global: global as nat },
            )
        }),
        built(*final(builder)).imported <= built(*old(builder)).imported + 1,
{
    module.declare_data_in_func(DataId::from_u32(data), builder.func).as_u32()
}

/// `Module::declare_func_in_func`: makes function `func` of the module
/// known to the function and hands back the reference by which it is
/// called, with the signature that `func` was declared with. It indexes the
/// module's declarations with `func`, so `func` must be declared; it
/// changes nothing in the module. It adds a signature, a name and a
/// function reference to the function.
#[verifier::external_body]
pub(crate) fn import_function(
    module: &mut ObjectModule,
    func: u32,
    builder: &mut FunctionBuilder,
) -> (callee: u32)
    requires
        func < u32::MAX,
        functions(*old(module)).dom().contains(func as nat),
        built(*old(builder)).imported < u32::MAX,
    ensures
        callee < u32::MAX,
        unchanged(*old(module), *final(module)),
        built(*final(builder)).imported <= built(*old(builder)).imported + 1,
        built(*final(builder)) == (Built {
            imported: built(*final(builder)).imported,
            callees: built(*old(builder)).callees.insert(
                callee as nat,
                functions(*old(module))[func as nat].returns.len(),
            ),
            ..built(*old(builder)).served(
                Request::ImportFunc { func: func as nat, callee: callee as nat },
            )
        }),
{
    module.declare_func_in_func(FuncId::from_u32(func), builder.func).as_u32()
}

/// `FunctionBuilder::create_block`: makes a block and hands back its number,
/// which is the number of blocks made before it. The block has no
/// parameter, and no variable has a definition in it.
#[verifier::external_body]
pub(crate) fn create_block(builder: &mut FunctionBuilder) -> (block: u32)
    requires
        built(*old(builder)).blocks < u32::MAX,
    ensures
        block < u32::MAX,
        block == built(*old(builder)).blocks,
        built(*final(builder)) == (Built {
            blocks: built(*old(builder)).blocks + 1,
            unsettled: built(*old(builder)).unsettled + built(*old(builder)).declared,
            params: built(*old(builder)).params.insert(block as nat, 0),
            settled: built(*old(builder)).settled.insert(block as nat, 0),
            ..built(*old(builder)).served(Request::CreateBlock { block: block as nat })
        }),
{
    builder.create_block().as_u32()
}

/// `FunctionBuilder::switch_to_block`: makes `block` the current block. In
/// a debug build it panics if `block` is filled, or if the block left
/// behind holds instructions and is not filled.
#[verifier::external_body]
pub(crate) fn switch_to_block(builder: &mut FunctionBuilder, block: u32)
    requires
        block < u32::MAX,
        block < built(*old(builder)).blocks,
        !built(*old(builder)).filled.contains(block as nat),
        built(*old(builder)).current matches Some(left) ==> built(*old(builder)).filled.contains(
            left,
        ),
    ensures
        built(*final(builder)) == (Built {
            current: Some(block as nat),
            ..built(*old(builder)).served(Request::SwitchTo { block: block as nat })
        }),
{
    builder.switch_to_block(Block::from_u32(block))
}

/// `FunctionBuilder::seal_block`: declares that every predecessor of
/// `block` is known. In a debug build it panics on a block that is sealed
/// already. It settles the variables that were read in `block`, which may
/// add values, and a zero where a variable was never set, which it can
/// make for integer types; it fills no block. In a debug build it panics
/// where a value is to refer to an instruction or a block numbered `LIMIT`
/// or more, or to a parameter beyond the 65,536th of its block.
#[verifier::external_body]
pub(crate) fn seal_block(builder: &mut FunctionBuilder, block: u32)
    requires
        block < u32::MAX,
        built(*old(builder)).unsealed(block as nat),
        integral(built(*old(builder))),
        built(*old(builder)).fits(),
    ensures
        built(*final(builder)) == (Built {
            sealed: built(*old(builder)).sealed.insert(block as nat),
            values: built(*final(builder)).values,
            insts: built(*final(builder)).insts,
            made: built(*final(builder)).made,
            unsettled: built(*final(builder)).unsettled,
            pending: built(*final(builder)).pending,
            params: built(*final(builder)).params,
            settled: built(*final(builder)).settled,
            ..built(*old(builder)).served(Request::Seal { block: block as nat })
        }),
        built(*old(builder)).values.submap_of(built(*final(builder)).values),
        built(*old(builder)).settles(built(*final(builder))),
{
    builder.seal_block(Block::from_u32(block))
}

/// `FunctionBuilder::declare_var`: declares variable `var` with type `ty`.
/// It panics if `var` is declared already.
#[verifier::external_body]
pub(crate) fn declare_var(builder: &mut FunctionBuilder, var: u32, ty: Type)
    requires
        var < u32::MAX,
        !built(*old(builder)).vars.dom().contains(var as nat),
        is_int(ty),
    ensures
        built(*final(builder)) == (Built {
            vars: built(*old(builder)).vars.insert(var as nat, ty),
            declared: built(*old(builder)).declared + 1,
            unsettled: built(*old(builder)).unsettled + built(*old(builder)).blocks,
            ..built(*old(builder)).served(Request::DeclareVar { var: var as nat, ty })
        }),
{
    builder.declare_var(Variable::from_u32(var), ty)
}

/// `FunctionBuilder::use_var`: the value of variable `var` at this point of
/// the current block, of the type that `var` was declared with. It panics
/// if `var` is not declared or there is no current block, and in a debug
/// build if that block is filled. Finding the value may add values, and a
/// zero where `var` was never set, which it can make for integer types; it
/// fills no block. In a debug build it panics where a value is to refer to
/// an instruction or a block numbered `LIMIT` or more, or to a parameter
/// beyond the 65,536th of its block.
#[verifier::external_body]
pub(crate) fn use_var(builder: &mut FunctionBuilder, var: u32) -> (value: u32)
    requires
        var < u32::MAX,
        built(*old(builder)).open(),
        built(*old(builder)).vars.dom().contains(var as nat),
        is_int(built(*old(builder)).vars[var as nat]),
        built(*old(builder)).fits(),
    ensures
        value < u32::MAX,
        built(*final(builder)) == (Built {
            values: built(*final(builder)).values,
            insts: built(*final(builder)).insts,
            made: built(*final(builder)).made,
            unsettled: built(*final(builder)).unsettled,
            pending: built(*final(builder)).pending,
            params: built(*final(builder)).params,
            settled: built(*final(builder)).settled,
            ..built(*old(builder)).served(
                Request::UseVar { var: var as nat, value: value as nat },
            )
        }),
        built(*old(builder)).values.submap_of(built(*final(builder)).values),
        built(*old(builder)).settles(built(*final(builder))),
        built(*final(builder)).has(value as nat),
        built(*final(builder)).values[value as nat] == built(*old(builder)).vars[var as nat],
{
    builder.use_var(Variable::from_u32(var)).as_u32()
}

/// `FunctionBuilder::def_var`: sets variable `var` to `value` from this
/// point of the current block on. It panics if `var` is not declared, if
/// `value` is not of its type, or if there is no current block. It makes
/// no instruction and no parameter.
#[verifier::external_body]
pub(crate) fn def_var(builder: &mut FunctionBuilder, var: u32, value: u32)
    requires
        var < u32::MAX,
        value < u32::MAX,
        built(*old(builder)).current is Some,
        built(*old(builder)).vars.dom().contains(var as nat),
        built(*old(builder)).has(value as nat),
        built(*old(builder)).values[value as nat] == built(*old(builder)).vars[var as nat],
    ensures
        built(*final(builder)) == (Built {
            unsettled: built(*final(builder)).unsettled,
            settled: built(*final(builder)).settled,
            ..built(*old(builder)).served(
                Request::DefVar { var: var as nat, value: value as nat },
            )
        }),
        built(*old(builder)).settles(built(*final(builder))),
{
    builder.def_var(Variable::from_u32(var), Value::from_u32(value))
}

/// `FunctionBuilder::ins` with `InstBuilder::global_value`: appends to the
/// current block an instruction whose result, of type `ty`, is the address
/// of `global`. `ins` panics if there is no current block, and appending
/// panics in a debug build if that block is filled; so for every
/// instruction below. The result of an instruction is a value that did not
/// exist before; making it panics in a debug build where the instruction
/// is numbered `LIMIT` or more, so every instruction below is required to
/// be numbered lower.
#[verifier::external_body]
pub(crate) fn ins_global_value(builder: &mut FunctionBuilder, ty: Type, global: u32) -> (value:
    u32)
    requires
        built(*old(builder)).made < u32::MAX,
        built(*old(builder)).insts < LIMIT,
        global < u32::MAX,
        built(*old(builder)).open(),
        is_int(ty),
    ensures
        value < u32::MAX,
        !built(*old(builder)).has(value as nat),
        built(*final(builder)) == built(*old(builder)).with_value(value as nat, ty).emitted(
            Request::GlobalAddr { ty, global: global as nat, value: value as nat },
        ),
{
    builder.ins().global_value(ty, GlobalValue::from_u32(global)).as_u32()
}

/// `InstBuilder::load`, with default memory flags: appends a load of a
/// value of type `ty` from the address `addr` plus `offset`.
#[verifier::external_body]
pub(crate) fn ins_load(builder: &mut FunctionBuilder, ty: Type, addr: u32, offset: i32) -> (value:
    u32)
    requires
        built(*old(builder)).made < u32::MAX,
        built(*old(builder)).insts < LIMIT,
        addr < u32::MAX,
        built(*old(builder)).open(),
        built(*old(builder)).has(addr as nat),
        is_int(ty),
    ensures
        value < u32::MAX,
        !built(*old(builder)).has(value as nat),
        built(*final(builder)) == built(*old(builder)).with_value(value as nat, ty).emitted(
            Request::Load { ty, addr: addr as nat, offset: offset as int, value: value as nat },
        ),
{
    builder.ins().load(ty, MemFlags::new(), Value::from_u32(addr), offset).as_u32()
}

/// `InstBuilder::store`, with default memory flags: appends a store of
/// `value` to the address `addr` plus `offset`.
#[verifier::external_body]
pub(crate) fn ins_store(builder: &mut FunctionBuilder, value: u32, addr: u32, offset: i32)
    requires
        built(*old(builder)).insts < LIMIT,
        value < u32::MAX,
        addr < u32::MAX,
        built(*old(builder)).open(),
        built(*old(builder)).has(value as nat),
        built(*old(builder)).has(addr as nat),
    ensures
        built(*final(builder)) == built(*old(builder)).emitted(
            Request::Store { value: value as nat, addr: addr as nat, offset: offset as int },
        ),
{
    builder.ins().store(MemFlags::new(), Value::from_u32(value), Value::from_u32(addr), offset);
}

/// `InstBuilder::iadd_imm`: appends an addition of the constant `imm` to
/// `arg`. The result has the type of `arg`, and the sum wraps in its width.
#[verifier::external_body]
pub(crate) fn ins_iadd_imm(builder: &mut FunctionBuilder, arg: u32, imm: i64) -> (value: u32)
    requires
        built(*old(builder)).made < u32::MAX,
        built(*old(builder)).insts < LIMIT,
        arg < u32::MAX,
        built(*old(builder)).open(),
        built(*old(builder)).has(arg as nat),
    ensures
        value < u32::MAX,
        !built(*old(builder)).has(value as nat),
        built(*final(builder)) == built(*old(builder)).with_value(
            value as nat,
            built(*old(builder)).values[arg as nat],
        ).emitted(
            Request::AddImm {
                ty: built(*old(builder)).values[arg as nat],
                arg: arg as nat,
                imm: imm as int,
                value: value as nat,
            },
        ),
{
    builder.ins().iadd_imm(Value::from_u32(arg), imm).as_u32()
}

/// `InstBuilder::iconst`: appends an instruction whose result is the
/// constant `imm`, of type `ty`.
#[verifier::external_body]
pub(crate) fn ins_iconst(builder: &mut FunctionBuilder, ty: Type, imm: i64) -> (value: u32)
    requires
        built(*old(builder)).made < u32::MAX,
        built(*old(builder)).insts < LIMIT,
        built(*old(builder)).open(),
        is_int(ty),
    ensures
        value < u32::MAX,
        !built(*old(builder)).has(value as nat),
        built(*final(builder)) == built(*old(builder)).with_value(value as nat, ty).emitted(
            Request::Const { ty, imm: imm as int, value: value as nat },
        ),
{
    builder.ins().iconst(ty, imm).as_u32()
}

/// `InstBuilder::call` with `FunctionBuilder::inst_results`: appends a call
/// of `callee` with `args` and hands back the values that hold what the
/// call returns, one for each value that the function was declared to
/// return. Making the results indexes the function references with
/// `callee`, so `callee` must exist, and it panics on the 65,537th result.
#[verifier::external_body]
pub(crate) fn ins_call(builder: &mut FunctionBuilder, callee: u32, args: &Vec<u32>) -> (results:
    Vec<u32>)
    requires
        built(*old(builder)).insts < LIMIT,
        callee < u32::MAX,
        forall|i: int| 0 <= i < args@.len() ==> #[trigger] args@[i] < u32::MAX,
        built(*old(builder)).open(),
        built(*old(builder)).callees.dom().contains(callee as nat),
        built(*old(builder)).callees[callee as nat] <= MOST,
        built(*old(builder)).made + built(*old(builder)).callees[callee as nat] < u32::MAX,
        forall|i: int| 0 <= i < args@.len() ==> built(*old(builder)).has(#[trigger] args@[i] as nat),
    ensures
        forall|i: int| 0 <= i < results@.len() ==> #[trigger] results@[i] < u32::MAX,
        built(*final(builder)) == (Built {
            values: built(*final(builder)).values,
            made: built(*old(builder)).made + results@.len(),
            ..built(*old(builder)).emitted(
                Request::Call {
                    callee: callee as nat,
                    args: args@.map_values(|v: u32| v as nat),
                    results: results@.map_values(|v: u32| v as nat),
                },
            )
        }),
        built(*old(builder)).values.submap_of(built(*final(builder)).values),
        results@.len() == built(*old(builder)).callees[callee as nat],
        forall|i: int|
            0 <= i < results@.len() ==> built(*final(builder)).has(#[trigger] results@[i] as nat),
{
    let args: Vec<Value> = args.iter().map(|v| Value::from_u32(*v)).collect();
    let call = builder.ins().call(FuncRef::from_u32(callee), &args);
    builder.inst_results(call).iter().map(|v| v.as_u32()).collect()
}

/// `InstBuilder::jump`, without block arguments: appends a jump to `to`,
/// which fills the current block and makes it a predecessor of `to`. In a
/// debug build it panics if `to` is sealed.
#[verifier::external_body]
pub(crate) fn ins_jump(builder: &mut FunctionBuilder, to: u32)
    requires
        built(*old(builder)).insts < LIMIT,
        to < u32::MAX,
        built(*old(builder)).open(),
        built(*old(builder)).unsealed(to as nat),
    ensures
        built(*final(builder)) == built(*old(builder)).ended().emitted(
            Request::Jump { to: to as nat },
        ),
{
    builder.ins().jump(Block::from_u32(to), &[]);
}

/// `InstBuilder::brif`, without block arguments: appends a branch to
/// `nonzero` if `cond` is not zero and to `zero` if it is, which fills the
/// current block and makes it a predecessor of both. In a debug build it
/// panics if either is sealed.
#[verifier::external_body]
pub(crate) fn ins_brif(builder: &mut FunctionBuilder, cond: u32, nonzero: u32, zero: u32)
    requires
        built(*old(builder)).insts < LIMIT,
        cond < u32::MAX,
        nonzero < u32::MAX,
        zero < u32::MAX,
        built(*old(builder)).open(),
        built(*old(builder)).has(cond as nat),
        built(*old(builder)).unsealed(nonzero as nat),
        built(*old(builder)).unsealed(zero as nat),
    ensures
        built(*final(builder)) == built(*old(builder)).ended().emitted(
            Request::Branch { cond: cond as nat, nonzero: nonzero as nat, zero: zero as nat },
        ),
{
    builder.ins().brif(
        Value::from_u32(cond),
        Block::from_u32(nonzero),
        &[],
        Block::from_u32(zero),
        &[],
    );
}

/// `InstBuilder::return_`: appends a return of `values`, which fills the
/// current block.
#[verifier::external_body]
pub(crate) fn ins_return(builder: &mut FunctionBuilder, values: &Vec<u32>)
    requires
        built(*old(builder)).insts < LIMIT,
        forall|i: int| 0 <= i < values@.len() ==> #[trigger] values@[i] < u32::MAX,
        built(*old(builder)).open(),
        forall|i: int|
            0 <= i < values@.len() ==> built(*old(builder)).has(#[trigger] values@[i] as nat),
    ensures
        built(*final(builder)) == built(*old(builder)).ended().emitted(
            Request::Return { values: values@.map_values(|v: u32| v as nat) },
        ),
{
    let values: Vec<Value> = values.iter().map(|v| Value::from_u32(*v)).collect();
    builder.ins().return_(&values);
}

} // verus!
