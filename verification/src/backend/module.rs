//! The calls into Cranelift's module, each with what it is taken to do.
//!
//! Nothing in this file is proved: each contract restates what Cranelift's
//! source shows of the call.

use vstd::prelude::*;
use cranelift::codegen::ir::{AbiParam, Signature, Type, UserExternalName, UserFuncName};
use cranelift::codegen::Context;
use cranelift::frontend::{FunctionBuilder, FunctionBuilderContext};
use cranelift_module::{DataDescription, DataId, Module, ModuleError};
use cranelift_object::{ObjectBuilder, ObjectModule};
use crate::backend::builder::{
    built, data_objects, functions, pointer_width, same_target, signed, symbols, uninitialized,
};
use crate::backend::flow::{Built, Data, Holder, Linkage, Request};

verus! {

/// Cranelift's signature of a function, of which nothing is seen but
/// through `params_of` and `returns_of`.
#[verifier::external_type_specification]
#[verifier::external_body]
pub struct ExSignature(Signature);

/// Cranelift's reason for refusing a declaration or a definition.
#[verifier::external_type_specification]
#[verifier::external_body]
pub struct ExModuleError(ModuleError);

/// Cranelift's plan of an object file for one target, from which a module
/// is made.
#[verifier::external_type_specification]
#[verifier::external_body]
pub struct ExObjectBuilder(ObjectBuilder);

/// Cranelift's context of one function: the function and what compiling it
/// needs.
#[verifier::external_type_specification]
#[verifier::external_body]
pub struct ExContext(Context);

/// The memory that Cranelift's function builder works in.
#[verifier::external_type_specification]
#[verifier::external_body]
pub struct ExFunctionBuilderContext(FunctionBuilderContext);

/// The width in bits of a pointer on the target that `object` is for.
pub uninterp spec fn target_width(object: ObjectBuilder) -> u8;

/// Holds when the function of `context` is empty: it has no block, no
/// value and no function reference.
pub uninterp spec fn blank(context: Context) -> bool;

/// Holds when `memory` holds nothing of a function: no block, no variable.
pub uninterp spec fn cleared(memory: FunctionBuilderContext) -> bool;

/// `ObjectModule::new`: a module for the target of `object`, which
/// declares nothing and holds no data yet.
#[verifier::external_body]
pub(crate) fn new_module(object: ObjectBuilder) -> (made: ObjectModule)
    ensures
        functions(made).dom() == Set::<nat>::empty(),
        data_objects(made).dom() == Set::<nat>::empty(),
        symbols(made).dom() == Set::<Seq<char>>::empty(),
        uninitialized(made) == 0,
        pointer_width(made) == target_width(object),
{
    ObjectModule::new(object)
}

/// `Module::make_context`: a context whose function is empty, with the
/// calling convention of the target.
#[verifier::external_body]
pub(crate) fn make_context(module: &ObjectModule) -> (context: Context)
    ensures
        blank(context),
{
    module.make_context()
}

/// `FunctionBuilderContext::new`: memory for a function builder, which
/// holds nothing yet.
#[verifier::external_body]
pub(crate) fn new_memory() -> (memory: FunctionBuilderContext)
    ensures
        cleared(memory),
{
    FunctionBuilderContext::new()
}

/// `FunctionBuilder::new`: a builder of the function of `context`, which
/// works in `memory`. In a debug build it panics unless `memory` holds
/// nothing. Of an empty function nothing is known yet, and nothing has
/// been asked.
#[verifier::external_body]
pub(crate) fn start<'a>(context: &'a mut Context, memory: &'a mut FunctionBuilderContext) -> (builder:
    FunctionBuilder<'a>)
    requires
        blank(*old(context)),
        cleared(*old(memory)),
    ensures
        built(builder) == Built::fresh(),
{
    FunctionBuilder::new(&mut context.func, memory)
}

/// The types of the values that a function with `signature` takes.
pub uninterp spec fn params_of(signature: Signature) -> Seq<Type>;

/// The types of the values that a function with `signature` returns.
pub uninterp spec fn returns_of(signature: Signature) -> Seq<Type>;

/// `Module::make_signature` with `AbiParam::new`: a signature with the
/// calling convention of the target, which takes values of the types
/// `params` and returns values of the types `results`, each passed in the
/// ordinary way.
#[verifier::external_body]
pub(crate) fn signature(module: &ObjectModule, params: &Vec<Type>, results: &Vec<Type>) -> (made:
    Signature)
    ensures
        made == signed(*module, params@, results@),
        params_of(made) == params@,
        returns_of(made) == results@,
{
    let mut made = module.make_signature();
    made.params.extend(params.iter().map(|ty| AbiParam::new(*ty)));
    made.returns.extend(results.iter().map(|ty| AbiParam::new(*ty)));
    made
}

/// `Module::declare_function`: declares a function under `name` and hands
/// back its number. It is refused only for a name that holds a NUL, a name
/// that the module has for a data object, or a name that it has for a
/// function with another signature. A name that is new to the module gets
/// the next number, and the linkage and signature asked for. A name that
/// it has as a function keeps its number and its signature. Other
/// declarations are left as they are, and so is the target.
#[verifier::external_body]
pub(crate) fn declare_function(
    module: &mut ObjectModule,
    name: &str,
    linkage: Linkage,
    signature: &Signature,
) -> (declared: Result<u32, ModuleError>)
    ensures
        same_target(*old(module), *final(module)),
        uninitialized(*final(module)) == uninitialized(*old(module)),
        !name@.contains('\0') && !symbols(*old(module)).dom().contains(name@) ==> declared is Ok,
        !name@.contains('\0') && symbols(*old(module)).dom().contains(name@) && (symbols(
            *old(module),
        )[name@] matches Holder::Function(held) && functions(*old(module))[held].signature
            == *signature) ==> declared is Ok,
        declared matches Ok(func) ==> {
            let before = functions(*old(module));
            let after = functions(*final(module));
            &&& func < u32::MAX
            &&& symbols(*final(module)) == symbols(*old(module)).insert(
                name@,
                Holder::Function(func as nat),
            )
            &&& after.dom() == before.dom().insert(func as nat)
            &&& before.dom().contains(func as nat) <==> symbols(*old(module)).dom().contains(name@)
            &&& before.dom().contains(func as nat) ==> before[func as nat].name == name@
                && symbols(*old(module))[name@] == Holder::Function(func as nat)
                && after[func as nat].signature == before[func as nat].signature
            &&& forall|other: nat| before.dom().contains(other) && other != func ==> after[other]
                == before[other]
            &&& after[func as nat].name == name@
            &&& after[func as nat].params == params_of(*signature)
            &&& after[func as nat].returns == returns_of(*signature)
            &&& !before.dom().contains(func as nat) ==> after[func as nat].linkage == linkage
                && after[func as nat].signature == *signature
            &&& data_objects(*final(module)) == data_objects(*old(module))
        },
{
    let linkage = match linkage {
        Linkage::Import => cranelift_module::Linkage::Import,
        Linkage::Local => cranelift_module::Linkage::Local,
        Linkage::Preemptible => cranelift_module::Linkage::Preemptible,
        Linkage::Hidden => cranelift_module::Linkage::Hidden,
        Linkage::Export => cranelift_module::Linkage::Export,
    };
    module.declare_function(name, linkage, signature).map(|func| func.as_u32())
}

/// `Module::declare_anonymous_data`: declares a data object without a name,
/// local to the module and not yet defined, and hands back its number,
/// which is new. It is never refused.
#[verifier::external_body]
pub(crate) fn declare_anonymous_data(module: &mut ObjectModule, writable: bool, tls: bool) -> (declared:
    Result<u32, ModuleError>)
    ensures
        same_target(*old(module), *final(module)),
        uninitialized(*final(module)) == uninitialized(*old(module)),
        declared is Ok,
        declared matches Ok(data) ==> {
            &&& data < u32::MAX
            &&& !data_objects(*old(module)).dom().contains(data as nat)
            &&& data_objects(*final(module)) == data_objects(*old(module)).insert(
                data as nat,
                Data { linkage: Linkage::Local, writable, tls, defined: false, zeros: None },
            )
            &&& functions(*final(module)) == functions(*old(module))
            &&& symbols(*final(module)) == symbols(*old(module))
        },
{
    module.declare_anonymous_data(writable, tls).map(|data| data.as_u32())
}

/// `DataDescription::new` and `DataDescription::define_zeroinit` with
/// `Module::define_data`: defines data object `data` as `size` zero bytes.
/// It is refused only for an object that is imported or defined already.
/// It indexes the module's declarations with `data`, so `data` must be
/// declared, and it is not written for targets with 16-bit pointers. The
/// zero bytes of an object that is not thread-local go to the section of
/// uninitialized data: the object writer rounds the size of that section up
/// to the alignment of a symbol, which is 1 or 2, takes an object without
/// bytes as one byte in a Mach-O file, and adds the sizes in 64 bits,
/// which panics in a debug build where the sum does not fit. The target
/// stays as it is.
#[verifier::external_body]
pub(crate) fn define_zeroed(module: &mut ObjectModule, data: u32, size: usize) -> (defined: Result<
    (),
    ModuleError,
>)
    requires
        data < u32::MAX,
        data_objects(*old(module)).dom().contains(data as nat),
        !data_objects(*old(module))[data as nat].tls,
        uninitialized(*old(module)) + size + 2 <= u64::MAX,
        pointer_width(*old(module)) != 16,
    ensures
        same_target(*old(module), *final(module)),
        uninitialized(*final(module)) <= uninitialized(*old(module)) + size + 2,
        defined is Ok <==> data_objects(*old(module))[data as nat].linkage != Linkage::Import
            && !data_objects(*old(module))[data as nat].defined,
        defined is Ok ==> {
            &&& data_objects(*final(module)) == data_objects(*old(module)).insert(
                data as nat,
                Data {
                    defined: true,
                    zeros: Some(size as nat),
                    ..data_objects(*old(module))[data as nat]
                },
            )
            &&& functions(*final(module)) == functions(*old(module))
            &&& symbols(*final(module)) == symbols(*old(module))
        },
{
    let mut description = DataDescription::new();
    description.define_zeroinit(size);
    module.define_data(DataId::from_u32(data), &description)
}

/// Sets the signature of the function that `builder` builds.
#[verifier::external_body]
pub(crate) fn set_signature(builder: &mut FunctionBuilder, signature: Signature)
    ensures
        built(*final(builder)) == built(*old(builder)).served(
            Request::Signature { params: params_of(signature), returns: returns_of(signature) },
        ),
{
    builder.func.signature = signature;
}

/// Sets the name of the function that `builder` builds, with
/// `UserFuncName::User` and `UserExternalName::new`.
#[verifier::external_body]
pub(crate) fn set_name(builder: &mut FunctionBuilder, namespace: u32, index: u32)
    ensures
        built(*final(builder)) == built(*old(builder)).served(
            Request::Name { namespace: namespace as nat, index: index as nat },
        ),
{
    builder.func.name = UserFuncName::User(UserExternalName::new(namespace, index));
}

} // verus!
