//! A backend for Brainfreak which builds the one function of an object
//! file, and declares in the module what that function refers to.

use vstd::prelude::*;
use cranelift::codegen::ir::Type;
use cranelift::frontend::FunctionBuilder;
use cranelift_object::ObjectModule;
use crate::backend::builder::{
    built, data_objects, functions, int_type, integer, pointer_bits, pointer_width, signed,
    symbols, uninitialized,
};
use crate::backend::flow::{Built, Data, Function, Holder, Linkage, Request};
use crate::backend::lowering::{
    appended, is_epilogue, is_prologue, lemma_appended, lemma_last_block, lemma_prefix,
    lemma_weights_loops, lemma_weights_take, lowers, weight, weights, Target,
};
use cranelift::codegen::Context;
use cranelift_object::ObjectBuilder;
use crate::backend::module::{
    declare_anonymous_data, declare_function, define_zeroed, make_context, new_memory, new_module,
    set_name, set_signature, signature, start, target_width,
};
use crate::backend::{Backend, Intrinsics};
use crate::inst::{inst_nodes, lemma_inst_nodes_index, lemma_inst_nodes_take, Inst};
use crate::tree::{loop_count, Node};

verus! {

/// The size of the tape, in bytes.
pub const HEAP_SIZE: usize = 32000;

/// The most room that a program may take for its function to be built: what
/// is left below `LIMIT` once the function is set up and its return is
/// counted.
pub const LARGEST: u32 = 0xFF_FFFA;

/// Why a program could not be compiled.
#[derive(Clone, Copy, Debug, PartialEq, Eq, Structural)]
pub enum CompileError {
    /// The target has 16-bit pointers, for which no data can be defined.
    Target,
    /// The program takes more room than `LARGEST`: its function would hold
    /// more instructions than its values can refer to.
    TooLarge,
    /// The module did not accept the declaration of a function.
    Function,
    /// The module did not accept the declaration or definition of the tape.
    Data,
}

/// What compiling declared in the module.
#[derive(Debug)]
pub struct Routine {
    /// The number of the function that was built.
    pub main: u32,
    /// The numbers of what that function refers to.
    pub intrinsics: Intrinsics,
}

/// `function` is declared under `name`, takes nothing of its own but
/// `params` and returns `returns`, each a list of integer widths in bits.
pub open spec fn is_declared(
    function: Function,
    name: Seq<char>,
    params: Seq<u16>,
    results: Seq<u16>,
) -> bool {
    &&& function.name == name
    &&& function.params.len() == params.len()
    &&& function.returns.len() == results.len()
    &&& forall|i: int| 0 <= i < params.len() ==> Some(#[trigger] function.params[i]) == int_type(params[i])
    &&& forall|i: int|
        0 <= i < results.len() ==> Some(#[trigger] function.returns[i]) == int_type(results[i])
}

/// `t` gives the function its signature, which takes nothing and returns
/// one 32-bit integer, and its name, which is function `main` of the
/// module.
pub open spec fn is_heading(t: Seq<Request>, main: nat) -> bool {
    &&& t.len() == 2
    &&& t[0] matches Request::Signature { params, returns: results }
    &&& params.len() == 0
    &&& results.len() == 1
    &&& Some(results[0]) == int_type(32)
    &&& t[1] == Request::Name { namespace: 0, index: main }
}

/// How compiling `nodes` changes a function: `after` is `before` with the
/// whole routine built, heading to return, in the blocks that it added,
/// all of them filled and all but the entry block sealed. `pointer` is the
/// type of an address.
pub open spec fn compiled(
    routine: Routine,
    pointer: Type,
    nodes: Seq<Node>,
    before: Built,
    after: Built,
) -> bool {
    let target = Target {
        cursor: 0,
        pointer,
        putchar: routine.intrinsics.putchar as nat,
        getchar: routine.intrinsics.getchar as nat,
        heap: routine.intrinsics.heap as nat,
    };
    let t = appended(before, after);
    &&& before.requests.is_prefix_of(after.requests)
    &&& t.len() >= 10
    &&& is_heading(t.take(2), routine.main as nat)
    &&& is_prologue(target, t.subrange(2, 8), before.blocks)
    &&& lowers(target, nodes, before.blocks + 1, t.subrange(8, t.len() - 2))
    &&& is_epilogue(t.skip(t.len() - 2))
    &&& after.blocks == before.blocks + 1 + 3 * loop_count(nodes)
    &&& forall|block: nat|
        after.filled.contains(block) <==> before.filled.contains(block) || before.blocks <= block
            < after.blocks
    &&& forall|block: nat|
        after.sealed.contains(block) <==> before.sealed.contains(block) || before.blocks < block
            < after.blocks
}

/// The tape as the module holds it: local to the module, writable, shared
/// by all threads, and defined as `HEAP_SIZE` zero bytes.
pub open spec fn tape() -> Data {
    Data {
        linkage: Linkage::Local,
        writable: true,
        tls: false,
        defined: true,
        zeros: Some(HEAP_SIZE as nat),
    }
}

/// What compiling declares in a module that held `functions_before` and
/// `data_before`: the function built, which is `main`, the two functions it
/// calls, and the tape, which is new. Nothing else is added, and no other
/// declaration is changed.
pub open spec fn declared(
    routine: Routine,
    functions_before: Map<nat, Function>,
    functions: Map<nat, Function>,
    data_before: Map<nat, Data>,
    data: Map<nat, Data>,
) -> bool {
    let main = routine.main as nat;
    let putchar = routine.intrinsics.putchar as nat;
    let getchar = routine.intrinsics.getchar as nat;
    let heap = routine.intrinsics.heap as nat;
    &&& main != putchar && main != getchar && putchar != getchar
    &&& functions.dom() == functions_before.dom().insert(main).insert(putchar).insert(getchar)
    &&& forall|other: nat|
        functions_before.dom().contains(other) && other != main && other != putchar && other
            != getchar ==> functions[other] == functions_before[other]
    &&& is_declared(functions[main], "main"@, Seq::empty(), seq![32u16])
    &&& is_declared(functions[putchar], "putchar"@, seq![8u16], seq![32u16])
    &&& is_declared(functions[getchar], "getchar"@, Seq::empty(), seq![8u16])
    &&& !data_before.dom().contains(heap)
    &&& data == data_before.insert(heap, tape())
}

/// Holds when `module` takes the declaration of a function under `name`
/// that takes `params` and returns `results`: the name is new to it, or
/// stands in it for a function declared with that very signature.
pub open spec fn takes(
    module: ObjectModule,
    name: Seq<char>,
    params: Seq<Type>,
    results: Seq<Type>,
) -> bool {
    ||| !symbols(module).dom().contains(name)
    ||| {
        &&& symbols(module)[name] matches Holder::Function(held)
        &&& functions(module).dom().contains(held)
        &&& functions(module)[held].name == name
        &&& functions(module)[held].signature == signed(module, params, results)
    }
}

/// Holds when `module` takes the three declarations that compiling makes.
pub open spec fn names_open(module: ObjectModule) -> bool {
    let byte = int_type(8).unwrap();
    let word = int_type(32).unwrap();
    &&& takes(module, "main"@, Seq::empty(), seq![word])
    &&& takes(module, "putchar"@, seq![byte], seq![word])
    &&& takes(module, "getchar"@, Seq::empty(), seq![byte])
}

/// `function` is new in a module that had `before`, with `linkage`.
pub open spec fn is_new(
    before: Map<nat, Function>,
    after: Map<nat, Function>,
    function: nat,
    linkage: Linkage,
) -> bool {
    !before.dom().contains(function) && after[function].linkage == linkage
}

/// The three names that compiling declares hold no NUL and differ from
/// each other.
proof fn lemma_names()
    ensures
        !"main"@.contains('\0'),
        !"putchar"@.contains('\0'),
        !"getchar"@.contains('\0'),
        "main"@ != "putchar"@,
        "main"@ != "getchar"@,
        "putchar"@ != "getchar"@,
{
    reveal_strlit("main");
    reveal_strlit("putchar");
    reveal_strlit("getchar");
    assert("putchar"@[0] == 'p');
    assert("getchar"@[0] == 'g');
}

/// Takes from `room` what lowering the provided instructions takes in a
/// function with one variable, and hands back what is left, if `room` is
/// enough.
fn weigh(insts: &[Inst], room: u32) -> (left: Option<u32>)
    ensures
        left matches Some(rest) ==> rest + weights(inst_nodes(insts@), 1) == room,
        left is None ==> weights(inst_nodes(insts@), 1) > room,
    decreases insts@,
{
    let mut left = room;
    let mut i: usize = 0;
    while i < insts.len()
        invariant
            i <= insts.len(),
            left + weights(inst_nodes(insts@.take(i as int)), 1) == room,
        decreases insts.len() - i,
    {
        proof {
            lemma_inst_nodes_index(insts@, i as int);
            lemma_inst_nodes_take(insts@, i as int + 1);
            lemma_weights_take(inst_nodes(insts@), 1, i as int + 1);
            let upto = inst_nodes(insts@.take(i as int));
            let next = inst_nodes(insts@.take(i as int + 1));
            assert(next.drop_last() == upto);
            assert(next.last() == insts@[i as int]@);
            assert(weights(next, 1) == weights(upto, 1) + weight(insts@[i as int]@, 1));
        }
        let own: u32 = match &insts[i] {
            Inst::DataInc => 3,
            Inst::DataDec => 3,
            Inst::PtrInc => 1,
            Inst::PtrDec => 1,
            Inst::Output => 2,
            Inst::Input => 2,
            Inst::Loop(_) => 10,
        };
        if left < own {
            return None;
        }
        left = left - own;
        match &insts[i] {
            Inst::Loop(body) => {
                proof {
                    assert(decreases_to!(insts@ => insts@[i as int]));
                    assert(decreases_to!(insts@[i as int] => insts@[i as int]->Loop_0));
                }
                match weigh(body.as_slice(), left) {
                    Some(rest) => {
                        left = rest;
                    },
                    None => {
                        return None;
                    },
                }
            },
            _ => {},
        }
        i += 1;
    }
    assert(insts@.take(insts.len() as int) == insts@);
    Some(left)
}

/// Compiles the provided instructions into the function that `builder`
/// builds, and declares in `module` what the function refers to.
///
/// The function is `main`, exported; it calls `putchar` and `getchar`,
/// imported, and works on a tape of zero bytes that is private to the
/// module. It succeeds on every target whose pointers are wider than 16
/// bits, for a program that takes no more room than `LARGEST`, in a module
/// to which each of the three names is new or stands for a function with
/// the signature that is declared here. The builder has to be one of
/// which nothing was asked yet. What is left to do is to define the
/// function in the module and to emit the object.
pub fn compile(insts: &[Inst], builder: &mut FunctionBuilder, module: &mut ObjectModule) -> (result:
    Result<Routine, CompileError>)
    requires
        built(*old(builder)) == Built::fresh(),
        uninitialized(*old(module)) + HEAP_SIZE + 2 <= u64::MAX,
    ensures
        result == Err::<Routine, _>(CompileError::Target) <==> pointer_width(*old(module)) == 16,
        result == Err::<Routine, _>(CompileError::TooLarge) <==> pointer_width(*old(module)) != 16
            && weights(inst_nodes(insts@), 1) > LARGEST,
        pointer_width(*old(module)) != 16 && weights(inst_nodes(insts@), 1) <= LARGEST
            && names_open(*old(module)) ==> result is Ok,
        result matches Ok(routine) ==> {
            &&& compiled(
                routine,
                int_type(pointer_width(*old(module)) as u16).unwrap(),
                inst_nodes(insts@),
                built(*old(builder)),
                built(*final(builder)),
            )
            &&& int_type(pointer_width(*old(module)) as u16) is Some
            &&& declared(
                routine,
                functions(*old(module)),
                functions(*final(module)),
                data_objects(*old(module)),
                data_objects(*final(module)),
            )
            &&& symbols(*final(module)) == symbols(*old(module)).insert(
                "main"@,
                Holder::Function(routine.main as nat),
            ).insert("putchar"@, Holder::Function(routine.intrinsics.putchar as nat)).insert(
                "getchar"@,
                Holder::Function(routine.intrinsics.getchar as nat),
            )
            &&& !symbols(*old(module)).dom().contains("main"@) ==> is_new(
                functions(*old(module)),
                functions(*final(module)),
                routine.main as nat,
                Linkage::Export,
            )
            &&& !symbols(*old(module)).dom().contains("putchar"@) ==> is_new(
                functions(*old(module)),
                functions(*final(module)),
                routine.intrinsics.putchar as nat,
                Linkage::Import,
            )
            &&& !symbols(*old(module)).dom().contains("getchar"@) ==> is_new(
                functions(*old(module)),
                functions(*final(module)),
                routine.intrinsics.getchar as nat,
                Linkage::Import,
            )
        },
{
    let ghost before = built(*builder);
    if pointer_bits(module) == 16 {
        return Err(CompileError::Target);
    }
    if weigh(insts, LARGEST).is_none() {
        return Err(CompileError::TooLarge);
    }
    proof {
        lemma_weights_loops(inst_nodes(insts@), 1);
    }
    let byte = integer(8).unwrap();
    let word = integer(32).unwrap();
    proof {
        reveal_strlit("main");
        reveal_strlit("putchar");
        reveal_strlit("getchar");
        lemma_names();
    }

    let ghost start = *module;
    let mut main_returns: Vec<Type> = Vec::new();
    main_returns.push(word);
    let main_sig = signature(module, &Vec::new(), &main_returns);
    assert(main_returns@ == seq![word]);

    let main_func = match declare_function(module, "main", Linkage::Export, &main_sig) {
        Ok(func) => func,
        Err(_) => {
            return Err(CompileError::Function);
        },
    };

    let ghost with_main = functions(*module);
    assert(with_main[main_func as nat].name.len() == 4);

    set_signature(builder, main_sig);
    set_name(builder, 0, main_func);
    let ghost headed = built(*builder);
    let ghost heading = seq![
        Request::Signature { params: Seq::empty(), returns: main_returns@ },
        Request::Name { namespace: 0, index: main_func as nat },
    ];
    assert(headed.requests == before.requests + heading);

    let mut putchar_params: Vec<Type> = Vec::new();
    putchar_params.push(byte);
    let mut putchar_returns: Vec<Type> = Vec::new();
    putchar_returns.push(word);
    let putchar_sig = signature(module, &putchar_params, &putchar_returns);
    assert(putchar_params@ == seq![byte]);
    assert(putchar_returns@ == seq![word]);
    let putchar = match declare_function(module, "putchar", Linkage::Import, &putchar_sig) {
        Ok(func) => func,
        Err(_) => {
            return Err(CompileError::Function);
        },
    };

    let ghost with_putchar = functions(*module);
    assert(with_putchar[putchar as nat].name.len() == 7);
    assert(putchar != main_func);

    let mut getchar_returns: Vec<Type> = Vec::new();
    getchar_returns.push(byte);
    let getchar_sig = signature(module, &Vec::new(), &getchar_returns);
    assert(getchar_returns@ == seq![byte]);
    let getchar = match declare_function(module, "getchar", Linkage::Import, &getchar_sig) {
        Ok(func) => func,
        Err(_) => {
            return Err(CompileError::Function);
        },
    };

    let ghost with_getchar = functions(*module);
    assert(getchar != main_func && getchar != putchar) by {
        assert(with_getchar[getchar as nat].name[0] == 'g');
        assert(with_putchar[putchar as nat].name[0] == 'p');
        assert(with_putchar[main_func as nat].name[0] == 'm');
    }

    let heap = match declare_anonymous_data(module, true, false) {
        Ok(data) => data,
        Err(_) => {
            return Err(CompileError::Data);
        },
    };
    match define_zeroed(module, heap, HEAP_SIZE) {
        Ok(()) => {},
        Err(_) => {
            return Err(CompileError::Data);
        },
    }

    let intrinsics = Intrinsics { putchar, getchar, heap };
    assert(data_objects(*module) == data_objects(*old(module)).insert(heap as nat, tape()));

    let backend = Backend::new(&intrinsics, builder, module);
    let ghost ready = built(*builder);
    backend.lower(builder, module, insts);
    let ghost lowered = built(*builder);
    backend.finish(builder);

    proof {
        let prologue = appended(headed, ready);
        let body = appended(ready, lowered);
        let epilogue = appended(lowered, built(*builder));
        lemma_appended(before, headed, heading);
        lemma_prefix(headed, ready);
        lemma_prefix(ready, lowered);
        lemma_prefix(lowered, built(*builder));
        let t = heading + prologue + body + epilogue;
        assert(built(*builder).requests == before.requests + t);
        lemma_appended(before, built(*builder), t);
        assert(t.take(2) == heading);
        assert(t.subrange(2, 8) == prologue);
        assert(t.subrange(8, t.len() - 2) == body);
        assert(t.skip(t.len() - 2) == epilogue);
        lemma_last_block(inst_nodes(insts@), ready.blocks, ready.current.unwrap());

        let declared = functions(*module);
        assert(is_declared(declared[main_func as nat], "main"@, Seq::empty(), seq![32u16])) by {
            assert(seq![32u16][0] == 32);
        }
        assert(is_declared(declared[putchar as nat], "putchar"@, seq![8u16], seq![32u16])) by {
            assert(seq![8u16][0] == 8);
            assert(seq![32u16][0] == 32);
        }
        assert(is_declared(declared[getchar as nat], "getchar"@, Seq::empty(), seq![8u16])) by {
            assert(seq![8u16][0] == 8);
        }
    }
    Ok(Routine { main: main_func, intrinsics })
}

/// A program compiled into a module of its own.
pub struct Assembled {
    /// What is known of the function that was built.
    pub graph: Ghost<Built>,
    /// What was declared in the module.
    pub routine: Routine,
    /// The module, in which the function is declared and not yet defined.
    pub module: ObjectModule,
    /// The context that holds the function built.
    pub context: Context,
}

/// Makes a module for the target of `object`, and compiles the provided
/// instructions into a function of it, as `compile` does.
///
/// It fails only on a target with 16-bit pointers and for a program
/// that takes more room than `LARGEST`. The module declares `main`,
/// exported, `putchar` and `getchar`, imported, and the tape, and nothing
/// else.
pub fn assemble(insts: &[Inst], object: ObjectBuilder) -> (result: Result<Assembled, CompileError>)
    ensures
        result is Ok <==> target_width(object) != 16 && weights(inst_nodes(insts@), 1) <= LARGEST,
        result matches Err(error) ==> error == if target_width(object) == 16 {
            CompileError::Target
        } else {
            CompileError::TooLarge
        },
        result matches Ok(assembled) ==> {
            &&& int_type(target_width(object) as u16) is Some
            &&& compiled(
                assembled.routine,
                int_type(target_width(object) as u16).unwrap(),
                inst_nodes(insts@),
                Built::fresh(),
                assembled.graph@,
            )
            &&& declared(
                assembled.routine,
                Map::empty(),
                functions(assembled.module),
                Map::empty(),
                data_objects(assembled.module),
            )
            &&& symbols(assembled.module) == Map::<Seq<char>, Holder>::empty().insert(
                "main"@,
                Holder::Function(assembled.routine.main as nat),
            ).insert(
                "putchar"@,
                Holder::Function(assembled.routine.intrinsics.putchar as nat),
            ).insert("getchar"@, Holder::Function(assembled.routine.intrinsics.getchar as nat))
            &&& functions(assembled.module)[assembled.routine.main as nat].linkage
                == Linkage::Export
            &&& functions(assembled.module)[assembled.routine.intrinsics.putchar as nat].linkage
                == Linkage::Import
            &&& functions(assembled.module)[assembled.routine.intrinsics.getchar as nat].linkage
                == Linkage::Import
        },
{
    let mut module = new_module(object);
    assert(functions(module) == Map::<nat, Function>::empty());
    assert(data_objects(module) == Map::<nat, Data>::empty());
    assert(symbols(module) == Map::<Seq<char>, Holder>::empty());
    let mut context = make_context(&module);
    let mut memory = new_memory();
    let mut builder = start(&mut context, &mut memory);
    let compiled = compile(insts, &mut builder, &mut module);
    let graph = Ghost(built(builder));
    match compiled {
        Ok(routine) => Ok(Assembled { graph, routine, module, context }),
        Err(error) => Err(error),
    }
}

} // verus!
