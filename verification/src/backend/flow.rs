//! The model of a function under construction: its blocks, what is known of
//! its variables and values, and the requests that its builder has served.

use vstd::prelude::*;
use cranelift::codegen::ir::{Signature, Type};

verus! {

/// One request made of the function builder, with what it handed back.
///
/// Blocks, variables, values, globals and function references are named by
/// the numbers that Cranelift gives them.
pub enum Request {
    /// The function was given its signature: what it takes and returns.
    Signature { params: Seq<Type>, returns: Seq<Type> },
    /// The function was given its name: `index` in `namespace`.
    Name { namespace: nat, index: nat },
    /// A new block was asked for; `block` is the one that was made.
    CreateBlock { block: nat },
    /// `block` became the block that receives instructions.
    SwitchTo { block: nat },
    /// `block` was sealed: its predecessors are all known.
    Seal { block: nat },
    /// Variable `var` was declared, with type `ty`.
    DeclareVar { var: nat, ty: Type },
    /// Variable `var` was read; `value` holds what it is at this point.
    UseVar { var: nat, value: nat },
    /// Variable `var` was set to `value`.
    DefVar { var: nat, value: nat },
    /// Data object `data` of the module was made known; `global` refers to it.
    ImportData { data: nat, global: nat },
    /// Function `func` of the module was made known; `callee` refers to it.
    ImportFunc { func: nat, callee: nat },
    /// The address of `global`, as a `value` of type `ty`.
    GlobalAddr { ty: Type, global: nat, value: nat },
    /// A load of a `value` of type `ty` from address `addr` plus `offset`.
    Load { ty: Type, addr: nat, offset: int, value: nat },
    /// A store of `value` to address `addr` plus `offset`.
    Store { value: nat, addr: nat, offset: int },
    /// `value` is `arg` plus `imm`, wrapping in the width of `ty`, which is
    /// the type of both.
    AddImm { ty: Type, arg: nat, imm: int, value: nat },
    /// `value` is the constant `imm` of type `ty`.
    Const { ty: Type, imm: int, value: nat },
    /// A call of `callee` with `args`, which returned `results`.
    Call { callee: nat, args: Seq<nat>, results: Seq<nat> },
    /// An unconditional jump to block `to`.
    Jump { to: nat },
    /// A branch on `cond`: to `nonzero` if it is not zero, else to `zero`.
    Branch { cond: nat, nonzero: nat, zero: nat },
    /// A return of `values` from the function.
    Return { values: Seq<nat> },
}

/// How a module treats the symbol of what it declares.
#[derive(Clone, Copy, Debug, PartialEq, Eq, Structural)]
pub enum Linkage {
    /// Defined outside the module.
    Import,
    /// Defined inside the module, and seen only there.
    Local,
    /// Defined inside the module, seen outside it, and open to replacement
    /// by another definition.
    Preemptible,
    /// Defined inside the module, and seen only in what it is linked into.
    Hidden,
    /// Defined inside the module, and seen outside it.
    Export,
}

/// What a name stands for in a module.
pub enum Holder {
    /// The function with this number.
    Function(nat),
    /// The data object with this number.
    Data(nat),
}

/// A function declared in a module.
pub struct Function {
    /// The name of its symbol.
    pub name: Seq<char>,
    /// How the module treats its symbol.
    pub linkage: Linkage,
    /// The signature it was declared with.
    pub signature: Signature,
    /// The types of the values it takes.
    pub params: Seq<Type>,
    /// The types of the values it returns.
    pub returns: Seq<Type>,
}

/// A data object declared in a module.
pub struct Data {
    /// How the module treats its symbol.
    pub linkage: Linkage,
    /// Whether it can be written to.
    pub writable: bool,
    /// Whether each thread has its own.
    pub tls: bool,
    /// Whether the module holds its definition already.
    pub defined: bool,
    /// Its size in bytes, where it is defined as that many zero bytes.
    pub zeros: Option<nat>,
}

/// The number that no instruction and no block of a function may reach if a
/// value is to refer to it: Cranelift packs that number into 24 bits and
/// keeps the largest for no entity.
pub const LIMIT: u32 = 0xFF_FFFF;

/// The most values that a call can return and the most parameters that a
/// block can take: Cranelift numbers them in 16 bits.
pub const MOST: u32 = 0x1_0000;

/// What is known of a function under construction.
pub struct Built {
    /// The number of blocks made so far; they are numbered from zero.
    pub blocks: nat,
    /// The block that receives instructions, once there is one.
    pub current: Option<nat>,
    /// The blocks that end in a jump, a branch or a return.
    pub filled: Set<nat>,
    /// The blocks that were sealed.
    pub sealed: Set<nat>,
    /// The declared variables, each with its type.
    pub vars: Map<nat, Type>,
    /// The values that exist, each with its type.
    pub values: Map<nat, Type>,
    /// The function references that exist, each with the number of values
    /// that the function returns.
    pub callees: Map<nat, nat>,
    /// The number of instructions made so far.
    pub insts: nat,
    /// The number of variables declared so far.
    pub declared: nat,
    /// The number of values made so far.
    pub made: nat,
    /// The largest of the numbers of signatures, names, globals and function
    /// references that the function holds.
    pub imported: nat,
    /// The number of pairs of a block and a declared variable such that the
    /// variable has no definition in the block yet.
    pub unsettled: nat,
    /// The number of pairs of a block and a declared variable such that a
    /// parameter of the block stands for the variable until the block is
    /// sealed.
    pub pending: nat,
    /// For each block, the number of its parameters.
    pub params: Map<nat, nat>,
    /// For each block, the number of declared variables that have a
    /// definition in it.
    pub settled: Map<nat, nat>,
    /// All requests served so far, oldest first.
    pub requests: Seq<Request>,
}

impl Built {
    /// A function of which nothing has been asked yet.
    pub open spec fn fresh() -> Built {
        Built {
            blocks: 0,
            current: None,
            filled: Set::empty(),
            sealed: Set::empty(),
            vars: Map::empty(),
            values: Map::empty(),
            callees: Map::empty(),
            insts: 0,
            declared: 0,
            made: 0,
            imported: 0,
            unsettled: 0,
            pending: 0,
            params: Map::empty(),
            settled: Map::empty(),
            requests: Seq::empty(),
        }
    }

    /// A bound on the number of instructions that the function can come to
    /// hold without another being asked for: those it has, and two for
    /// each variable that may still be given a zero in a block.
    pub open spec fn load(self) -> nat {
        self.insts + 2 * (self.unsettled + self.pending)
    }

    /// A bound on the number of values that the function can come to hold
    /// without an instruction being asked for: those it has, and for each
    /// variable that may still be given a zero in a block two, with one
    /// more where it may still be given a parameter.
    pub open spec fn stock(self) -> nat {
        self.made + 3 * self.unsettled + 2 * self.pending
    }

    /// There is room for more: for an instruction, for a variable to be
    /// given a definition in any block, and for the parameter of the block
    /// that such a definition may take.
    pub open spec fn fits(self) -> bool {
        &&& self.load() < LIMIT
        &&& self.stock() < u32::MAX
        &&& self.blocks <= LIMIT
        &&& self.declared <= MOST
        &&& forall|block: nat|
            block < self.blocks ==> #[trigger] self.params[block] <= self.settled[block]
    }

    /// What finding, setting or settling variables may change in a
    /// function besides what is said of it. A variable may get a definition
    /// in blocks where it had none. Each such definition may take one new
    /// parameter of its block, which is a value. A variable that has no
    /// definition on any way into a block where it has one is given a
    /// zero, once, which takes up to two instructions, each with a value.
    /// Nothing else adds a parameter, an instruction or a value.
    pub open spec fn settles(self, after: Built) -> bool {
        &&& self.insts <= after.insts
        &&& self.made <= after.made
        &&& after.unsettled <= self.unsettled
        &&& after.load() <= self.load()
        &&& after.stock() <= self.stock()
        &&& forall|block: nat|
            block < self.blocks ==> self.settled[block] <= #[trigger] after.settled[block]
        &&& forall|block: nat|
            block < self.blocks ==> #[trigger] after.params[block] + self.settled[block]
                <= self.params[block] + after.settled[block]
    }

    /// Every block spoken of has been made.
    pub open spec fn wf(self) -> bool {
        &&& self.current matches Some(block) ==> block < self.blocks
        &&& forall|block: nat|
            self.filled.contains(block) || self.sealed.contains(block) ==> block < self.blocks
    }

    /// There is a current block and it can take another instruction.
    pub open spec fn open(self) -> bool {
        self.current matches Some(block) && !self.filled.contains(block)
    }

    /// `block` exists and may still become the target of a jump or branch.
    pub open spec fn unsealed(self, block: nat) -> bool {
        block < self.blocks && !self.sealed.contains(block)
    }

    /// `value` exists.
    pub open spec fn has(self, value: nat) -> bool {
        self.values.dom().contains(value)
    }

    /// The same, with `request` recorded as served.
    pub open spec fn served(self, request: Request) -> Built {
        Built { requests: self.requests.push(request), ..self }
    }

    /// The same, with one more instruction, asked for by `request`.
    pub open spec fn emitted(self, request: Request) -> Built {
        Built { insts: self.insts + 1, ..self.served(request) }
    }

    /// The same, with `value` added as a value of type `ty`.
    pub open spec fn with_value(self, value: nat, ty: Type) -> Built {
        Built { values: self.values.insert(value, ty), made: self.made + 1, ..self }
    }

    /// The same, with the current block filled.
    pub open spec fn ended(self) -> Built {
        Built { filled: self.filled.insert(self.current.unwrap()), ..self }
    }
}

} // verus!
