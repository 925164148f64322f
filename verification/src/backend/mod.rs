//! The backend: lowers instructions into a control-flow graph.

use vstd::prelude::*;
use cranelift::codegen::ir::Type;
use cranelift::frontend::FunctionBuilder;
use cranelift_object::ObjectModule;
use crate::backend::builder::{
    built, create_block, data_objects, declare_var, def_var, functions, import_data,
    import_function, integral, unchanged, ins_brif, ins_call, ins_global_value, ins_iadd_imm, ins_iconst, ins_jump,
    ins_load, ins_return, ins_store, int_type, integer, pointer_type, pointer_width, seal_block,
    switch_to_block, use_var,
};
use crate::backend::flow::{Built, Request, LIMIT, MOST};
use crate::backend::lowering::{
    affords, lemma_weights_take, weight, weights, appended, finished, grown, is_cell_update, is_input, is_loop_entry, is_loop_exit, is_output,
    is_pointer_move, lemma_appended, lemma_last_block, lemma_lowered_push, lemma_lowers_len,
    lemma_prefix, lowered, lowered_node, prepared, Target,
};
use crate::inst::{inst_nodes, lemma_inst_nodes_index, lemma_inst_nodes_take, Inst};
use crate::tree::{loop_count, loops_in};

pub mod builder;
pub mod flow;
pub mod lowering;
pub mod module;
pub mod object;
pub mod sealing;

verus! {

/// A map of intrinsic functions for the [Backend] to use, each named by its
/// number in the module.
#[derive(Debug)]
pub struct Intrinsics {
    /// The LibC `putchar` or equivalent.
    pub putchar: u32,
    /// The LibC `getchar` or equivalent.
    pub getchar: u32,
    /// The heap for the Brainfreak program to use.
    pub heap: u32,
}

/// The backend for the Brainfreak compiler.
pub struct Backend<'a> {
    intrinsics: &'a Intrinsics,
    data_ptr: u32,
    pointer: Type,
}

impl<'a> Backend<'a> {
    /// The names that this backend lowers with.
    pub closed spec fn target(&self) -> Target {
        Target {
            cursor: self.data_ptr as nat,
            pointer: self.pointer,
            putchar: self.intrinsics.putchar as nat,
            getchar: self.intrinsics.getchar as nat,
            heap: self.intrinsics.heap as nat,
        }
    }

    /// Holds when a function in state `graph` can take instructions of
    /// this backend: a block is open, there is room, every variable is an
    /// integer, and the data pointer is declared with the type of an
    /// address.
    pub open spec fn usable(&self, graph: Built) -> bool {
        &&& self.target().cursor < u32::MAX
        &&& graph.wf()
        &&& graph.fits()
        &&& graph.open()
        &&& integral(graph)
        &&& graph.vars.dom().contains(self.target().cursor)
        &&& graph.vars[self.target().cursor] == self.target().pointer
    }

    /// Holds when this backend can lower into a function in state `graph`
    /// with `module`: a block is open, the data pointer is declared, and the
    /// module has both functions, the one that reads returning one value
    /// and the one that writes returning one or none.
    pub open spec fn ready(&self, graph: Built, module: ObjectModule) -> bool {
        &&& self.usable(graph)
        &&& self.target().putchar < u32::MAX
        &&& self.target().getchar < u32::MAX
        &&& functions(module).dom().contains(self.target().putchar)
        &&& functions(module).dom().contains(self.target().getchar)
        &&& functions(module)[self.target().getchar].returns.len() == 1
        &&& functions(module)[self.target().putchar].returns.len() <= 1
    }

    /// Creates a new [Backend] for the provided module.
    pub fn new(intrinsics: &'a Intrinsics, builder: &mut FunctionBuilder, module: &ObjectModule) -> (backend:
        Self)
        requires
            built(*old(builder)).wf(),
            built(*old(builder)).current is None,
            integral(built(*old(builder))),
            built(*old(builder)).fits(),
            built(*old(builder)).declared < MOST,
            affords(
                built(*old(builder)),
                2 * built(*old(builder)).declared + 2 * built(*old(builder)).blocks + 3,
                1,
            ),
            !built(*old(builder)).vars.dom().contains(0),
            intrinsics.heap < u32::MAX,
            data_objects(*module).dom().contains(intrinsics.heap as nat),
        ensures
            backend.target() == (Target {
                cursor: 0,
                pointer: int_type(pointer_width(*module) as u16).unwrap(),
                putchar: intrinsics.putchar as nat,
                getchar: intrinsics.getchar as nat,
                heap: intrinsics.heap as nat,
            }),
            int_type(pointer_width(*module) as u16) == Some(backend.target().pointer),
            backend.usable(built(*final(builder))),
            prepared(backend.target(), built(*old(builder)), built(*final(builder))),
    {
        let block = create_block(builder);
        switch_to_block(builder, block);

        let data_ptr: u32 = 0;
        let pointer = pointer_type(module);
        declare_var(builder, data_ptr, pointer);
        let global_value = import_data(module, intrinsics.heap, builder);
        let data_ptr_value = ins_global_value(builder, pointer, global_value);
        def_var(builder, data_ptr, data_ptr_value);

        Self { intrinsics, data_ptr, pointer }
    }

    /// Lowers a change of the current cell by `imm`: a load, an addition
    /// and a store, all one byte wide, at the address in the data pointer.
    fn lower_cell(&self, builder: &mut FunctionBuilder, imm: i64)
        requires
            self.usable(built(*old(builder))),
            affords(built(*old(builder)), 3, 0),
        ensures
            is_cell_update(
                self.target(),
                appended(built(*old(builder)), built(*final(builder))),
                imm as int,
            ),
            grown(
                built(*old(builder)),
                built(*final(builder)),
                0,
                built(*old(builder)).current.unwrap(),
                3,
            ),
    {
        proof {
            broadcast use vstd::map_lib::lemma_submap_of_trans;
        }
        let ghost before = built(*builder);
        let byte = integer(8).unwrap();
        let data_ptr = use_var(builder, self.data_ptr);
        let ghost read = built(*builder);
        let old_data = ins_load(builder, byte, data_ptr, 0);
        let ghost loaded = built(*builder);
        let new_data = ins_iadd_imm(builder, old_data, imm);
        ins_store(builder, new_data, data_ptr, 0);
        proof {
            assert(read.values.submap_of(loaded.values));
            assert(loaded.values.submap_of(built(*builder).values));
            assert(before.values.submap_of(loaded.values));
            let t = seq![
                Request::UseVar { var: self.data_ptr as nat, value: data_ptr as nat },
                Request::Load { ty: byte, addr: data_ptr as nat, offset: 0, value: old_data as nat },
                Request::AddImm {
                    ty: byte,
                    arg: old_data as nat,
                    imm: imm as int,
                    value: new_data as nat,
                },
                Request::Store { value: new_data as nat, addr: data_ptr as nat, offset: 0 },
            ];
            assert(built(*builder).requests == before.requests + t);
            lemma_appended(before, built(*builder), t);
        }
    }

    /// Lowers a move of the data pointer by `imm`: the variable is read,
    /// `imm` is added, and the variable is set to the sum.
    fn lower_pointer(&self, builder: &mut FunctionBuilder, imm: i64)
        requires
            self.usable(built(*old(builder))),
            affords(built(*old(builder)), 1, 0),
        ensures
            is_pointer_move(
                self.target(),
                appended(built(*old(builder)), built(*final(builder))),
                imm as int,
            ),
            grown(
                built(*old(builder)),
                built(*final(builder)),
                0,
                built(*old(builder)).current.unwrap(),
                1,
            ),
    {
        proof {
            broadcast use vstd::map_lib::lemma_submap_of_trans;
        }
        let ghost before = built(*builder);
        let old_ptr = use_var(builder, self.data_ptr);
        let new_ptr = ins_iadd_imm(builder, old_ptr, imm);
        def_var(builder, self.data_ptr, new_ptr);
        proof {
            let t = seq![
                Request::UseVar { var: self.data_ptr as nat, value: old_ptr as nat },
                Request::AddImm {
                    ty: self.pointer,
                    arg: old_ptr as nat,
                    imm: imm as int,
                    value: new_ptr as nat,
                },
                Request::DefVar { var: self.data_ptr as nat, value: new_ptr as nat },
            ];
            assert(built(*builder).requests == before.requests + t);
            lemma_appended(before, built(*builder), t);
        }
    }

    /// Lowers an output: the current cell is loaded and handed to `putchar`.
    fn lower_output(&self, builder: &mut FunctionBuilder, module: &mut ObjectModule)
        requires
            self.ready(built(*old(builder)), *old(module)),
            affords(built(*old(builder)), 2, 0),
        ensures
            unchanged(*old(module), *final(module)),
            is_output(self.target(), appended(built(*old(builder)), built(*final(builder)))),
            grown(
                built(*old(builder)),
                built(*final(builder)),
                0,
                built(*old(builder)).current.unwrap(),
                2,
            ),
    {
        proof {
            broadcast use vstd::map_lib::lemma_submap_of_trans;
        }
        let ghost before = built(*builder);
        let byte = integer(8).unwrap();
        let data_ptr = use_var(builder, self.data_ptr);
        let ghost read = built(*builder);
        let data = ins_load(builder, byte, data_ptr, 0);
        let ghost loaded = built(*builder);
        let putchar = import_function(module, self.intrinsics.putchar, builder);
        let mut args: Vec<u32> = Vec::new();
        args.push(data);
        let results = ins_call(builder, putchar, &args);
        proof {
            assert(read.values.submap_of(loaded.values));
            assert(loaded.values.submap_of(built(*builder).values));
            assert(before.values.submap_of(loaded.values));
            let passed = args@.map_values(|v: u32| v as nat);
            assert(passed == seq![data as nat]);
            let t = seq![
                Request::UseVar { var: self.data_ptr as nat, value: data_ptr as nat },
                Request::Load { ty: byte, addr: data_ptr as nat, offset: 0, value: data as nat },
                Request::ImportFunc {
                    func: self.intrinsics.putchar as nat,
                    callee: putchar as nat,
                },
                Request::Call {
                    callee: putchar as nat,
                    args: passed,
                    results: results@.map_values(|v: u32| v as nat),
                },
            ];
            assert(built(*builder).requests == before.requests + t);
            lemma_appended(before, built(*builder), t);
        }
    }

    /// Lowers an input: `getchar` is called and what it returns is stored
    /// to the current cell.
    fn lower_input(&self, builder: &mut FunctionBuilder, module: &mut ObjectModule)
        requires
            self.ready(built(*old(builder)), *old(module)),
            affords(built(*old(builder)), 2, 0),
        ensures
            unchanged(*old(module), *final(module)),
            is_input(self.target(), appended(built(*old(builder)), built(*final(builder)))),
            grown(
                built(*old(builder)),
                built(*final(builder)),
                0,
                built(*old(builder)).current.unwrap(),
                2,
            ),
    {
        proof {
            broadcast use vstd::map_lib::lemma_submap_of_trans;
        }
        let ghost before = built(*builder);
        let getchar = import_function(module, self.intrinsics.getchar, builder);
        let args: Vec<u32> = Vec::new();
        let results = ins_call(builder, getchar, &args);
        let res = results[0];
        let data_ptr = use_var(builder, self.data_ptr);
        ins_store(builder, res, data_ptr, 0);
        proof {
            let passed = args@.map_values(|v: u32| v as nat);
            assert(passed == Seq::<nat>::empty());
            let returned = results@.map_values(|v: u32| v as nat);
            let t = seq![
                Request::ImportFunc {
                    func: self.intrinsics.getchar as nat,
                    callee: getchar as nat,
                },
                Request::Call { callee: getchar as nat, args: passed, results: returned },
                Request::UseVar { var: self.data_ptr as nat, value: data_ptr as nat },
                Request::Store { value: returned[0], addr: data_ptr as nat, offset: 0 },
            ];
            assert(built(*builder).requests == before.requests + t);
            lemma_appended(before, built(*builder), t);
        }
    }

    /// Opens a loop: makes its header, body and exit, jumps to the header,
    /// branches there on the current cell, and goes on in the body. The
    /// header is left unsealed: the jump back to it is still to come.
    fn enter_loop(&self, builder: &mut FunctionBuilder) -> (blocks: (u32, u32, u32))
        requires
            self.usable(built(*old(builder))),
            affords(built(*old(builder)), 6 * built(*old(builder)).declared + 3, 3),
        ensures
            blocks.0 == built(*old(builder)).blocks,
            blocks.1 == blocks.0 + 1,
            blocks.2 == blocks.0 + 2,
            blocks.2 < u32::MAX,
            self.usable(built(*final(builder))),
            is_loop_entry(
                self.target(),
                appended(built(*old(builder)), built(*final(builder))),
                blocks.0 as nat,
            ),
            built(*old(builder)).requests.is_prefix_of(built(*final(builder)).requests),
            built(*final(builder)).blocks == blocks.0 + 3,
            built(*final(builder)).current == Some(blocks.1 as nat),
            built(*final(builder)).sealed == built(*old(builder)).sealed,
            built(*final(builder)).filled == built(*old(builder)).filled.insert(
                built(*old(builder)).current.unwrap(),
            ).insert(blocks.0 as nat),
            built(*final(builder)).vars == built(*old(builder)).vars,
            built(*final(builder)).declared == built(*old(builder)).declared,
            built(*final(builder)).load() <= built(*old(builder)).load() + 6 * built(
                *old(builder),
            ).declared + 3,
            built(*final(builder)).stock() <= built(*old(builder)).stock() + 9 * built(
                *old(builder),
            ).declared + 1,
            built(*final(builder)).imported == built(*old(builder)).imported,
            built(*old(builder)).values.submap_of(built(*final(builder)).values),
    {
        proof {
            broadcast use vstd::map_lib::lemma_submap_of_trans;
        }
        let ghost before = built(*builder);
        let byte = integer(8).unwrap();
        let header = create_block(builder);
        let body = create_block(builder);
        let exit = create_block(builder);

        ins_jump(builder, header);

        switch_to_block(builder, header);

        let data_ptr = use_var(builder, self.data_ptr);
        let data = ins_load(builder, byte, data_ptr, 0);
        ins_brif(builder, data, body, exit);

        switch_to_block(builder, body);

        proof {
            let t = seq![
                Request::CreateBlock { block: header as nat },
                Request::CreateBlock { block: body as nat },
                Request::CreateBlock { block: exit as nat },
                Request::Jump { to: header as nat },
                Request::SwitchTo { block: header as nat },
                Request::UseVar { var: self.data_ptr as nat, value: data_ptr as nat },
                Request::Load { ty: byte, addr: data_ptr as nat, offset: 0, value: data as nat },
                Request::Branch { cond: data as nat, nonzero: body as nat, zero: exit as nat },
                Request::SwitchTo { block: body as nat },
            ];
            assert(built(*builder).requests == before.requests + t);
            lemma_appended(before, built(*builder), t);
        }
        (header, body, exit)
    }

    /// Closes the loop with the blocks `header`, `body` and `exit`: jumps
    /// back to the header, which is its second and last predecessor, seals
    /// the three blocks, and goes on in the exit.
    fn leave_loop(&self, builder: &mut FunctionBuilder, header: u32, body: u32, exit: u32)
        requires
            built(*old(builder)).wf(),
            built(*old(builder)).open(),
            integral(built(*old(builder))),
            built(*old(builder)).fits(),
            affords(built(*old(builder)), 1, 0),
            body == header + 1,
            exit == header + 2,
            exit < u32::MAX,
            exit < built(*old(builder)).blocks,
            built(*old(builder)).current != Some(exit as nat),
            !built(*old(builder)).sealed.contains(header as nat),
            !built(*old(builder)).sealed.contains(body as nat),
            !built(*old(builder)).sealed.contains(exit as nat),
            !built(*old(builder)).filled.contains(exit as nat),
        ensures
            is_loop_exit(appended(built(*old(builder)), built(*final(builder))), header as nat),
            built(*old(builder)).requests.is_prefix_of(built(*final(builder)).requests),
            built(*final(builder)).wf(),
            built(*final(builder)).open(),
            built(*final(builder)).blocks == built(*old(builder)).blocks,
            built(*final(builder)).current == Some(exit as nat),
            built(*final(builder)).sealed == built(*old(builder)).sealed.insert(
                header as nat,
            ).insert(body as nat).insert(exit as nat),
            built(*final(builder)).filled == built(*old(builder)).filled.insert(
                built(*old(builder)).current.unwrap(),
            ),
            built(*final(builder)).vars == built(*old(builder)).vars,
            built(*final(builder)).declared == built(*old(builder)).declared,
            built(*final(builder)).load() <= built(*old(builder)).load() + 1,
            built(*final(builder)).stock() <= built(*old(builder)).stock(),
            built(*final(builder)).imported == built(*old(builder)).imported,
            built(*final(builder)).fits(),
            built(*old(builder)).values.submap_of(built(*final(builder)).values),
    {
        proof {
            broadcast use vstd::map_lib::lemma_submap_of_trans;
        }
        let ghost before = built(*builder);
        ins_jump(builder, header);

        seal_block(builder, header);
        seal_block(builder, body);
        seal_block(builder, exit);

        switch_to_block(builder, exit);

        proof {
            let t = seq![
                Request::Jump { to: header as nat },
                Request::Seal { block: header as nat },
                Request::Seal { block: body as nat },
                Request::Seal { block: exit as nat },
                Request::SwitchTo { block: exit as nat },
            ];
            assert(built(*builder).requests == before.requests + t);
            lemma_appended(before, built(*builder), t);
        }
    }

    /// Lowers a single instruction into Cranelift IR.
    fn lower_inst(&self, builder: &mut FunctionBuilder, module: &mut ObjectModule, inst: &Inst)
        requires
            self.ready(built(*old(builder)), *old(module)),
            affords(
                built(*old(builder)),
                weight(inst@, built(*old(builder)).declared),
                3 * loops_in(inst@),
            ),
        ensures
            self.ready(built(*final(builder)), *final(module)),
            unchanged(*old(module), *final(module)),
            lowered_node(self.target(), inst@, built(*old(builder)), built(*final(builder))),
        decreases *inst,
    {
        let ghost before = built(*builder);
        match inst {
            Inst::DataInc => self.lower_cell(builder, 1),
            Inst::DataDec => self.lower_cell(builder, -1),
            Inst::PtrInc => self.lower_pointer(builder, 1),
            Inst::PtrDec => self.lower_pointer(builder, -1),
            Inst::Output => self.lower_output(builder, module),
            Inst::Input => self.lower_input(builder, module),
            Inst::Loop(insts) => {
                let (header, body, exit) = self.enter_loop(builder);
                let ghost entered = built(*builder);

                self.lower(builder, module, insts.as_slice());

                let ghost inside = built(*builder);
                proof {
                    lemma_last_block(
                        inst_nodes(insts@),
                        entered.blocks,
                        entered.current.unwrap(),
                    );
                }
                self.leave_loop(builder, header, body, exit);

                proof {
                    let entry = appended(before, entered);
                    let children = appended(entered, inside);
                    let leave = appended(inside, built(*builder));
                    lemma_prefix(before, entered);
                    lemma_prefix(entered, inside);
                    lemma_prefix(inside, built(*builder));
                    lemma_lowers_len(self.target(), inst_nodes(insts@), entered.blocks, children);
                    let t = entry + children + leave;
                    assert(built(*builder).requests == before.requests + t);
                    lemma_appended(before, built(*builder), t);
                    assert(t.take(9) == entry);
                    assert(t.subrange(9, 9 + children.len() as int) == children);
                    assert(t.skip(9 + children.len() as int) == leave);
                    vstd::map_lib::lemma_submap_of_trans(
                        before.values,
                        entered.values,
                        inside.values,
                    );
                    vstd::map_lib::lemma_submap_of_trans(
                        before.values,
                        inside.values,
                        built(*builder).values,
                    );
                }
            },
        }
    }

    /// Lowers the provided [Inst]s into Cranelift IR.
    pub fn lower(&self, builder: &mut FunctionBuilder, module: &mut ObjectModule, insts: &[Inst])
        requires
            self.ready(built(*old(builder)), *old(module)),
            affords(
                built(*old(builder)),
                weights(inst_nodes(insts@), built(*old(builder)).declared),
                3 * loop_count(inst_nodes(insts@)),
            ),
        ensures
            self.ready(built(*final(builder)), *final(module)),
            unchanged(*old(module), *final(module)),
            lowered(self.target(), inst_nodes(insts@), built(*old(builder)), built(*final(builder))),
        decreases insts@,
    {
        let ghost before = built(*builder);
        proof {
            lemma_appended(before, before, Seq::empty());
        }
        let mut i: usize = 0;
        while i < insts.len()
            invariant
                i <= insts.len(),
                self.ready(built(*builder), *module),
                unchanged(*old(module), *module),
                before == built(*old(builder)),
                before.wf(),
                before.open(),
                affords(
                    before,
                    weights(inst_nodes(insts@), before.declared),
                    3 * loop_count(inst_nodes(insts@)),
                ),
                lowered(self.target(), inst_nodes(insts@.take(i as int)), before, built(*builder)),
            decreases insts.len() - i,
        {
            let ghost middle = built(*builder);
            proof {
                lemma_inst_nodes_index(insts@, i as int);
                lemma_weights_take(inst_nodes(insts@), before.declared, i as int + 1);
                lemma_inst_nodes_take(insts@, i as int + 1);
                let upto = inst_nodes(insts@.take(i as int));
                let next = inst_nodes(insts@.take(i as int + 1));
                assert(next.drop_last() == upto);
                assert(next.last() == insts@[i as int]@);
                assert(weights(next, before.declared) == weights(upto, before.declared) + weight(
                    insts@[i as int]@,
                    before.declared,
                ));
                assert(loop_count(next) == loop_count(upto) + loops_in(insts@[i as int]@));
            }
            self.lower_inst(builder, module, &insts[i]);
            proof {
                lemma_inst_nodes_index(insts@, i as int);
                lemma_lowered_push(
                    self.target(),
                    inst_nodes(insts@.take(i as int)),
                    insts@[i as int]@,
                    before,
                    middle,
                    built(*builder),
                );
            }
            i += 1;
        }
        assert(insts@.take(insts.len() as int) == insts@);
    }

    /// Finishes with the backend.
    #[inline]
    pub fn finish(self, builder: &mut FunctionBuilder)
        requires
            built(*old(builder)).open(),
            built(*old(builder)).insts + 1 < LIMIT,
            built(*old(builder)).made < u32::MAX,
        ensures
            finished(built(*old(builder)), built(*final(builder))),
    {
        let word = integer(32).unwrap();
        let result = ins_iconst(builder, word, 0);
        let mut values: Vec<u32> = Vec::new();
        values.push(result);
        ins_return(builder, &values);
        proof {
            let ret = values@.map_values(|v: u32| v as nat);
            assert(ret == seq![result as nat]);
            let t = seq![
                Request::Const { ty: word, imm: 0, value: result as nat },
                Request::Return { values: ret },
            ];
            assert(built(*builder).requests == built(*old(builder)).requests + t);
            lemma_appended(built(*old(builder)), built(*builder), t);
        }
    }
}

} // verus!
