//! What lowering must ask of the function builder: for each node of a
//! program, the requests that stand for it, in order.

use vstd::prelude::*;
use cranelift::codegen::ir::Type;
use crate::backend::builder::int_type;
use crate::backend::flow::{Built, Request, LIMIT};
use crate::tree::{loop_count, loops_in, Node};

verus! {

/// The names that lowering works with.
pub struct Target {
    /// The variable that holds the data pointer.
    pub cursor: nat,
    /// The type of the data pointer: the integer type as wide as an address.
    pub pointer: Type,
    /// The module's function that writes one byte.
    pub putchar: nat,
    /// The module's function that reads one byte.
    pub getchar: nat,
    /// The module's data object that is the tape.
    pub heap: nat,
}

/// The number of requests that stand for `node`.
pub open spec fn request_count(node: Node) -> nat
    decreases node,
{
    match node {
        Node::DataInc | Node::DataDec | Node::Output | Node::Input => 4,
        Node::PtrInc | Node::PtrDec => 3,
        Node::Loop(body) => 14 + requests_count(body),
    }
}

/// The number of requests that stand for `nodes`.
pub open spec fn requests_count(nodes: Seq<Node>) -> nat
    decreases nodes,
{
    if nodes.len() == 0 {
        0
    } else {
        requests_count(nodes.drop_last()) + request_count(nodes.last())
    }
}

/// The room that lowering `node` takes in a function with `declared`
/// variables: one for each instruction, and for each block of a loop two
/// for each variable, which may yet be given a zero there.
pub open spec fn weight(node: Node, declared: nat) -> nat
    decreases node,
{
    match node {
        Node::DataInc | Node::DataDec => 3,
        Node::PtrInc | Node::PtrDec => 1,
        Node::Output | Node::Input => 2,
        Node::Loop(body) => 4 + 6 * declared + weights(body, declared),
    }
}

/// The room that lowering `nodes` takes in a function with `declared`
/// variables.
pub open spec fn weights(nodes: Seq<Node>, declared: nat) -> nat
    decreases nodes,
{
    if nodes.len() == 0 {
        0
    } else {
        weights(nodes.drop_last(), declared) + weight(nodes.last(), declared)
    }
}

/// Holds when `graph` has room for `room` more and for `blocks` more
/// blocks.
pub open spec fn affords(graph: Built, room: nat, blocks: nat) -> bool {
    &&& graph.load() + room < LIMIT
    &&& graph.stock() + 2 * room < u32::MAX
    &&& graph.imported + room < u32::MAX
    &&& graph.blocks + blocks <= LIMIT
}

/// `t` reads the byte under the data pointer, adds `imm` to it in a width
/// of 8 bits, so that the sum wraps from 255 to 0 and from 0 to 255, and
/// stores the sum back to the same address.
pub open spec fn is_cell_update(target: Target, t: Seq<Request>, imm: int) -> bool {
    &&& t.len() == 4
    &&& t[0] matches Request::UseVar { var, value: ptr }
    &&& t[1] matches Request::Load { ty, addr, offset, value: data }
    &&& t[2] matches Request::AddImm { ty: width, arg, imm: by, value: sum }
    &&& var == target.cursor
    &&& Some(ty) == int_type(8) && addr == ptr && offset == 0
    &&& width == ty && arg == data && by == imm
    &&& t[3] == Request::Store { value: sum, addr: ptr, offset: 0 }
}

/// `t` reads the data pointer, adds `imm` to it in the width of an
/// address, and sets the data pointer to the sum. It touches no memory.
pub open spec fn is_pointer_move(target: Target, t: Seq<Request>, imm: int) -> bool {
    &&& t.len() == 3
    &&& t[0] matches Request::UseVar { var, value: ptr }
    &&& t[1] matches Request::AddImm { ty, arg, imm: by, value: sum }
    &&& var == target.cursor
    &&& ty == target.pointer && arg == ptr && by == imm
    &&& t[2] == Request::DefVar { var: target.cursor, value: sum }
}

/// `t` loads the byte under the data pointer and calls the function that
/// writes one byte with it as the only argument.
pub open spec fn is_output(target: Target, t: Seq<Request>) -> bool {
    &&& t.len() == 4
    &&& t[0] matches Request::UseVar { var, value: ptr }
    &&& t[1] matches Request::Load { ty, addr, offset, value: data }
    &&& t[2] matches Request::ImportFunc { func, callee }
    &&& t[3] matches Request::Call { callee: called, args, results }
    &&& var == target.cursor
    &&& Some(ty) == int_type(8) && addr == ptr && offset == 0
    &&& func == target.putchar
    &&& called == callee && args == seq![data]
}

/// `t` calls the function that reads one byte, without arguments, and
/// stores the first value it returns to the byte under the data pointer.
pub open spec fn is_input(target: Target, t: Seq<Request>) -> bool {
    &&& t.len() == 4
    &&& t[0] matches Request::ImportFunc { func, callee }
    &&& t[1] matches Request::Call { callee: called, args, results }
    &&& t[2] matches Request::UseVar { var, value: ptr }
    &&& func == target.getchar
    &&& called == callee && args == Seq::<nat>::empty() && results.len() > 0
    &&& var == target.cursor
    &&& t[3] == Request::Store { value: results[0], addr: ptr, offset: 0 }
}

/// `t` opens a loop whose header, body and exit are the blocks `base`,
/// `base + 1` and `base + 2`: it makes the three, jumps to the header,
/// tests there the byte under the data pointer, and goes on in the body.
pub open spec fn is_loop_entry(target: Target, t: Seq<Request>, base: nat) -> bool {
    &&& t.len() == 9
    &&& t[0] == Request::CreateBlock { block: base }
    &&& t[1] == Request::CreateBlock { block: base + 1 }
    &&& t[2] == Request::CreateBlock { block: base + 2 }
    &&& t[3] == Request::Jump { to: base }
    &&& t[4] == Request::SwitchTo { block: base }
    &&& t[5] matches Request::UseVar { var, value: ptr }
    &&& t[6] matches Request::Load { ty, addr, offset, value: data }
    &&& var == target.cursor
    &&& Some(ty) == int_type(8) && addr == ptr && offset == 0
    &&& t[7] == Request::Branch { cond: data, nonzero: base + 1, zero: base + 2 }
    &&& t[8] == Request::SwitchTo { block: base + 1 }
}

/// `t` closes the loop whose blocks start at `base`: it jumps back to the
/// header, seals header, body and exit in that order, and goes on in the
/// exit.
pub open spec fn is_loop_exit(t: Seq<Request>, base: nat) -> bool {
    &&& t.len() == 5
    &&& t[0] == Request::Jump { to: base }
    &&& t[1] == Request::Seal { block: base }
    &&& t[2] == Request::Seal { block: base + 1 }
    &&& t[3] == Request::Seal { block: base + 2 }
    &&& t[4] == Request::SwitchTo { block: base + 2 }
}

/// `t` is what lowering asks for `node`, when `base` blocks exist already.
pub open spec fn lowers_node(target: Target, node: Node, base: nat, t: Seq<Request>) -> bool
    decreases node,
{
    match node {
        Node::DataInc => is_cell_update(target, t, 1),
        Node::DataDec => is_cell_update(target, t, -1),
        Node::PtrInc => is_pointer_move(target, t, 1),
        Node::PtrDec => is_pointer_move(target, t, -1),
        Node::Output => is_output(target, t),
        Node::Input => is_input(target, t),
        Node::Loop(body) => {
            let inner = requests_count(body);
            &&& t.len() == 14 + inner
            &&& is_loop_entry(target, t.take(9), base)
            &&& lowers(target, body, base + 3, t.subrange(9, 9 + inner as int))
            &&& is_loop_exit(t.skip(9 + inner as int), base)
        },
    }
}

/// `t` is what lowering asks for `nodes`, one after the other, when `base`
/// blocks exist already.
pub open spec fn lowers(target: Target, nodes: Seq<Node>, base: nat, t: Seq<Request>) -> bool
    decreases nodes,
{
    if nodes.len() == 0 {
        t.len() == 0
    } else {
        let front = nodes.drop_last();
        let split = requests_count(front);
        &&& split <= t.len()
        &&& lowers(target, front, base, t.take(split as int))
        &&& lowers_node(target, nodes.last(), base + 3 * loop_count(front), t.skip(split as int))
    }
}

/// The block that is current after `nodes`, when `current` was before and
/// `base` blocks existed: the exit of the last loop among `nodes`, or
/// `current` where there is none.
pub open spec fn last_block(nodes: Seq<Node>, base: nat, current: nat) -> nat
    decreases nodes.len(),
{
    if nodes.len() == 0 {
        current
    } else if nodes.last() is Loop {
        base + 3 * loop_count(nodes.drop_last()) + 2
    } else {
        last_block(nodes.drop_last(), base, current)
    }
}

/// `t` sets up the function: it makes the entry block `base` and makes it
/// current, declares the data pointer with the type of an address, and
/// sets it to the address of the tape.
pub open spec fn is_prologue(target: Target, t: Seq<Request>, base: nat) -> bool {
    &&& t.len() == 6
    &&& t[0] == Request::CreateBlock { block: base }
    &&& t[1] == Request::SwitchTo { block: base }
    &&& t[2] matches Request::DeclareVar { var, ty: ptr }
    &&& t[3] matches Request::ImportData { data, global }
    &&& t[4] matches Request::GlobalAddr { ty, global: of, value: addr }
    &&& var == target.cursor
    &&& ptr == target.pointer
    &&& data == target.heap
    &&& ty == ptr && of == global
    &&& t[5] == Request::DefVar { var: target.cursor, value: addr }
}

/// `t` ends the function: it returns the 32-bit constant zero.
pub open spec fn is_epilogue(t: Seq<Request>) -> bool {
    &&& t.len() == 2
    &&& t[0] matches Request::Const { ty, imm, value }
    &&& Some(ty) == int_type(32) && imm == 0
    &&& t[1] == Request::Return { values: seq![value] }
}

/// The requests that `after` has served beyond those of `before`.
pub open spec fn appended(before: Built, after: Built) -> Seq<Request> {
    after.requests.skip(before.requests.len() as int)
}

/// `after` is `before` with more requests served, by which `blocks` blocks
/// were added and `current` became the current block: the blocks added are
/// sealed, and they and the block that was current are filled, but for
/// `current`, which is open. No variable was declared and no value lost,
/// and no more than `room` was taken.
pub open spec fn grown(before: Built, after: Built, blocks: nat, current: nat, room: nat) -> bool {
    &&& after.wf()
    &&& after.open()
    &&& after.declared == before.declared
    &&& after.load() <= before.load() + room
    &&& after.stock() <= before.stock() + 2 * room
    &&& after.imported <= before.imported + room
    &&& forall|block: nat|
        block < after.blocks ==> #[trigger] after.params[block] <= after.settled[block]
    &&& before.requests.is_prefix_of(after.requests)
    &&& after.blocks == before.blocks + blocks
    &&& after.current == Some(current)
    &&& after.vars == before.vars
    &&& before.values.submap_of(after.values)
    &&& forall|block: nat|
        after.sealed.contains(block) <==> before.sealed.contains(block) || before.blocks <= block
            < after.blocks
    &&& forall|block: nat|
        after.filled.contains(block) <==> before.filled.contains(block) || (block != current && (
        Some(block) == before.current || before.blocks <= block < after.blocks))
}

/// How lowering `node` changes a function: `after` is `before` with the
/// requests for `node` served.
pub open spec fn lowered_node(target: Target, node: Node, before: Built, after: Built) -> bool {
    &&& lowers_node(target, node, before.blocks, appended(before, after))
    &&& grown(
        before,
        after,
        3 * loops_in(node),
        if node is Loop {
            before.blocks + 2
        } else {
            before.current.unwrap()
        },
        weight(node, before.declared),
    )
}

/// How lowering `nodes` changes a function: `after` is `before` with the
/// requests for `nodes` served.
pub open spec fn lowered(target: Target, nodes: Seq<Node>, before: Built, after: Built) -> bool {
    &&& lowers(target, nodes, before.blocks, appended(before, after))
    &&& grown(
        before,
        after,
        3 * loop_count(nodes),
        last_block(nodes, before.blocks, before.current.unwrap()),
        weights(nodes, before.declared),
    )
}

/// How setting up changes a function: `after` is `before` with the entry
/// block made and current, and the data pointer declared.
pub open spec fn prepared(target: Target, before: Built, after: Built) -> bool {
    &&& is_prologue(target, appended(before, after), before.blocks)
    &&& before.requests.is_prefix_of(after.requests)
    &&& after.blocks == before.blocks + 1
    &&& after.current == Some(before.blocks)
    &&& after.filled == before.filled
    &&& after.sealed == before.sealed
    &&& after.vars == before.vars.insert(target.cursor, target.pointer)
    &&& after.declared == before.declared + 1
    &&& after.load() <= before.load() + 2 * before.declared + 2 * before.blocks + 3
    &&& after.stock() <= before.stock() + 2 * (2 * before.declared + 2 * before.blocks + 3)
    &&& after.imported <= before.imported + 1
    &&& before.values.submap_of(after.values)
}

/// How finishing changes a function: `after` is `before` with the return
/// appended, which fills the block that was current.
pub open spec fn finished(before: Built, after: Built) -> bool {
    &&& is_epilogue(appended(before, after))
    &&& before.requests.is_prefix_of(after.requests)
    &&& after.blocks == before.blocks
    &&& after.current == before.current
    &&& after.filled == before.filled.insert(before.current.unwrap())
    &&& after.sealed == before.sealed
    &&& after.vars == before.vars
    &&& after.insts == before.insts + 2
    &&& after.made == before.made + 1
    &&& before.values.submap_of(after.values)
}

/// What lowering asks for a node is as many requests as `request_count` says.
pub proof fn lemma_lowers_node_len(target: Target, node: Node, base: nat, t: Seq<Request>)
    requires
        lowers_node(target, node, base, t),
    ensures
        t.len() == request_count(node),
{
}

/// What lowering asks for nodes is as many requests as `requests_count` says.
pub proof fn lemma_lowers_len(target: Target, nodes: Seq<Node>, base: nat, t: Seq<Request>)
    requires
        lowers(target, nodes, base, t),
    ensures
        t.len() == requests_count(nodes),
    decreases nodes.len(),
{
    if nodes.len() > 0 {
        let front = nodes.drop_last();
        let split = requests_count(front);
        lemma_lowers_node_len(
            target,
            nodes.last(),
            base + 3 * loop_count(front),
            t.skip(split as int),
        );
    }
}

/// The block that is current after `nodes` is the one that was current
/// before, or one of the blocks that `nodes` added.
pub proof fn lemma_last_block(nodes: Seq<Node>, base: nat, current: nat)
    ensures
        last_block(nodes, base, current) == current || base <= last_block(nodes, base, current)
            < base + 3 * loop_count(nodes),
    decreases nodes.len(),
{
    if nodes.len() > 0 {
        assert(loop_count(nodes) == loop_count(nodes.drop_last()) + loops_in(nodes.last()));
        if !(nodes.last() is Loop) {
            lemma_last_block(nodes.drop_last(), base, current);
        }
    }
}

/// Where `after` has served `t` beyond what `before` had, `t` is what was
/// appended.
pub proof fn lemma_appended(before: Built, after: Built, t: Seq<Request>)
    requires
        after.requests == before.requests + t,
    ensures
        appended(before, after) == t,
        before.requests.is_prefix_of(after.requests),
{
    assert(appended(before, after) =~= t);
    assert(before.requests =~= after.requests.subrange(0, before.requests.len() as int));
}

/// What was appended, put after what was there, is all that was served.
pub proof fn lemma_prefix(before: Built, after: Built)
    requires
        before.requests.is_prefix_of(after.requests),
    ensures
        after.requests == before.requests + appended(before, after),
{
    assert(after.requests =~= before.requests + appended(before, after));
}

/// Part of a program takes no more room and has no more loops than the
/// whole.
pub proof fn lemma_weights_take(nodes: Seq<Node>, declared: nat, n: int)
    requires
        0 <= n <= nodes.len(),
    ensures
        weights(nodes.take(n), declared) <= weights(nodes, declared),
        loop_count(nodes.take(n)) <= loop_count(nodes),
    decreases nodes.len(),
{
    if n == nodes.len() {
        assert(nodes.take(n) == nodes);
    } else {
        assert(nodes.drop_last().take(n) == nodes.take(n));
        lemma_weights_take(nodes.drop_last(), declared, n);
    }
}

/// Each loop takes ten or more.
pub proof fn lemma_weights_loops(nodes: Seq<Node>, declared: nat)
    requires
        declared >= 1,
    ensures
        10 * loop_count(nodes) <= weights(nodes, declared),
    decreases nodes,
{
    if nodes.len() > 0 {
        lemma_weights_loops(nodes.drop_last(), declared);
        assert(loop_count(nodes) == loop_count(nodes.drop_last()) + loops_in(nodes.last()));
        assert(weights(nodes, declared) == weights(nodes.drop_last(), declared) + weight(
            nodes.last(),
            declared,
        ));
        match nodes.last() {
            Node::Loop(body) => {
                lemma_weights_loops(body, declared);
                assert(6 * declared >= 6) by (nonlinear_arith)
                    requires
                        declared >= 1,
                ;
            },
            _ => {},
        }
    }
}

/// Lowering nodes and then one more node is lowering them all.
pub proof fn lemma_lowered_push(
    target: Target,
    nodes: Seq<Node>,
    node: Node,
    start: Built,
    middle: Built,
    end: Built,
)
    requires
        start.wf(),
        start.open(),
        lowered(target, nodes, start, middle),
        lowered_node(target, node, middle, end),
    ensures
        lowered(target, nodes.push(node), start, end),
{
    let all = nodes.push(node);
    assert(all.drop_last() == nodes);
    assert(all.last() == node);
    let first = appended(start, middle);
    let second = appended(middle, end);
    lemma_prefix(start, middle);
    lemma_prefix(middle, end);
    assert(end.requests == start.requests + (first + second)) by {
        assert(end.requests =~= start.requests + (first + second));
    }
    lemma_appended(start, end, first + second);
    lemma_lowers_len(target, nodes, start.blocks, first);
    assert((first + second).take(first.len() as int) == first);
    assert((first + second).skip(first.len() as int) == second);
    lemma_last_block(nodes, start.blocks, start.current.unwrap());
    vstd::map_lib::lemma_submap_of_trans(start.values, middle.values, end.values);
}

} // verus!
