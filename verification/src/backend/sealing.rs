//! The order of edges and seals in what lowering asks for: a loop's header
//! is sealed once, after the jump into the loop and the jump back.

use vstd::prelude::*;
use crate::backend::flow::Request;
use crate::backend::lowering::{
    is_loop_entry, is_loop_exit, lowers, lowers_node, requests_count, Target,
};
use crate::tree::{loop_count, loops_in, Node};

verus! {

/// The number of edges into `block` that `request` records: one for a jump
/// or a branch that may go there.
pub open spec fn edges_to(request: Request, block: nat) -> nat {
    match request {
        Request::Jump { to } => if to == block {
            1
        } else {
            0
        },
        Request::Branch { cond, nonzero, zero } => if nonzero == block || zero == block {
            1
        } else {
            0
        },
        _ => 0,
    }
}

/// The number of edges into `block` that the requests `t` record.
pub open spec fn edges_into(t: Seq<Request>, block: nat) -> nat
    decreases t.len(),
{
    if t.len() == 0 {
        0
    } else {
        edges_into(t.drop_last(), block) + edges_to(t.last(), block)
    }
}

/// The number of blocks that the requests `t` make.
pub open spec fn blocks_made(t: Seq<Request>) -> nat
    decreases t.len(),
{
    if t.len() == 0 {
        0
    } else {
        blocks_made(t.drop_last()) + if t.last() is CreateBlock {
            1nat
        } else {
            0nat
        }
    }
}

/// Every block that `request` names is one of `low`, .., `high - 1`.
pub open spec fn within(request: Request, low: nat, high: nat) -> bool {
    match request {
        Request::CreateBlock { block } => low <= block < high,
        Request::SwitchTo { block } => low <= block < high,
        Request::Seal { block } => low <= block < high,
        Request::Jump { to } => low <= to < high,
        Request::Branch { cond, nonzero, zero } => low <= nonzero < high && low <= zero < high,
        _ => true,
    }
}

/// Every block that a request of `t` names is one of `low`, .., `high - 1`.
pub open spec fn all_within(t: Seq<Request>, low: nat, high: nat) -> bool {
    forall|i: int| 0 <= i < t.len() ==> within(#[trigger] t[i], low, high)
}

/// The edges of two runs of requests add up.
pub proof fn lemma_edges_add(a: Seq<Request>, b: Seq<Request>, block: nat)
    ensures
        edges_into(a + b, block) == edges_into(a, block) + edges_into(b, block),
    decreases b.len(),
{
    if b.len() == 0 {
        assert(a + b == a);
    } else {
        assert((a + b).drop_last() == a + b.drop_last());
        lemma_edges_add(a, b.drop_last(), block);
    }
}

/// The blocks made by two runs of requests add up.
pub proof fn lemma_blocks_made_add(a: Seq<Request>, b: Seq<Request>)
    ensures
        blocks_made(a + b) == blocks_made(a) + blocks_made(b),
    decreases b.len(),
{
    if b.len() == 0 {
        assert(a + b == a);
    } else {
        assert((a + b).drop_last() == a + b.drop_last());
        lemma_blocks_made_add(a, b.drop_last());
    }
}

/// Requests that name no block outside a range record no edge into, and no
/// seal of, a block outside it.
pub proof fn lemma_no_edge_from_outside(t: Seq<Request>, low: nat, high: nat, block: nat)
    requires
        all_within(t, low, high),
        block < low || high <= block,
    ensures
        edges_into(t, block) == 0,
        forall|i: int| 0 <= i < t.len() ==> t[i] != (Request::Seal { block }),
    decreases t.len(),
{
    if t.len() > 0 {
        let front = t.drop_last();
        assert forall|i: int| 0 <= i < front.len() implies within(#[trigger] front[i], low, high) by {
            assert(front[i] == t[i]);
        }
        lemma_no_edge_from_outside(front, low, high, block);
        assert(within(t[t.len() - 1], low, high));
    }
    assert forall|i: int| 0 <= i < t.len() implies t[i] != (Request::Seal { block }) by {
        assert(within(t[i], low, high));
    }
}

/// What lowering asks for a node names only the blocks that the node adds.
pub proof fn lemma_node_names_own_blocks(target: Target, node: Node, base: nat, t: Seq<Request>)
    requires
        lowers_node(target, node, base, t),
    ensures
        all_within(t, base, base + 3 * loops_in(node)),
        blocks_made(t) == 3 * loops_in(node),
    decreases node, 0int,
{
    match node {
        Node::Loop(body) => {
            let inner = requests_count(body);
            let entry = t.take(9);
            let kids = t.subrange(9, 9 + inner as int);
            let exit = t.skip(9 + inner as int);
            lemma_names_own_blocks(target, body, base + 3, kids);
            assert forall|i: int| 0 <= i < t.len() implies within(
                #[trigger] t[i],
                base,
                base + 3 * loops_in(node),
            ) by {
                if i < 9 {
                    assert(t[i] == entry[i]);
                } else if i < 9 + inner {
                    assert(t[i] == kids[i - 9]);
                } else {
                    assert(t[i] == exit[i - 9 - inner]);
                }
            }
            assert(t == entry + kids + exit);
            lemma_blocks_made_add(entry + kids, exit);
            lemma_blocks_made_add(entry, kids);
            lemma_entry_makes_three(target, entry, base);
            lemma_exit_makes_none(exit, base);
        },
        _ => {
            reveal_with_fuel(blocks_made, 5);
        },
    }
}

/// What lowering asks for nodes names only the blocks that the nodes add,
/// and makes three blocks for each loop.
pub proof fn lemma_names_own_blocks(target: Target, nodes: Seq<Node>, base: nat, t: Seq<Request>)
    requires
        lowers(target, nodes, base, t),
    ensures
        all_within(t, base, base + 3 * loop_count(nodes)),
        blocks_made(t) == 3 * loop_count(nodes),
    decreases nodes, 1int,
{
    if nodes.len() > 0 {
        let front = nodes.drop_last();
        let split = requests_count(front) as int;
        let middle = base + 3 * loop_count(front);
        lemma_names_own_blocks(target, front, base, t.take(split));
        lemma_node_names_own_blocks(target, nodes.last(), middle as nat, t.skip(split));
        assert forall|i: int| 0 <= i < t.len() implies within(
            #[trigger] t[i],
            base,
            base + 3 * loop_count(nodes),
        ) by {
            if i < split {
                assert(t[i] == t.take(split)[i]);
            } else {
                assert(t[i] == t.skip(split)[i - split]);
            }
        }
        assert(t == t.take(split) + t.skip(split));
        lemma_blocks_made_add(t.take(split), t.skip(split));
    }
}

/// What lowering asks for a program makes three blocks for each loop in
/// it, nested loops included, and none for a program without loops.
pub proof fn lemma_three_blocks_per_loop(
    target: Target,
    nodes: Seq<Node>,
    base: nat,
    t: Seq<Request>,
)
    requires
        lowers(target, nodes, base, t),
    ensures
        blocks_made(t) == 3 * loop_count(nodes),
        loop_count(nodes) == 0 ==> blocks_made(t) == 0,
{
    lemma_names_own_blocks(target, nodes, base, t);
}

/// The requests that open a loop make its three blocks and record one edge
/// into its header.
proof fn lemma_entry_makes_three(target: Target, entry: Seq<Request>, base: nat)
    requires
        is_loop_entry(target, entry, base),
    ensures
        blocks_made(entry) == 3,
        edges_into(entry, base) == 1,
{
    reveal_with_fuel(blocks_made, 10);
    reveal_with_fuel(edges_into, 10);
}

/// The requests that close a loop make no block and record one edge into
/// its header, before they seal it.
proof fn lemma_exit_makes_none(exit: Seq<Request>, base: nat)
    requires
        is_loop_exit(exit, base),
    ensures
        blocks_made(exit) == 0,
        edges_into(exit, base) == 1,
        edges_into(exit.take(1), base) == 1,
{
    reveal_with_fuel(blocks_made, 6);
    reveal_with_fuel(edges_into, 6);
}

/// In what lowering asks for a loop, the header is sealed once, and when it
/// is, two edges into it are on record: the jump that enters the loop and
/// the jump back from the end of the body. No other edge into it follows.
pub proof fn lemma_header_sealed_after_both_edges(
    target: Target,
    body: Seq<Node>,
    base: nat,
    t: Seq<Request>,
)
    requires
        lowers_node(target, Node::Loop(body), base, t),
    ensures
        t.len() >= 14,
        t[3] == (Request::Jump { to: base }),
        t[t.len() - 5] == (Request::Jump { to: base }),
        t[t.len() - 4] == (Request::Seal { block: base }),
        forall|i: int| 0 <= i < t.len() && t[i] == (Request::Seal { block: base }) ==> i == t.len() - 4,
        edges_into(t.take(t.len() - 4), base) == 2,
        edges_into(t, base) == 2,
{
    let inner = requests_count(body);
    let entry = t.take(9);
    let kids = t.subrange(9, 9 + inner as int);
    let exit = t.skip(9 + inner as int);
    lemma_names_own_blocks(target, body, base + 3, kids);
    lemma_no_edge_from_outside(kids, base + 3, base + 3 + 3 * loop_count(body), base);
    lemma_entry_makes_three(target, entry, base);
    lemma_exit_makes_none(exit, base);
    assert(t[3] == entry[3]);
    assert(t[t.len() - 5] == exit[0]);
    assert(t[t.len() - 4] == exit[1]);
    assert forall|i: int| 0 <= i < t.len() && t[i] == (Request::Seal { block: base }) implies i
        == t.len() - 4 by {
        if i < 9 {
            assert(t[i] == entry[i]);
        } else if i < 9 + inner {
            assert(t[i] == kids[i - 9]);
        } else {
            assert(t[i] == exit[i - 9 - inner]);
        }
    }
    assert(t == entry + kids + exit);
    lemma_edges_add(entry + kids, exit, base);
    lemma_edges_add(entry, kids, base);
    assert(t.take(t.len() - 4) == entry + kids + exit.take(1));
    lemma_edges_add(entry + kids, exit.take(1), base);
}

} // verus!
