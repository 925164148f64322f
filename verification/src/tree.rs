//! The abstract syntax of a program: what a token or an instruction stands for.

use vstd::prelude::*;

verus! {

/// One node of a program. Tokens and instructions both denote such nodes.
pub enum Node {
    /// Adds one to the current cell.
    DataInc,
    /// Subtracts one from the current cell.
    DataDec,
    /// Moves the data pointer one cell up.
    PtrInc,
    /// Moves the data pointer one cell down.
    PtrDec,
    /// Writes the current cell out.
    Output,
    /// Reads one byte into the current cell.
    Input,
    /// Repeats its children while the current cell is not zero.
    Loop(Seq<Node>),
}

/// The number of nodes in `node` that are not loops: one for a node that is
/// no loop, and for a loop those of its children.
pub open spec fn leaves_in(node: Node) -> nat
    decreases node,
{
    match node {
        Node::Loop(body) => leaf_count(body),
        _ => 1,
    }
}

/// The number of nodes in `nodes` that are not loops, at any depth.
pub open spec fn leaf_count(nodes: Seq<Node>) -> nat
    decreases nodes,
{
    if nodes.len() == 0 {
        0
    } else {
        leaf_count(nodes.drop_last()) + leaves_in(nodes.last())
    }
}

/// The number of loops in `node`, itself included, at any depth.
pub open spec fn loops_in(node: Node) -> nat
    decreases node,
{
    match node {
        Node::Loop(body) => 1 + loop_count(body),
        _ => 0,
    }
}

/// The number of loops in `nodes`, at any depth.
pub open spec fn loop_count(nodes: Seq<Node>) -> nat
    decreases nodes,
{
    if nodes.len() == 0 {
        0
    } else {
        loop_count(nodes.drop_last()) + loops_in(nodes.last())
    }
}

} // verus!
