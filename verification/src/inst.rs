//! Instructions: what the optimizer rewrites and the backend lowers.

use vstd::prelude::*;
use crate::parser::{token_nodes, Token};
use crate::tree::Node;

verus! {

/// A Brainfreak instruction.
///
/// Includes some optimized instructions to make the final result smaller/faster.
#[derive(Debug, PartialEq, Eq)]
pub enum Inst {
    /// Increments the data that the data pointer currently points to.
    DataInc,
    /// Decrements the data that the data pointer currently points to.
    DataDec,
    /// Increments the data pointer.
    PtrInc,
    /// Decrements the data pointer.
    PtrDec,
    /// Outputs the data that the data pointer currently points to.
    Output,
    /// Inputs a byte of data to the location that the data pointer currently points to.
    Input,
    /// A loop that runs until the byte at the current data pointer is 0.
    Loop(Vec<Inst>),
}

impl View for Inst {
    type V = Node;

    open spec fn view(&self) -> Node
        decreases self,
    {
        match self {
            Inst::DataInc => Node::DataInc,
            Inst::DataDec => Node::DataDec,
            Inst::PtrInc => Node::PtrInc,
            Inst::PtrDec => Node::PtrDec,
            Inst::Output => Node::Output,
            Inst::Input => Node::Input,
            Inst::Loop(insts) => Node::Loop(inst_nodes(insts@)),
        }
    }
}

/// The nodes that a sequence of instructions stands for.
pub open spec fn inst_nodes(insts: Seq<Inst>) -> Seq<Node>
    decreases insts,
{
    if insts.len() == 0 {
        Seq::empty()
    } else {
        inst_nodes(insts.drop_last()).push(insts.last()@)
    }
}

/// The nodes of the first `n` instructions are the first `n` nodes, and the
/// node at an index is that of the instruction there.
pub proof fn lemma_inst_nodes_index(insts: Seq<Inst>, i: int)
    requires
        0 <= i < insts.len(),
    ensures
        inst_nodes(insts).len() == insts.len(),
        inst_nodes(insts)[i] == insts[i]@,
        inst_nodes(insts.take(i + 1)) == inst_nodes(insts.take(i)).push(insts[i]@),
    decreases insts.len(),
{
    lemma_inst_nodes_len(insts);
    lemma_inst_nodes_len(insts.drop_last());
    assert(inst_nodes(insts) == inst_nodes(insts.drop_last()).push(insts.last()@));
    if i < insts.len() - 1 {
        lemma_inst_nodes_index(insts.drop_last(), i);
    }
    assert(insts.take(i + 1).drop_last() == insts.take(i));
}

/// The nodes of the first `n` instructions are the first `n` nodes.
pub proof fn lemma_inst_nodes_take(insts: Seq<Inst>, n: int)
    requires
        0 <= n <= insts.len(),
    ensures
        inst_nodes(insts.take(n)) == inst_nodes(insts).take(n),
    decreases n,
{
    lemma_inst_nodes_len(insts);
    if n == 0 {
        assert(insts.take(0).len() == 0);
        assert(inst_nodes(insts).take(0) == Seq::<Node>::empty());
    } else {
        lemma_inst_nodes_take(insts, n - 1);
        lemma_inst_nodes_index(insts, n - 1);
        assert(inst_nodes(insts).take(n) == inst_nodes(insts).take(n - 1).push(
            inst_nodes(insts)[n - 1],
        ));
    }
}

/// There are as many nodes as instructions.
pub proof fn lemma_inst_nodes_len(insts: Seq<Inst>)
    ensures
        inst_nodes(insts).len() == insts.len(),
    decreases insts.len(),
{
    if insts.len() > 0 {
        lemma_inst_nodes_len(insts.drop_last());
        assert(inst_nodes(insts) == inst_nodes(insts.drop_last()).push(insts.last()@));
    }
}

/// The nodes of the first `n` tokens, extended by one token.
pub proof fn lemma_token_nodes_take(tokens: Seq<Token>, i: int)
    requires
        0 <= i < tokens.len(),
    ensures
        token_nodes(tokens.take(i + 1)) == token_nodes(tokens.take(i)).push(tokens[i]@),
{
    assert(tokens.take(i + 1).drop_last() == tokens.take(i));
}

impl Clone for Inst {
    /// Copies the instruction, and every instruction inside it.
    fn clone(&self) -> (inst: Self)
        ensures
            inst@ == self@,
        decreases self,
    {
        match self {
            Inst::DataInc => Inst::DataInc,
            Inst::DataDec => Inst::DataDec,
            Inst::PtrInc => Inst::PtrInc,
            Inst::PtrDec => Inst::PtrDec,
            Inst::Output => Inst::Output,
            Inst::Input => Inst::Input,
            Inst::Loop(insts) => {
                let mut copies: Vec<Inst> = Vec::new();
                let mut i: usize = 0;
                while i < insts.len()
                    invariant
                        *self == Inst::Loop(*insts),
                        i <= insts.len(),
                        inst_nodes(copies@) == inst_nodes(insts@.take(i as int)),
                    decreases insts.len() - i,
                {
                    proof {
                        vstd::std_specs::vec::axiom_vec_index_decreases(*insts, i as int);
                        assert(decreases_to!(*self => self->Loop_0));
                    }
                    let copy = insts[i].clone();
                    proof {
                        lemma_inst_nodes_index(insts@, i as int);
                        assert(copies@.push(copy).drop_last() == copies@);
                    }
                    copies.push(copy);
                    i += 1;
                }
                assert(insts@.take(insts.len() as int) == insts@);
                Inst::Loop(copies)
            },
        }
    }
}

impl Inst {
    /// Creates an [Inst] from the provided token.
    pub fn from_token(token: &Token) -> (inst: Self)
        ensures
            inst@ == token@,
        decreases token,
    {
        match token {
            Token::DataInc => Self::DataInc,
            Token::DataDec => Self::DataDec,
            Token::PtrInc => Self::PtrInc,
            Token::PtrDec => Self::PtrDec,
            Token::Output => Self::Output,
            Token::Input => Self::Input,
            Token::Loop(tokens) => {
                let mut insts: Vec<Inst> = Vec::new();
                let mut i: usize = 0;
                while i < tokens.len()
                    invariant
                        *token == Token::Loop(*tokens),
                        i <= tokens.len(),
                        inst_nodes(insts@) == token_nodes(tokens@.take(i as int)),
                    decreases tokens.len() - i,
                {
                    proof {
                        vstd::std_specs::vec::axiom_vec_index_decreases(*tokens, i as int);
                        assert(decreases_to!(*token => token->Loop_0));
                    }
                    let inst = Self::from_token(&tokens[i]);
                    proof {
                        lemma_token_nodes_take(tokens@, i as int);
                        assert(insts@.push(inst).drop_last() == insts@);
                    }
                    insts.push(inst);
                    i += 1;
                }
                assert(tokens@.take(tokens.len() as int) == tokens@);
                Self::Loop(insts)
            },
        }
    }
}

} // verus!
