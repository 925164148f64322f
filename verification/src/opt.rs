//! The optimizer for Brainfreak.

use vstd::prelude::*;
use crate::inst::{inst_nodes, lemma_token_nodes_take, Inst};
use crate::parser::{token_nodes, Token};
use crate::tree::Node;

verus! {

/// A context for optimizing Brainfreak code.
#[derive(Clone, Debug)]
pub struct Optimizer {
    /// The instructions in the optimizer.
    insts: Vec<Inst>,
}

impl View for Optimizer {
    type V = Seq<Node>;

    /// The program that the optimizer holds.
    closed spec fn view(&self) -> Seq<Node> {
        inst_nodes(self.insts@)
    }
}

impl Optimizer {
    /// Creates a new [Optimizer].
    #[inline]
    pub fn new() -> (optimizer: Self)
        ensures
            optimizer@ == Seq::<Node>::empty(),
    {
        Self { insts: Vec::new() }
    }

    /// Writes the provided [Token]s as [Inst]s to this [Optimizer].
    #[inline]
    pub fn write_tokens(&mut self, tokens: &[Token])
        ensures
            final(self)@ == old(self)@ + token_nodes(tokens@),
    {
        let mut i: usize = 0;
        while i < tokens.len()
            invariant
                i <= tokens.len(),
                self@ == old(self)@ + token_nodes(tokens@.take(i as int)),
            decreases tokens.len() - i,
        {
            let inst = Inst::from_token(&tokens[i]);
            proof {
                lemma_token_nodes_take(tokens@, i as int);
                assert(self.insts@.push(inst).drop_last() == self.insts@);
            }
            self.insts.push(inst);
            i += 1;
        }
        assert(tokens@.take(tokens.len() as int) == tokens@);
    }

    /// Returns the optimized instructions.
    #[inline]
    pub fn finish(self) -> (insts: Vec<Inst>)
        ensures
            inst_nodes(insts@) == self@,
    {
        self.insts
    }
}

} // verus!
