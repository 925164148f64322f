//! A compiler front end for Brainfreak: source text is parsed into a tree of
//! tokens, turned into instructions, and lowered into a control-flow graph
//! that a Cranelift function builder assembles.

pub mod args;
pub mod backend;
pub mod grammar;
pub mod inst;
pub mod opt;
pub mod parser;
pub mod text;
pub mod tree;
