//! The commands of the compiler, as plain data.

use vstd::prelude::*;

verus! {

/// The Brainfreak compiler.
#[derive(Clone, Debug)]
pub enum Command {
    /// Compiles the provided Brainfreak program into an object file.
    BuildObj(BuildObj),
}

/// Arguments for building an object file.
#[derive(Clone, Debug)]
pub struct BuildObj {
    /// The path to the Brainfreak program to compile.
    pub input_path: String,
    /// The path to write the created object file to.
    pub output_path: String,
}

} // verus!
