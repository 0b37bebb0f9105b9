//! Compiles the textual, S-expression form of a small stack-machine module
//! into its binary container format.
use vstd::prelude::*;

pub mod ast;
pub mod leb;
pub mod encode;
pub mod lex;
pub mod parse;
pub mod compiler;
pub mod laws;
pub mod roundtrip;

verus! {

} // verus!
