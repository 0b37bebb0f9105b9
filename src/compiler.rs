//! The whole pipeline: source text in, binary module out.
use vstd::prelude::*;
use crate::ast::ModuleModel;
use crate::encode::{EncodeError, bodies_resolve, compile, exports_resolve, module_bytes};
use crate::parse::{ParseError, module, parse_module};

verus! {

/// Why a source text could not be compiled.
#[derive(Debug, Clone, Copy, PartialEq, Eq, Structural)]
pub enum CompileError {
    /// The text is not a module of the grammar.
    Syntax(ParseError),
    /// An export names a function that the module does not declare.
    UnresolvedExport,
    /// A body names a parameter that its function does not declare.
    UnresolvedIdentifier,
}

/// The binary module for a parsed module, or why it has none.
pub open spec fn encode_model(m: ModuleModel) -> Result<Seq<u8>, CompileError> {
    if !exports_resolve(m) {
        Err(CompileError::UnresolvedExport)
    } else if !bodies_resolve(m) {
        Err(CompileError::UnresolvedIdentifier)
    } else {
        Ok(module_bytes(m))
    }
}

/// What compiling the text `s` gives.
pub open spec fn compile_text(s: Seq<char>) -> Result<Seq<u8>, CompileError> {
    match parse_module(s) {
        Err(e) => Err(CompileError::Syntax(e)),
        Ok(m) => encode_model(m),
    }
}

/// Parses `input` and encodes the module; no bytes come out of a failure.
pub fn compile_source(input: &str) -> (r: Result<Vec<u8>, CompileError>)
    ensures
        r matches Ok(b) ==> compile_text(input@) == Ok::<Seq<u8>, CompileError>(b@),
        r matches Err(e) ==> compile_text(input@) == Err::<Seq<u8>, CompileError>(e),
        r matches Err(CompileError::Syntax(e)) ==> e.pos <= input@.len(),
{
    let m = match module(input) {
        Ok(m) => m,
        Err(e) => return Err(CompileError::Syntax(e)),
    };
    match compile(&m) {
        Ok(b) => Ok(b),
        Err(EncodeError::UnresolvedExport) => Err(CompileError::UnresolvedExport),
        Err(EncodeError::UnresolvedIdentifier) => Err(CompileError::UnresolvedIdentifier),
    }
}

} // verus!
