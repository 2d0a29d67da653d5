//! The structured errors that every fallible operation of the runtime shell
//! returns; nothing in the core prints, panics or terminates the host.
use vstd::prelude::*;

verus! {

/// One error kind per failure surface of the runtime shell. Each variant
/// carries the diagnostic text that the failing collaborator produced.
#[derive(Debug)]
pub enum RuntimeError {
    /// An extension file could not be read.
    IoError(String),
    /// Source-to-script conversion failed; carries the transpiler's diagnostic.
    TranspileError(String),
    /// The engine reported a parse or runtime error while evaluating source.
    EvaluationError(String),
    /// A module specifier could not be mapped to a usable module record.
    ResolutionError(String),
    /// A native function argument failed type coercion.
    CoercionError(String),
}

} // verus!
