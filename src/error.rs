use vstd::prelude::*;

verus! {

/// What can go wrong in a run: a token that no rule accepts, or a value
/// that an operator cannot take.
#[derive(Debug)]
pub enum GloxError {
    /// A lexical anomaly or a token that no grammar rule matches: its
    /// description and its 1-based line.
    UnexpectedToken(String, usize),
    /// An operand whose type the operator does not accept.
    RuntimeError(String),
}

} // verus!
