use vstd::prelude::*;

verus! {

/// The command line of the interpreter: an expression, or a file that holds
/// one.
pub struct Cli {
    /// Expression or file containing expression
    pub target: String,
    /// Interpret target as expression rather than file
    pub expression: bool,
}

} // verus!
