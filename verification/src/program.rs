//! The compiled artifact of the expression compiler: the ordered compiled
//! expressions plus the aggregate metadata later phases rely on.  A
//! program is constructed once by the compiler and never mutated after.

use vstd::prelude::*;

use crate::expression::Expr;

verus! {

/// Aggregate facts about a compiled program.
#[derive(Debug)]
pub struct ProgramInfo {
    /// Whether the program can fail (or abort on error) at run time.
    pub fallible: bool,
    /// Whether the program holds a deliberate early-termination path.
    pub abortable: bool,
    /// The event paths the program reads, in compile order.
    pub target_queries: Vec<String>,
    /// The event paths the program assigns to, in compile order.
    pub target_assignments: Vec<String>,
}

/// A compiled expression-language program.
#[derive(Debug)]
pub struct Program {
    /// The compiled root expressions, in source order, cut off after the
    /// first expression that never returns.
    pub expressions: Vec<Expr>,
    pub info: ProgramInfo,
}

impl Program {
    /// The aggregate metadata of this program.
    pub fn info(&self) -> (r: &ProgramInfo)
        ensures
            r == &self.info,
    {
        &self.info
    }
}

} // verus!
