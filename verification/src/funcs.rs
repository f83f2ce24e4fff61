//! The registry of functions an expression program may call: a read-only
//! table of identifiers, parameter lists and return behaviour, shared by
//! every compilation.

use vstd::prelude::*;

use crate::kind::Kind;
use crate::text::str_eq;

verus! {

/// One declared parameter of a registered function.
#[derive(Debug)]
pub struct Parameter {
    pub keyword: String,
    pub kind: Kind,
    pub required: bool,
}

/// The compile-time description of one callable function.
#[derive(Debug)]
pub struct FunctionSpec {
    pub ident: String,
    pub parameters: Vec<Parameter>,
    /// The kind of the value a successful call returns.
    pub return_kind: Kind,
    /// Whether a call can fail at run time.
    pub fallible: bool,
    /// Whether a call may carry a closure.
    pub takes_closure: bool,
    /// Whether calls should draw a deprecation warning.
    pub deprecated: bool,
}

/// The first registered function with the given identifier.
pub fn find_function<'a>(fns: &'a Vec<FunctionSpec>, ident: &str) -> (r: Option<&'a FunctionSpec>)
    ensures
        match r {
            Some(f) => exists|i: int|
                0 <= i < fns@.len() && fns@[i].ident@ == ident@ && f == &fns@[i],
            None => forall|i: int| 0 <= i < fns@.len() ==> fns@[i].ident@ != ident@,
        },
{
    let n = fns.len();
    let mut i: usize = 0;
    while i < n
        invariant
            i <= n,
            n == fns@.len(),
            forall|k: int| 0 <= k < i ==> fns@[k].ident@ != ident@,
        decreases n - i,
    {
        if str_eq(fns[i].ident.as_str(), ident) {
            proof {
                assert(fns@[i as int].ident@ == ident@);
            }
            return Some(&fns[i]);
        }
        i = i + 1;
    }
    None
}

} // verus!
