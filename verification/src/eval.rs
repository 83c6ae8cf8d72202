//! The error type that expression evaluation reports. Evaluation itself
//! performs floating-point arithmetic and therefore lives with the
//! surrounding program, not in this library.

use vstd::prelude::*;

verus! {

/// A descriptive evaluation failure carrying a human-readable message.
#[derive(Debug, Clone)]
pub struct EvalError {
    pub msg: String,
}

impl EvalError {
    pub fn new(msg: String) -> (e: EvalError)
        ensures
            e.msg@ == msg@,
    {
        EvalError { msg }
    }
}

} // verus!
