//! Bodies of answers.
use vstd::prelude::*;

verus! {

/// The body of an answer that only reports success.
#[derive(Debug, Clone, Copy)]
pub struct Success {
    pub success: bool,
}

} // verus!
