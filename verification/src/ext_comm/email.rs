//! The e-mail channel.
use vstd::prelude::*;

verus! {

/// E-mail sending.
pub struct Email {}

impl Email {
    /// An e-mail channel.
    pub fn new() -> (r: Self) {
        Self {  }
    }
}

} // verus!
