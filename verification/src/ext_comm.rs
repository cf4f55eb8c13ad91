//! Messages to the outside world (the sending itself is the caller's part).
pub mod email;

use vstd::prelude::*;
use crate::ext_comm::email::Email;

verus! {

/// The channels messages go out by.
pub struct ExtComm {
    pub email: Email,
}

impl ExtComm {
    /// Channels with e-mail.
    pub fn new() -> (r: Self) {
        Self { email: Email::new() }
    }
}

} // verus!
