//! What a password prompt hands to the daemon and its clients.

use vstd::prelude::*;

verus! {

/// The password that a terminal prompt yielded. The prompt itself belongs to
/// the caller; a prompt that failed has no password, and the caller must not
/// go on with one.
pub fn xpassword<E: core::fmt::Debug>(entered: Result<String, E>) -> (password: String)
    requires
        entered is Ok,
    ensures
        Ok::<String, E>(password) == entered,
{
    entered.unwrap()
}

} // verus!
