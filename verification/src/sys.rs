//! The two points where the library touches the machine: the clock and
//! the random identifier generator. Both are trusted wrappers; nothing
//! downstream depends on more than what is stated here.

use vstd::prelude::*;

verus! {

/// Relies on `std::time::SystemTime::now`: the seconds elapsed since
/// the Unix epoch. The value depends on the clock, so nothing is
/// promised of it.
#[verifier::external_body]
pub fn now_epoch_secs() -> u64 {
    match std::time::SystemTime::now().duration_since(std::time::UNIX_EPOCH) {
        Ok(d) => d.as_secs(),
        Err(_) => 0,
    }
}

/// Relies on `uuid::Uuid::new_v4`: a freshly generated random
/// identifier, rendered in the crate's `chatcmpl-` form. The identifier
/// is random, so only the fixed prefix is promised.
#[verifier::external_body]
pub fn mint_request_id() -> (r: String)
    ensures
        r@.len() > 9,
        r@.subrange(0, 9) == "chatcmpl-"@,
{
    format!("chatcmpl-{}", uuid::Uuid::new_v4())
}

} // verus!
