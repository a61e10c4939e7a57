//! Fresh identifiers and the wall clock.

use vstd::prelude::*;

verus! {

/// A fresh random identifier: a version 4 UUID (`uuid::Uuid::new_v4`) in
/// its hyphenated form, which the crate's `Display` writes as 36
/// characters. Which UUID comes back is random: only the length is claimed.
#[verifier::external_body]
pub(crate) fn new_id() -> (r: String)
    ensures
        r@.len() == 36,
{
    uuid::Uuid::new_v4().to_string()
}

/// The current Unix time in whole seconds (`std::time::SystemTime::now`);
/// 0 for a clock set before 1970. The value depends on the clock: nothing
/// is claimed of it.
#[verifier::external_body]
pub fn now() -> (r: i64) {
    match std::time::SystemTime::now().duration_since(std::time::UNIX_EPOCH) {
        Ok(d) => d.as_secs() as i64,
        Err(_) => 0,
    }
}


} // verus!
