//! Fresh identities, from the `uuid` crate.
//!
//! Believed, not proved: the one function here draws from the machine's source of
//! randomness, so nothing can be said of what it returns.

use vstd::prelude::*;

verus! {

/// `Uuid::new_v4`, written out as a string: a new random UUID.
#[verifier::external_body]
pub(crate) fn random_uuid() -> (uuid: String) {
    uuid::Uuid::new_v4().to_string()
}

} // verus!
