//! Identities of callers and accounts.

use vstd::prelude::*;
use crate::error::Error;

verus! {

/// Who calls an operation, owns a position or holds a balance.
///
/// Whether the caller really is this principal is established before the
/// library is called; the library decides only whether this principal may do
/// what it asks.
#[derive(Clone, Copy, Debug, PartialEq, Eq, Structural, Hash)]
pub struct Principal {
    /// The account number that stands for the identity.
    pub id: u64,
}

impl Principal {
    /// The principal with account number `id`.
    pub fn new(id: u64) -> (p: Principal)
        ensures
            p.id == id,
    {
        Principal { id }
    }
}

/// The policy check of every restricted operation: `caller` must be
/// `required`.
pub fn require_principal(caller: Principal, required: Principal) -> (r: Result<(), Error>)
    ensures
        r == (if caller == required {
            Ok::<(), Error>(())
        } else {
            Err(Error::Unauthorized)
        }),
{
    if caller.id == required.id {
        Ok(())
    } else {
        Err(Error::Unauthorized)
    }
}

} // verus!
