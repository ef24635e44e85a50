//! The registry's role checks.
use vstd::prelude::*;
use crate::env::Address;
use crate::task_registry::registry::RegistryError;
use crate::task_registry::storage::{self, RegistryState, RegistryStorage};

verus! {

/// `Ok` exactly when `addr` is the admin.
pub open spec fn admin_check(s: RegistryState, addr: Address) -> Result<(), RegistryError> {
    if addr == s.admin.unwrap() {
        Ok(())
    } else {
        Err(RegistryError::Unauthorized)
    }
}

/// `Ok` exactly when `addr` is the admin or a sponsor.
pub open spec fn sponsor_check(s: RegistryState, addr: Address) -> Result<(), RegistryError> {
    if addr == s.admin.unwrap() || s.sponsors.contains(addr) {
        Ok(())
    } else {
        Err(RegistryError::Unauthorized)
    }
}

/// Requires `addr` to be the admin.
pub fn require_admin(s: &RegistryStorage, addr: Address) -> (r: Result<(), RegistryError>)
    requires
        s@.admin is Some,
    ensures
        r == admin_check(s@, addr),
{
    let admin = storage::read_admin(s);
    if addr != admin {
        return Err(RegistryError::Unauthorized);
    }
    Ok(())
}

/// Requires `addr` to be the admin or a sponsor.
pub fn require_sponsor(s: &RegistryStorage, addr: Address) -> (r: Result<(), RegistryError>)
    requires
        s.wf(),
        s@.admin is Some,
    ensures
        r == sponsor_check(s@, addr),
{
    let admin = storage::read_admin(s);
    if addr == admin {
        return Ok(());
    }
    if !storage::is_sponsor(s, addr) {
        return Err(RegistryError::Unauthorized);
    }
    Ok(())
}

} // verus!
