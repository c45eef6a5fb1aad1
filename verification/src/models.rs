//! Identity records for the API-key deployment variant: a user row as the
//! persistence engine stores it, with the privilege decode rule.

use vstd::prelude::*;
use crate::privilege::{PrivilegeLevel, privilege_of_i32, privilege_from_i32};

verus! {

/// A user as stored by the persistence engine for API-key authentication.
#[derive(Clone, Debug)]
pub struct User {
    /// Unique identifier (primary key in the store).
    pub id: i32,
    /// Unique email address of the user.
    pub email: String,
    /// Static API key identifying the user without a login exchange.
    pub api_key: String,
    /// Privilege level as the store keeps it: a raw integer.
    pub privilege_level: i32,
}

impl User {
    /// Decodes the stored integer into a `PrivilegeLevel`, falling back to
    /// `Guest` on out-of-range values.
    pub fn privilege_level(&self) -> (r: PrivilegeLevel)
        ensures
            r == privilege_of_i32(self.privilege_level),
    {
        privilege_from_i32(self.privilege_level)
    }
}

} // verus!
