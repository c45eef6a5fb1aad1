//! The privilege model: a small totally-ordered set of capability tiers.
//! All comparisons go through the numeric ordinal, never through the name.

use vstd::prelude::*;

verus! {

/// Capability tier attached to a resolved identity. New levels append at
/// the top of the order.
#[derive(Clone, Copy, Debug, PartialEq, Eq, Structural)]
pub enum PrivilegeLevel {
    /// Default tier for unauthenticated callers.
    Guest,
    /// Standard tier for authenticated users.
    User,
    /// Highest tier, for administrators.
    Admin,
}

impl PrivilegeLevel {
    /// Position of the level in the total order.
    pub open spec fn ordinal(self) -> int {
        match self {
            PrivilegeLevel::Guest => 0,
            PrivilegeLevel::User => 1,
            PrivilegeLevel::Admin => 2,
        }
    }

    /// The ordinal as the integer stored in a user record.
    pub fn as_i32(self) -> (r: i32)
        ensures
            r == self.ordinal(),
    {
        match self {
            PrivilegeLevel::Guest => 0,
            PrivilegeLevel::User => 1,
            PrivilegeLevel::Admin => 2,
        }
    }
}

/// Decode rule for privilege integers read from storage: 1 and 2 map to
/// `User` and `Admin`; every other value falls back to `Guest`.
pub open spec fn privilege_of_i32(v: i32) -> PrivilegeLevel {
    if v == 1 {
        PrivilegeLevel::User
    } else if v == 2 {
        PrivilegeLevel::Admin
    } else {
        PrivilegeLevel::Guest
    }
}

/// Decodes a stored privilege integer, falling back to `Guest` on any
/// out-of-range value.
pub fn privilege_from_i32(v: i32) -> (r: PrivilegeLevel)
    ensures
        r == privilege_of_i32(v),
{
    if v == 1 {
        PrivilegeLevel::User
    } else if v == 2 {
        PrivilegeLevel::Admin
    } else {
        PrivilegeLevel::Guest
    }
}

/// Compares two levels by their ordinals, never by name. Pure and total.
pub fn compare(a: PrivilegeLevel, b: PrivilegeLevel) -> (r: core::cmp::Ordering)
    ensures
        r == (if a.ordinal() < b.ordinal() {
            core::cmp::Ordering::Less
        } else if a.ordinal() == b.ordinal() {
            core::cmp::Ordering::Equal
        } else {
            core::cmp::Ordering::Greater
        }),
{
    let x = a.as_i32();
    let y = b.as_i32();
    if x < y {
        core::cmp::Ordering::Less
    } else if x == y {
        core::cmp::Ordering::Equal
    } else {
        core::cmp::Ordering::Greater
    }
}

/// What the privilege gate checks: the caller's tier is at least the
/// required tier.
pub open spec fn spec_meets_minimum(actual: PrivilegeLevel, required: PrivilegeLevel) -> bool {
    actual.ordinal() >= required.ordinal()
}

/// True iff `actual` is at least `required` in the privilege order.
pub fn meets_minimum(actual: PrivilegeLevel, required: PrivilegeLevel) -> (r: bool)
    ensures
        r == spec_meets_minimum(actual, required),
{
    actual.as_i32() >= required.as_i32()
}

/// A gate requiring the higher of two distinct levels rejects the lower
/// level, accepts its own level, and accepts every level at or above it.
pub proof fn lemma_gate_orders_levels(a: PrivilegeLevel, b: PrivilegeLevel, c: PrivilegeLevel)
    requires
        a.ordinal() < b.ordinal(),
    ensures
        !spec_meets_minimum(a, b),
        spec_meets_minimum(b, b),
        c.ordinal() >= b.ordinal() ==> spec_meets_minimum(c, b),
{
}

} // verus!
