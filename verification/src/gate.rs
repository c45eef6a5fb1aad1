//! The privilege gate: a stateless check of the resolved context against a
//! route-declared minimum tier. Gates compose; the strictest applies.

use vstd::prelude::*;
use crate::context::RequestContext;
use crate::errors::AuthError;
use crate::privilege::{PrivilegeLevel, meets_minimum, spec_meets_minimum};

verus! {

/// Accepts exactly the contexts whose privilege is at least `min_level`;
/// everything below fails with `InsufficientPrivilege`.
pub fn require_privilege(min_level: PrivilegeLevel, ctx: &RequestContext) -> (r: Result<
    (),
    AuthError,
>)
    ensures
        r == if spec_meets_minimum(ctx.privilege, min_level) {
            Ok::<(), AuthError>(())
        } else {
            Err::<(), AuthError>(AuthError::InsufficientPrivilege)
        },
{
    if meets_minimum(ctx.privilege, min_level) {
        Ok(())
    } else {
        Err(AuthError::InsufficientPrivilege)
    }
}

/// Chained gates admit exactly what the strictest of them admits.
pub proof fn lemma_chained_gates_strictest(
    p: PrivilegeLevel,
    m1: PrivilegeLevel,
    m2: PrivilegeLevel,
)
    requires
        m1.ordinal() <= m2.ordinal(),
    ensures
        (spec_meets_minimum(p, m1) && spec_meets_minimum(p, m2)) == spec_meets_minimum(p, m2),
{
}

} // verus!
