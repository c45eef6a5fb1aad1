//! Per-request identity resolution. Every inbound request passes here
//! exactly once: it resolves to an identity/privilege pair, or to the guest
//! default when no credential is present or the credential is invalid. The
//! interceptor never rejects a request over its credential; only a store
//! failure is fatal to the request.

use vstd::prelude::*;
use vstd::string::StrSliceExecFns;
use crate::errors::AuthError;
use crate::models::User;
use crate::privilege::{PrivilegeLevel, privilege_of_i32};
use crate::store::{ApiKeyDirectory, find_by_api_key};

verus! {

/// Ephemeral, request-scoped record of the resolved identity: who makes the
/// request and what they are allowed to do. Never shared across requests.
#[derive(Debug)]
pub struct RequestContext {
    /// The resolved user, or `None` for a guest.
    pub user: Option<User>,
    /// The caller's privilege tier.
    pub privilege: PrivilegeLevel,
}

impl RequestContext {
    /// The two fields are never independently set: a resolved user carries
    /// exactly the privilege decoded from its record, a guest carries the
    /// guest tier.
    pub open spec fn wf(self) -> bool {
        match self.user {
            Some(u) => self.privilege == privilege_of_i32(u.privilege_level),
            None => self.privilege == PrivilegeLevel::Guest,
        }
    }

    /// The default context: unauthenticated, guest tier.
    pub fn guest() -> (c: Self)
        ensures
            c.wf(),
            c.user is None,
            c.privilege == PrivilegeLevel::Guest,
    {
        RequestContext { user: None, privilege: PrivilegeLevel::Guest }
    }

    /// The context of a resolved user.
    pub fn for_user(u: &User) -> (c: Self)
        ensures
            c.wf(),
            c.user == Some(*u),
            c.privilege == privilege_of_i32(u.privilege_level),
    {
        let copy = User {
            id: u.id,
            email: u.email.clone(),
            api_key: u.api_key.clone(),
            privilege_level: u.privilege_level,
        };
        let privilege = crate::privilege::privilege_from_i32(u.privilege_level);
        RequestContext { user: Some(copy), privilege }
    }
}

/// The seven characters of the bearer scheme prefix.
pub open spec fn bearer_prefix() -> Seq<char> {
    seq!['B', 'e', 'a', 'r', 'e', 'r', ' ']
}

/// The credential carried by an Authorization header value, if the value
/// uses the bearer scheme.
pub open spec fn bearer_token_of(h: Seq<char>) -> Option<Seq<char>> {
    if h.len() >= 7 && h.subrange(0, 7) == bearer_prefix() {
        Some(h.skip(7))
    } else {
        None
    }
}

/// Strips the bearer scheme from a header value.
pub fn extract_bearer(header: &str) -> (r: Option<String>)
    ensures
        match r {
            Some(t) => bearer_token_of(header@) == Some(t@),
            None => bearer_token_of(header@) is None,
        },
{
    let n = header.unicode_len();
    if n < 7 {
        return None;
    }
    let ok = header.get_char(0) == 'B' && header.get_char(1) == 'e' && header.get_char(2) == 'a'
        && header.get_char(3) == 'r' && header.get_char(4) == 'e' && header.get_char(5) == 'r'
        && header.get_char(6) == ' ';
    proof {
        let pre = header@.subrange(0, 7);
        assert(pre[0] == header@[0] && pre[1] == header@[1] && pre[2] == header@[2] && pre[3]
            == header@[3] && pre[4] == header@[4] && pre[5] == header@[5] && pre[6] == header@[6]);
        if ok {
            assert(pre =~= bearer_prefix());
        }
    }
    if !ok {
        return None;
    }
    let rest = header.substring_char(7, n);
    proof {
        assert(rest@ =~= header@.skip(7));
    }
    Some(rest.to_owned())
}

/// Resolution of one request against an in-memory directory: the bearer
/// credential is looked up as an API key; an absent or unknown credential
/// resolves to the guest default.
pub open spec fn spec_resolve(header: Option<Seq<char>>, dir: Seq<User>) -> RequestContext {
    let guest = RequestContext { user: None, privilege: PrivilegeLevel::Guest };
    match header {
        None => guest,
        Some(h) => match bearer_token_of(h) {
            None => guest,
            Some(key) => match find_by_api_key(dir, key) {
                None => guest,
                Some(u) => RequestContext {
                    user: Some(u),
                    privilege: privilege_of_i32(u.privilege_level),
                },
            },
        },
    }
}

/// Resolves one request: the context is a pure function of the header and
/// the directory contents, so concurrent requests cannot influence each
/// other's resolution.
pub fn resolve_request(header: Option<&str>, dir: &ApiKeyDirectory) -> (ctx: RequestContext)
    ensures
        ctx.wf(),
        ctx == spec_resolve(
            match header {
                Some(h) => Some(h@),
                None => None::<Seq<char>>,
            },
            dir.users@,
        ),
{
    match header {
        None => RequestContext::guest(),
        Some(h) => match extract_bearer(h) {
            None => RequestContext::guest(),
            Some(key) => match dir.find_user_by_api_key(key.as_str()) {
                None => RequestContext::guest(),
                Some(i) => RequestContext::for_user(&dir.users[i]),
            },
        },
    }
}

/// Resolution where an external store has already answered the lookup: a
/// store failure is fatal to the request and never conflated with "not
/// found"; otherwise absent and unknown credentials resolve to the guest
/// default and the request proceeds.
pub fn context_from_lookup(lookup: Result<Option<User>, AuthError>) -> (r: Result<
    RequestContext,
    AuthError,
>)
    ensures
        match lookup {
            Err(_) => r == Err::<RequestContext, AuthError>(AuthError::StoreUnavailable),
            Ok(None) => (r matches Ok(c) && c.wf() && c.user is None && c.privilege
                == PrivilegeLevel::Guest),
            Ok(Some(u)) => (r matches Ok(c) && c.wf() && c.user == Some(u) && c.privilege
                == privilege_of_i32(u.privilege_level)),
        },
{
    match lookup {
        Err(_) => Err(AuthError::StoreUnavailable),
        Ok(None) => Ok(RequestContext::guest()),
        Ok(Some(u)) => {
            let ctx = RequestContext::for_user(&u);
            Ok(ctx)
        },
    }
}

/// Requests that bear the same credential against the same store contents
/// resolve to the identical context: resolution is a function of the
/// request and the store alone, with no shared mutable state between
/// requests.
pub proof fn lemma_resolution_independent(
    h: Option<Seq<char>>,
    dir: Seq<User>,
    c1: RequestContext,
    c2: RequestContext,
)
    requires
        c1 == spec_resolve(h, dir),
        c2 == spec_resolve(h, dir),
    ensures
        c1 == c2,
{
}

} // verus!
