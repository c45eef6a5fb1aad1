//! The route registry: a table of explicit route descriptors — path and
//! required protection kind — rather than type-erased callables, so the
//! guard logic is inspectable apart from the dispatch mechanism. The
//! dispatch layer pairs each entry with its handler by position.

use vstd::prelude::*;

verus! {

/// The protection declared in front of a route's handler.
#[derive(Debug)]
pub enum Protection {
    /// Accessible without any credential.
    Open,
    /// Guarded by a shared secret expected in the `password` query
    /// parameter.
    SharedSecret(String),
    /// Guarded by a valid bearer token; the handler receives the subject id
    /// as an explicit argument.
    BearerRequired,
}

/// One declared route.
#[derive(Debug)]
pub struct RouteEntry {
    /// The URL path the route answers on.
    pub path: String,
    /// The protection in front of its handler.
    pub protection: Protection,
}

/// The declared routes, in registration order.
#[derive(Debug)]
pub struct Routes {
    /// The route table.
    pub entries: Vec<RouteEntry>,
}

impl Routes {
    /// An empty registry.
    pub fn new() -> (r: Self)
        ensures
            r.entries@.len() == 0,
    {
        Routes { entries: Vec::new() }
    }

    /// Declares an open route.
    pub fn add_route(self, path: &str) -> (r: Self)
        ensures
            r.entries@.len() == self.entries@.len() + 1,
            r.entries@.subrange(0, self.entries@.len() as int) == self.entries@,
            r.entries@.last().path@ == path@,
            r.entries@.last().protection is Open,
    {
        let mut entries = self.entries;
        let ghost before = entries@;
        entries.push(RouteEntry { path: String::from_str(path), protection: Protection::Open });
        proof {
            assert(entries@.subrange(0, before.len() as int) =~= before);
        }
        Routes { entries }
    }

    /// Declares a route guarded by a shared secret in the query string.
    pub fn add_route_with_password(self, path: &str, password: &str) -> (r: Self)
        ensures
            r.entries@.len() == self.entries@.len() + 1,
            r.entries@.subrange(0, self.entries@.len() as int) == self.entries@,
            r.entries@.last().path@ == path@,
            r.entries@.last().protection matches Protection::SharedSecret(p) && p@ == password@,
    {
        let mut entries = self.entries;
        let ghost before = entries@;
        entries.push(
            RouteEntry {
                path: String::from_str(path),
                protection: Protection::SharedSecret(String::from_str(password)),
            },
        );
        proof {
            assert(entries@.subrange(0, before.len() as int) =~= before);
        }
        Routes { entries }
    }

    /// Declares a route guarded by a required bearer token.
    pub fn add_route_with_auth(self, path: &str) -> (r: Self)
        ensures
            r.entries@.len() == self.entries@.len() + 1,
            r.entries@.subrange(0, self.entries@.len() as int) == self.entries@,
            r.entries@.last().path@ == path@,
            r.entries@.last().protection is BearerRequired,
    {
        let mut entries = self.entries;
        let ghost before = entries@;
        entries.push(
            RouteEntry { path: String::from_str(path), protection: Protection::BearerRequired },
        );
        proof {
            assert(entries@.subrange(0, before.len() as int) =~= before);
        }
        Routes { entries }
    }

    /// How many routes are declared.
    pub fn route_count(&self) -> (n: usize)
        ensures
            n == self.entries@.len(),
    {
        self.entries.len()
    }

    /// The route at a position.
    pub fn entry(&self, i: usize) -> (e: &RouteEntry)
        requires
            i < self.entries@.len(),
        ensures
            *e == self.entries@[i as int],
    {
        &self.entries[i]
    }
}

} // verus!
