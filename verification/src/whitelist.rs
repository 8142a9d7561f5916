//! Actor whitelisting. The store's schema reserves room for it, but the
//! feature is not live: additions are accepted and dropped, and nobody is
//! whitelisted yet.

use vstd::prelude::*;

use crate::error::Error;
use crate::store::Store;

verus! {

/// Record a username for whitelisting; accepted and discarded until the
/// feature is live.
pub fn add_user(db: &mut Store, github_username: &str) -> (r: Result<(), Error>)
    ensures
        r is Ok,
        *final(db) == *old(db),
{
    let _ = github_username;
    Ok(())
}

/// Whether a username is whitelisted; nobody is until the feature is live.
pub fn is_whitelisted(db: &Store, github_username: &str) -> (r: Result<bool, Error>)
    ensures
        r matches Ok(b) && b == false,
{
    let _ = db;
    let _ = github_username;
    Ok(false)
}

} // verus!
