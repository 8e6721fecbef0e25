//! Data carried on behalf of the HTTP frontend, a thin client of the wire
//! protocol. The frontend authenticates end users before it forwards their
//! invocations; the scheduler core never reads these values.

use vstd::prelude::*;

verus! {

/// The OAuth client credentials the frontend presents when pairing an end
/// user's GitHub account with a local account.
#[derive(Clone)]
pub struct GithubOAuthCredentials {
    pub client_id: String,
    pub client_secret: String,
}

impl GithubOAuthCredentials {
    pub fn new(client_id: String, client_secret: String) -> (r: GithubOAuthCredentials)
        ensures
            r.client_id@ == client_id@,
            r.client_secret@ == client_secret@,
    {
        GithubOAuthCredentials { client_id, client_secret }
    }
}

} // verus!
