//! Auth configurator: derives transport-level auth settings from an auth
//! specification — native credentials, the digest toggle, and synthesized
//! headers for bearer tokens.
use vstd::prelude::*;
use vstd::string::StringExecFns;

use crate::codec::{hview, single_header};
use crate::interop::AuthType;

verus! {

/// Transport-level auth settings derived from one auth specification.
pub struct AuthPlan {
    /// Native username/password credentials, for basic and digest auth.
    pub credentials: Option<(String, String)>,
    /// Whether the session's HTTP auth mode is toggled to digest.
    pub digest: bool,
    /// Synthesized headers; bearer auth contributes its Authorization line.
    pub headers: Vec<(String, Vec<String>)>,
}

/// View of optional credentials.
pub open spec fn cred_view(o: Option<(String, String)>) -> Option<(Seq<char>, Seq<char>)> {
    match o {
        Some(c) => Some((c.0@, c.1@)),
        None => None,
    }
}

/// The headers an auth specification synthesizes: bearer auth sets one
/// `Authorization: Bearer <token>` line; nothing else touches headers.
pub open spec fn auth_headers_spec(a: AuthType) -> Seq<(Seq<char>, Seq<Seq<char>>)> {
    match a {
        AuthType::Bearer { token } => seq![("Authorization"@, seq!["Bearer "@ + token@])],
        _ => Seq::empty(),
    }
}

/// The native credentials an auth specification sets: exactly the username
/// and password for basic and digest auth, nothing otherwise.
pub open spec fn auth_credentials_spec(a: AuthType) -> Option<(Seq<char>, Seq<char>)> {
    match a {
        AuthType::Basic { username, password } => Some((username@, password@)),
        AuthType::Digest { username, password, .. } => Some((username@, password@)),
        _ => None,
    }
}

/// Derive the transport-level auth settings for one auth specification.
/// The extended digest parameters are advisory pass-through: the transport's
/// own challenge-response negotiation governs final behavior.
pub fn auth_plan(auth: &AuthType) -> (r: AuthPlan)
    ensures
        hview(r.headers@) == auth_headers_spec(*auth),
        cred_view(r.credentials) == auth_credentials_spec(*auth),
        r.digest == (*auth matches AuthType::Digest { .. }),
{
    match auth {
        AuthType::NoAuth => AuthPlan { credentials: None, digest: false, headers: Vec::new() },
        AuthType::Basic { username, password } => AuthPlan {
            credentials: Some((username.clone(), password.clone())),
            digest: false,
            headers: Vec::new(),
        },
        AuthType::Bearer { token } => {
            let mut value = "Bearer ".to_owned();
            value.append(token.as_str());
            let headers = single_header("Authorization", value);
            AuthPlan { credentials: None, digest: false, headers }
        },
        AuthType::Digest { username, password, .. } => AuthPlan {
            credentials: Some((username.clone(), password.clone())),
            digest: true,
            headers: Vec::new(),
        },
    }
}

} // verus!
