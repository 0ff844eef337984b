//! Secrets kept in the system keyring: their names, and a wrapper that never
//! shows its value.
use vstd::prelude::*;

verus! {

/// A secret value; it shows as redacted.
#[derive(Clone)]
pub struct Secret(pub String);

impl Secret {
    pub fn new(value: String) -> (r: Secret)
        ensures
            r.0 == value,
    {
        Secret(value)
    }

    /// What the secret shows as.
    pub fn shown(&self) -> (r: &'static str)
        ensures
            r@ == "<redacted>"@,
    {
        "<redacted>"
    }

    /// What the secret shows as when debugging.
    pub fn debug_shown(&self) -> (r: &'static str)
        ensures
            r@ == "Secret(<redacted>)"@,
    {
        "Secret(<redacted>)"
    }
}

/// The keyring entry of the client id.
pub fn client_id_secret_name() -> (r: &'static str)
    ensures
        r@ == "cscs_client_id"@,
{
    "cscs_client_id"
}

/// The keyring entry of the client secret.
pub fn client_secret_secret_name() -> (r: &'static str)
    ensures
        r@ == "cscs_secret_id"@,
{
    "cscs_secret_id"
}

/// The keyring entry of the access token.
pub fn access_token_secret_name() -> (r: &'static str)
    ensures
        r@ == "cscs_access_token"@,
{
    "cscs_access_token"
}

/// The keyring entry of the refresh token.
pub fn refresh_token_secret_name() -> (r: &'static str)
    ensures
        r@ == "cscs_refresh_token"@,
{
    "cscs_refresh_token"
}

/// Why the stored credentials cannot be used.
#[derive(Debug, Clone, Copy, PartialEq, Eq, Structural)]
pub enum CredentialsError {
    NotLoggedIn,
}

/// The stored client id and secret, where both are stored; a missing one
/// means the user has not logged in.
pub fn stored_credentials(client_id: Option<Secret>, client_secret: Option<Secret>) -> (r: Result<
    (Secret, Secret),
    CredentialsError,
>)
    ensures
        match (client_id, client_secret) {
            (Some(i), Some(s)) => r matches Ok((a, b)) && a == i && b == s,
            _ => r == Err::<(Secret, Secret), CredentialsError>(CredentialsError::NotLoggedIn),
        },
{
    match client_id {
        Some(i) => match client_secret {
            Some(s) => Ok((i, s)),
            None => Err(CredentialsError::NotLoggedIn),
        },
        None => Err(CredentialsError::NotLoggedIn),
    }
}

} // verus!
