//! How a client proves who it is to the store.
use vstd::prelude::*;

verus! {

/// The credentials a client sends.
#[derive(Clone, Debug, PartialEq, Eq)]
pub enum Auth {
    /// An API key.
    Apikey(String),
    /// A user name and a password.
    Basic(String, String),
    /// No credentials.
    NoAuth,
}

/// Credentials that cannot be combined.
#[derive(Clone, Copy, Debug, PartialEq, Eq, Structural)]
pub enum AuthError {
    /// An API key together with a user name or a password, or a user name without a
    /// password, or a password without a user name.
    InvalidConfiguration,
}

impl AuthError {
    /// A sentence that says what is wrong.
    pub fn message(&self) -> (r: String)
        ensures
            r@ == "Invalid auth configuration"@,
    {
        String::from_str("Invalid auth configuration")
    }
}

impl Auth {
    /// The credentials that the options name: an API key alone, or a user name with a
    /// password, or nothing at all. Any other combination is refused.
    pub fn try_new(apikey: Option<String>, username: Option<String>, password: Option<String>) -> (r:
        Result<Self, AuthError>)
        ensures
            (apikey is Some && username is None && password is None) ==> r == Ok::<
                Auth,
                AuthError,
            >(Auth::Apikey(apikey->0)),
            (apikey is None && username is Some && password is Some) ==> r == Ok::<
                Auth,
                AuthError,
            >(Auth::Basic(username->0, password->0)),
            (apikey is None && username is None && password is None) ==> r == Ok::<
                Auth,
                AuthError,
            >(Auth::NoAuth),
            !((apikey is Some && username is None && password is None) || (apikey is None
                && username is Some && password is Some) || (apikey is None && username is None
                && password is None)) ==> r == Err::<Auth, AuthError>(
                AuthError::InvalidConfiguration,
            ),
    {
        match (apikey, username, password) {
            (Some(apikey), None, None) => Ok(Auth::Apikey(apikey)),
            (None, Some(username), Some(password)) => Ok(Auth::Basic(username, password)),
            (None, None, None) => Ok(Auth::NoAuth),
            _ => Err(AuthError::InvalidConfiguration),
        }
    }

    /// The kind of credentials, for logs: `Apikey`, `Basic` or `None`.
    pub fn kind(&self) -> (r: String)
        ensures
            r@ == match *self {
                Auth::Apikey(_) => "Apikey"@,
                Auth::Basic(_, _) => "Basic"@,
                Auth::NoAuth => "None"@,
            },
    {
        match self {
            Auth::Apikey(_) => String::from_str("Apikey"),
            Auth::Basic(_, _) => String::from_str("Basic"),
            Auth::NoAuth => String::from_str("None"),
        }
    }
}

} // verus!
