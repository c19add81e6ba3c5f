//! Who may change the catalog: a bearer token is held against one secret.

use vstd::prelude::*;
use vstd::string::*;

verus! {

/// Why a request was not let through.
#[derive(Debug, Clone, Copy, PartialEq, Eq, Structural)]
pub enum AuthError {
    WrongCredentials,
    MissingCredentials,
    InvalidToken,
}

impl AuthError {
    /// The HTTP status that answers a request refused for this reason.
    pub open spec fn spec_status(self) -> u16 {
        match self {
            AuthError::WrongCredentials => 401,
            AuthError::MissingCredentials => 400,
            AuthError::InvalidToken => 400,
        }
    }

    /// The text that answers a request refused for this reason.
    pub open spec fn spec_message(self) -> Seq<char> {
        match self {
            AuthError::WrongCredentials => "Wrong credentials"@,
            AuthError::MissingCredentials => "Missing credentials"@,
            AuthError::InvalidToken => "Invalid token"@,
        }
    }

    /// The reason in words.
    pub open spec fn spec_display(self) -> Seq<char> {
        match self {
            AuthError::WrongCredentials => "Incorrect credentials"@,
            AuthError::MissingCredentials => "Missing credentials"@,
            AuthError::InvalidToken => "Incorrect Authentication Token"@,
        }
    }

    /// The reason in words.
    pub fn display(&self) -> (r: &'static str)
        ensures
            r@ == self.spec_display(),
    {
        match self {
            AuthError::WrongCredentials => "Incorrect credentials",
            AuthError::MissingCredentials => "Missing credentials",
            AuthError::InvalidToken => "Incorrect Authentication Token",
        }
    }

    /// The HTTP status that answers a request refused for this reason.
    pub fn status(&self) -> (r: u16)
        ensures
            r == self.spec_status(),
    {
        match self {
            AuthError::WrongCredentials => 401,
            AuthError::MissingCredentials => 400,
            AuthError::InvalidToken => 400,
        }
    }

    /// The text that answers a request refused for this reason.
    pub fn message(&self) -> (r: &'static str)
        ensures
            r@ == self.spec_message(),
    {
        match self {
            AuthError::WrongCredentials => "Wrong credentials",
            AuthError::MissingCredentials => "Missing credentials",
            AuthError::InvalidToken => "Invalid token",
        }
    }
}

/// The token that a request carried in its authorization header.
#[derive(Debug, Clone, PartialEq, Eq)]
pub struct BearerToken(pub String);

/// Checks bearer tokens against the one secret it was made with.
pub struct BearerValidation {
    hard_coded_secret: String,
}

impl BearerValidation {
    /// The secret that tokens are held against.
    pub closed spec fn secret(&self) -> Seq<char> {
        self.hard_coded_secret@
    }

    /// A check against `secret`.
    pub fn new(secret: &str) -> (r: Self)
        ensures
            r.secret() == secret@,
    {
        BearerValidation { hard_coded_secret: String::from_str(secret) }
    }

    /// Lets the request through exactly when its token is the secret.
    pub fn authorise(&self, bearer_token: BearerToken) -> (r: Result<(), AuthError>)
        ensures
            bearer_token.0@ == self.secret() ==> r is Ok,
            bearer_token.0@ != self.secret() ==> r == Err::<(), AuthError>(AuthError::InvalidToken),
    {
        if bearer_token.0 == self.hard_coded_secret {
            Ok(())
        } else {
            Err(AuthError::InvalidToken)
        }
    }
}

} // verus!
