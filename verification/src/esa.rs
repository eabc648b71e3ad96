//! Credentials and error shapes of the service client: the team identifier
//! and bearer token every call carries, and the structured error the
//! service returns when a call fails.

use vstd::prelude::*;

verus! {

/// The bearer token sent with every call.
#[derive(Clone)]
pub struct AccessToken(String);

impl View for AccessToken {
    type V = Seq<char>;

    closed spec fn view(&self) -> Seq<char> {
        self.0@
    }
}

impl AccessToken {
    /// Wraps a bearer token.
    pub fn new(id: String) -> (r: AccessToken)
        ensures
            r@ == id@,
    {
        AccessToken(id)
    }

    /// The token itself, for building an authorization header.
    pub fn value(&self) -> (r: &String)
        ensures
            r@ == self@,
    {
        &self.0
    }
}

/// The identifier of the team whose posts the client works on.
#[derive(Clone)]
pub struct TeamId(String);

impl View for TeamId {
    type V = Seq<char>;

    closed spec fn view(&self) -> Seq<char> {
        self.0@
    }
}

impl TeamId {
    /// Wraps a team identifier.
    pub fn new(id: String) -> (r: TeamId)
        ensures
            r@ == id@,
    {
        TeamId(id)
    }

    /// The identifier itself, for building request paths.
    pub fn value(&self) -> (r: &String)
        ensures
            r@ == self@,
    {
        &self.0
    }

    /// Decides whether two team identifiers name the same team.
    pub fn matches(&self, other: &TeamId) -> (r: bool)
        ensures
            r == (self@ == other@),
    {
        self.0 == other.0
    }
}

/// One configured team: its identifier and the token that grants access.
#[derive(Clone)]
pub struct Team {
    pub id: TeamId,
    pub access_token: AccessToken,
}

/// The structured error body the service returns on a failed call: a
/// machine error code and a human message.
#[derive(Debug)]
pub struct ErrorResponse {
    error: String,
    message: String,
}

impl View for ErrorResponse {
    type V = (Seq<char>, Seq<char>);

    closed spec fn view(&self) -> (Seq<char>, Seq<char>) {
        (self.error@, self.message@)
    }
}

impl ErrorResponse {
    /// Wraps the error code and message of a failed call.
    pub fn new(error: String, message: String) -> (r: ErrorResponse)
        ensures
            r@ == (error@, message@),
    {
        ErrorResponse { error, message }
    }

    /// The error, rendered for the user as the service client reports it.
    pub fn describe(&self) -> (r: String)
        ensures
            r@ == "error: "@ + self@.0 + ", message: "@ + self@.1,
    {
        let mut out = String::new();
        out.append("error: ");
        out.append(self.error.as_str());
        out.append(", message: ");
        out.append(self.message.as_str());
        proof {
            assert(out@ =~= "error: "@ + self@.0 + ", message: "@ + self@.1);
        }
        out
    }
}

/// An error surfaced by the service.
#[derive(Debug)]
pub enum EsaError {
    Error(ErrorResponse),
}

impl EsaError {
    /// The error, rendered for the user.
    pub fn describe(&self) -> (r: String)
        ensures
            self matches EsaError::Error(e) ==> r@ == "error: "@ + e@.0 + ", message: "@ + e@.1,
    {
        match self {
            EsaError::Error(e) => e.describe(),
        }
    }
}

} // verus!
