//! Error taxonomy of the engine and the response envelope of the remote
//! catalog service.

use vstd::prelude::*;

verus! {

/// A structured error answered by the catalog service: a numeric code and
/// a message.
#[derive(Debug)]
pub struct ServerError {
    pub code: i32,
    pub error: String,
}

/// An error surfaced to the UI by a remote catalog operation: either the
/// transport failed or the server answered with a structured error.
#[derive(Debug)]
pub enum RemoteError {
    Transport(String),
    Server(ServerError),
}

/// The response envelope of the catalog service. Success and error are
/// mutually exclusive variants of one envelope.
pub enum Response<T> {
    Success { results: Vec<T> },
    Failure { code: i32, error: String },
}

impl<T> Response<T> {
    /// Turns the envelope into a `Result`, keeping code and message of the
    /// error variant.
    pub fn into_result(self) -> (r: Result<Vec<T>, ServerError>)
        ensures
            (self matches Response::Success { results } ==> r == Ok::<Vec<T>, ServerError>(results)),
            (self matches Response::Failure { code, error } ==> r == Err::<Vec<T>, ServerError>(
                (ServerError { code, error }),
            )),
            (r is Ok <==> self is Success),
    {
        match self {
            Response::Success { results } => Ok(results),
            Response::Failure { code, error } => Err(ServerError { code, error }),
        }
    }

    /// Rebuilds the error variant of the envelope from a structured error.
    pub fn from_error(v: ServerError) -> (r: Response<T>)
        ensures
            (r matches Response::Failure { code, error } && code == v.code && error == v.error),
    {
        Response::Failure { code: v.code, error: v.error }
    }

    /// Rebuilds the success variant of the envelope from its results.
    pub fn from_ok(v: Vec<T>) -> (r: Response<T>)
        ensures
            (r matches Response::Success { results } && results == v),
    {
        Response::Success { results: v }
    }
}

impl RemoteError {
    /// The user-visible message carried by this error.
    pub fn message(&self) -> (r: &String)
        ensures
            (self matches RemoteError::Transport(m) ==> r@ == m@),
            (self matches RemoteError::Server(e) ==> r@ == e.error@),
    {
        match self {
            RemoteError::Transport(m) => m,
            RemoteError::Server(e) => &e.error,
        }
    }
}

} // verus!
