use vstd::prelude::*;

verus! {

/// Errors reported by the library and the handlers around it.
#[derive(Debug)]
pub enum Error {
    InvalidCredentials,
    BadRequest(String),
    NotFound,
    InternalServer,
}

impl Error {
    /// The error a failed storage query stands for: a missing row is a
    /// missing resource, anything else a fault of the server.
    pub fn storage(row_not_found: bool) -> (e: Error)
        ensures
            row_not_found ==> e is NotFound,
            !row_not_found ==> e is InternalServer,
    {
        if row_not_found {
            Error::NotFound
        } else {
            Error::InternalServer
        }
    }

    /// The HTTP status code the error is answered with.
    pub fn status(&self) -> (r: u16)
        ensures
            r == match self {
                Error::InvalidCredentials => 401u16,
                Error::BadRequest(_) => 400u16,
                Error::NotFound => 404u16,
                Error::InternalServer => 500u16,
            },
    {
        match self {
            Error::InvalidCredentials => 401,
            Error::BadRequest(_) => 400,
            Error::NotFound => 404,
            Error::InternalServer => 500,
        }
    }

    /// The message the error is answered with: the request's own complaint
    /// for a bad request, a fixed text otherwise.
    pub fn message(&self) -> (r: String)
        ensures
            r@ == match self {
                Error::InvalidCredentials => "Invalid credentials"@,
                Error::BadRequest(m) => m@,
                Error::NotFound => "Not found"@,
                Error::InternalServer => "Internal server error"@,
            },
    {
        match self {
            Error::InvalidCredentials => "Invalid credentials".to_owned(),
            Error::BadRequest(m) => m.clone(),
            Error::NotFound => "Not found".to_owned(),
            Error::InternalServer => "Internal server error".to_owned(),
        }
    }
}

} // verus!
