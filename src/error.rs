use vstd::prelude::*;
use vstd::string::StringExecFns;

verus! {

/// Why a request failed.
#[derive(Clone, Debug, PartialEq, Eq)]
pub enum AppError {
    /// The store failed; the text is for the server's log only.
    StorageFault(String),
    /// A referenced user or event does not exist.
    NotFound(String),
    /// The request could not be understood.
    BadRequest(String),
}

impl AppError {
    /// The HTTP status and the message shown to the caller. A storage fault
    /// shows a generic message, so that no internals leak.
    pub fn into_response(self) -> (r: (u16, String))
        ensures
            self is StorageFault ==> r.0 == 500 && r.1@ == "blad serwera"@,
            self matches AppError::NotFound(m) ==> r.0 == 404 && r.1@ == m@,
            self matches AppError::BadRequest(m) ==> r.0 == 400 && r.1@ == m@,
    {
        match self {
            AppError::StorageFault(_) => (500, String::from_str("blad serwera")),
            AppError::NotFound(m) => (404, m),
            AppError::BadRequest(m) => (400, m),
        }
    }
}

} // verus!
