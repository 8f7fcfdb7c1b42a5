//! The closed set of failures that may cross a provider's boundary.
use vstd::prelude::*;

verus! {

/// Every backend failure is classified into exactly one of these kinds.
/// The backend's own report is kept, as text, as the cause.
#[derive(Debug)]
pub enum Error {
    /// A resource that was required to exist could not be found.
    IDNotFound { id: String, source: String },
    /// The backend failed for any reason other than absence.
    ProviderError { source: String },
    /// The backend reported success but its payload could not be produced.
    BodyError { message: String },
}

/// The kinds of a generic I/O failure that callers which only understand
/// I/O errors see.
#[derive(Debug, Clone, Copy, PartialEq, Eq, Structural)]
pub enum IoKind {
    NotFound,
    Other,
}

/// The I/O kind that each error kind maps to.
pub open spec fn io_kind_of(e: Error) -> IoKind {
    match e {
        Error::IDNotFound { .. } => IoKind::NotFound,
        Error::ProviderError { .. } => IoKind::Other,
        Error::BodyError { .. } => IoKind::Other,
    }
}

/// The backend's report (or the descriptive message) carried by an error.
pub open spec fn cause_of(e: Error) -> Seq<char> {
    match e {
        Error::IDNotFound { source, .. } => source@,
        Error::ProviderError { source } => source@,
        Error::BodyError { message } => message@,
    }
}

impl Error {
    /// A required resource `id` does not exist; `source` is the backend's report.
    pub fn not_found(id: String, source: String) -> (r: Self)
        ensures
            r == (Error::IDNotFound { id, source }),
    {
        Error::IDNotFound { id, source }
    }

    /// Any backend failure other than absence; `source` is the backend's report.
    pub fn provider(source: String) -> (r: Self)
        ensures
            r == (Error::ProviderError { source }),
    {
        Error::ProviderError { source }
    }

    /// The backend answered but its payload could not be read.
    pub fn body_error(message: &str) -> (r: Self)
        ensures
            r matches Error::BodyError { message: m } && m@ == message@,
    {
        Error::BodyError { message: message.to_owned() }
    }

    /// The generic I/O kind of this error: absence is "not found", all
    /// else is "other".
    pub fn io_kind(&self) -> (r: IoKind)
        ensures
            r == io_kind_of(*self),
    {
        match self {
            Error::IDNotFound { .. } => IoKind::NotFound,
            Error::ProviderError { .. } => IoKind::Other,
            Error::BodyError { .. } => IoKind::Other,
        }
    }

    /// The chained cause of this error, as it was handed to the constructor.
    pub fn cause(&self) -> (r: &String)
        ensures
            r@ == cause_of(*self),
    {
        match self {
            Error::IDNotFound { source, .. } => source,
            Error::ProviderError { source } => source,
            Error::BodyError { message } => message,
        }
    }
}

} // verus!
