//! Errors reported by the library.
use vstd::prelude::*;

verus! {

/// What went wrong, with a human-readable detail.
#[derive(Debug, Clone)]
pub enum AppError {
    Io(String),
    Config(String),
    Parse(String),
    Validation(String),
    NotFound(String),
    PermissionDenied(String),
    AlreadyExists(String),
    Internal(String),
}

/// The kinds of I/O failure that are told apart.
#[derive(Debug, Clone, Copy, PartialEq, Eq, Structural)]
pub enum IoErrorKind {
    NotFound,
    PermissionDenied,
    AlreadyExists,
    Other,
}

/// The text put in front of an error's detail when it is shown.
pub open spec fn error_label(e: AppError) -> Seq<char> {
    match e {
        AppError::Io(_) => "IO error: "@,
        AppError::Config(_) => "Configuration error: "@,
        AppError::Parse(_) => "Parse error: "@,
        AppError::Validation(_) => "Validation error: "@,
        AppError::NotFound(_) => "Not found: "@,
        AppError::PermissionDenied(_) => "Permission denied: "@,
        AppError::AlreadyExists(_) => "Already exists: "@,
        AppError::Internal(_) => "Internal error: "@,
    }
}

/// The detail an error carries.
pub open spec fn error_detail(e: AppError) -> Seq<char> {
    match e {
        AppError::Io(m) => m@,
        AppError::Config(m) => m@,
        AppError::Parse(m) => m@,
        AppError::Validation(m) => m@,
        AppError::NotFound(m) => m@,
        AppError::PermissionDenied(m) => m@,
        AppError::AlreadyExists(m) => m@,
        AppError::Internal(m) => m@,
    }
}

/// The text `p` followed by the text `m`.
pub fn join_text(p: &str, m: &str) -> (r: String)
    ensures
        r@ == p@ + m@,
{
    let mut r = String::from_str(p);
    r.append(m);
    r
}

impl AppError {
    /// The error as shown to a user: its label, then its detail.
    pub fn to_string(&self) -> (r: String)
        ensures
            r@ == error_label(*self) + error_detail(*self),
    {
        match self {
            AppError::Io(m) => join_text("IO error: ", m.as_str()),
            AppError::Config(m) => join_text("Configuration error: ", m.as_str()),
            AppError::Parse(m) => join_text("Parse error: ", m.as_str()),
            AppError::Validation(m) => join_text("Validation error: ", m.as_str()),
            AppError::NotFound(m) => join_text("Not found: ", m.as_str()),
            AppError::PermissionDenied(m) => join_text("Permission denied: ", m.as_str()),
            AppError::AlreadyExists(m) => join_text("Already exists: ", m.as_str()),
            AppError::Internal(m) => join_text("Internal error: ", m.as_str()),
        }
    }

    /// The error for an I/O failure of the given kind, carrying its message.
    pub fn from_io(kind: IoErrorKind, message: String) -> (r: AppError)
        ensures
            kind == IoErrorKind::NotFound ==> r == AppError::NotFound(message),
            kind == IoErrorKind::PermissionDenied ==> r == AppError::PermissionDenied(message),
            kind == IoErrorKind::AlreadyExists ==> r == AppError::AlreadyExists(message),
            kind == IoErrorKind::Other ==> r == AppError::Io(message),
    {
        match kind {
            IoErrorKind::NotFound => AppError::NotFound(message),
            IoErrorKind::PermissionDenied => AppError::PermissionDenied(message),
            IoErrorKind::AlreadyExists => AppError::AlreadyExists(message),
            IoErrorKind::Other => AppError::Io(message),
        }
    }
}

} // verus!
