//! The error taxonomy shared by every operation: a missing entity, a
//! malformed input, or an internal failure.

use vstd::prelude::*;

verus! {

/// Why an operation was refused.
///
/// `NotFound` names an entity that does not exist, `BadRequest` a malformed
/// input, and `Internal` a failure that the caller cannot mend (for this
/// in-memory core: an identifier or path collision).
#[derive(Debug)]
pub enum AppError {
    NotFound(String),
    BadRequest(String),
    Internal(String),
}

impl AppError {
    /// The machine-readable category of the error.
    pub fn kind(&self) -> (r: &'static str)
        ensures
            self is NotFound ==> r@ == "not_found"@,
            self is BadRequest ==> r@ == "bad_request"@,
            self is Internal ==> r@ == "internal_error"@,
    {
        match self {
            AppError::NotFound(_) => "not_found",
            AppError::BadRequest(_) => "bad_request",
            AppError::Internal(_) => "internal_error",
        }
    }

    /// The human-readable message carried by the error.
    pub fn message(&self) -> (r: &String)
        ensures
            self is NotFound ==> r@ == self->NotFound_0@,
            self is BadRequest ==> r@ == self->BadRequest_0@,
            self is Internal ==> r@ == self->Internal_0@,
    {
        match self {
            AppError::NotFound(m) => m,
            AppError::BadRequest(m) => m,
            AppError::Internal(m) => m,
        }
    }
}

impl AppError {
    /// A `NotFound` whose message names the missing key:
    /// `<prefix><key><suffix>`.
    pub fn not_found_named(prefix: &str, key: &String, suffix: &str) -> (r: AppError)
        ensures
            r is NotFound,
            r->NotFound_0@ == prefix@ + key@ + suffix@,
    {
        let mut m = String::from_str(prefix);
        m.append(key.as_str());
        m.append(suffix);
        AppError::NotFound(m)
    }
}

/// Shorthand for results that fail with [`AppError`].
pub type AppResult<T> = Result<T, AppError>;

} // verus!
