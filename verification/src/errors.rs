use vstd::prelude::*;

verus! {

/// The outward-facing failure classes. Every internal error collapses into
/// one of these two at the boundary; finer detail never reaches a caller.
#[derive(Clone, Copy, Debug, PartialEq, Eq, Structural)]
pub enum AppError {
    InternalServerError,
    NotFound,
}

impl AppError {
    /// The human-readable text for this class.
    pub fn message(&self) -> (r: &'static str)
        ensures
            *self == AppError::NotFound ==> r@ == "Not found"@,
            *self == AppError::InternalServerError ==> r@ == "Internal server error"@,
    {
        match self {
            AppError::NotFound => "Not found",
            AppError::InternalServerError => "Internal server error",
        }
    }
}

/// Internal errors that can be translated into an outward-facing class.
pub trait Error {
    /// The class this error translates to.
    spec fn app_error_spec(&self) -> AppError;

    /// Translate the error into its outward-facing class.
    fn as_app_error(&self) -> (r: AppError)
        ensures
            r == self.app_error_spec(),
    ;
}

impl Error for &str {
    open spec fn app_error_spec(&self) -> AppError {
        AppError::InternalServerError
    }

    fn as_app_error(&self) -> (r: AppError)
        ensures
            r == self.app_error_spec(),
    {
        AppError::InternalServerError
    }
}

/// Adapt an internal error of any translatable type into an `AppError`.
pub fn adapt_app_error<T: Error>(error: T) -> (r: AppError)
    ensures
        r == error.app_error_spec(),
{
    error.as_app_error()
}

} // verus!
