//! The library's error type.
use vstd::prelude::*;

verus! {

#[verifier::external_type_specification]
#[verifier::external_body]
pub struct ExIoError(std::io::Error);

#[verifier::external_type_specification]
#[verifier::external_body]
pub struct ExJsonError(serde_json::Error);

#[verifier::external_type_specification]
#[verifier::external_body]
pub struct ExHttpError(reqwest::Error);

#[verifier::external_type_specification]
#[verifier::external_body]
pub struct ExImageError(image::ImageError);

/// Every failure the workshop reports. `Validation` and `Cdp` carry the
/// message shown to the user; the other variants carry the error of the
/// outside operation that failed.
#[derive(Debug)]
pub enum AppError {
    Validation(String),
    Cdp(String),
    Io(std::io::Error),
    Json(serde_json::Error),
    Http(reqwest::Error),
    Image(image::ImageError),
}

impl AppError {
    /// The error is a validation error whose message is `msg`.
    pub open spec fn is_validation(&self, msg: Seq<char>) -> bool {
        &&& self is Validation
        &&& self->Validation_0@ == msg
    }

    /// The error is a DevTools error whose message is `msg`.
    pub open spec fn is_cdp(&self, msg: Seq<char>) -> bool {
        &&& self is Cdp
        &&& self->Cdp_0@ == msg
    }
}

/// A validation error with the given message.
pub fn validation(msg: &str) -> (e: AppError)
    ensures
        e.is_validation(msg@),
{
    AppError::Validation(String::from_str(msg))
}

/// A DevTools error with the given message.
pub fn cdp_error(msg: &str) -> (e: AppError)
    ensures
        e.is_cdp(msg@),
{
    AppError::Cdp(String::from_str(msg))
}

} // verus!
