//! Errors of the runtime's components.

use vstd::prelude::*;

verus! {

/// Errors returned by the runtime's components.
#[derive(Debug, PartialEq, Eq)]
pub enum RiteError {
    /// An incoming event failed authenticity validation.
    Authentication(String),
    /// An event payload could not be parsed.
    Parse(String),
    /// A configuration value was invalid.
    Config(String),
    /// An action could not be executed.
    Action(String),
}

/// The mathematical value of a [`RiteError`].
pub enum ErrorModel {
    /// An incoming event failed authenticity validation.
    Authentication(Seq<char>),
    /// An event payload could not be parsed.
    Parse(Seq<char>),
    /// A configuration value was invalid.
    Config(Seq<char>),
    /// An action could not be executed.
    Action(Seq<char>),
}

impl View for RiteError {
    type V = ErrorModel;

    open spec fn view(&self) -> ErrorModel {
        match self {
            RiteError::Authentication(reason) => ErrorModel::Authentication(reason@),
            RiteError::Parse(reason) => ErrorModel::Parse(reason@),
            RiteError::Config(reason) => ErrorModel::Config(reason@),
            RiteError::Action(reason) => ErrorModel::Action(reason@),
        }
    }
}

impl ErrorModel {
    /// The error as it is shown to people.
    pub open spec fn message(self) -> Seq<char> {
        match self {
            ErrorModel::Authentication(reason) => "event authentication failed: "@ + reason,
            ErrorModel::Parse(reason) => "event parsing failed: "@ + reason,
            ErrorModel::Config(reason) => "configuration error: "@ + reason,
            ErrorModel::Action(reason) => "action failed: "@ + reason,
        }
    }
}

impl RiteError {
    /// The error as it is shown to people.
    pub fn message(&self) -> (s: String)
        ensures
            s@ == self@.message(),
    {
        match self {
            RiteError::Authentication(reason) => "event authentication failed: ".to_owned().concat(
                reason.as_str(),
            ),
            RiteError::Parse(reason) => "event parsing failed: ".to_owned().concat(reason.as_str()),
            RiteError::Config(reason) => "configuration error: ".to_owned().concat(reason.as_str()),
            RiteError::Action(reason) => "action failed: ".to_owned().concat(reason.as_str()),
        }
    }
}

/// The outcome of a fallible operation, with values and errors by their views.
pub open spec fn outcome<T: View>(r: Result<T, RiteError>) -> Result<T::V, ErrorModel> {
    match r {
        Ok(value) => Ok(value@),
        Err(error) => Err(error@),
    }
}

/// Of every error people are shown which kind it is and the whole reason.
pub proof fn message_tells_kind_and_reason(reason: Seq<char>)
    ensures
        ErrorModel::Authentication(reason).message() == "event authentication failed: "@ + reason,
        ErrorModel::Parse(reason).message() == "event parsing failed: "@ + reason,
        ErrorModel::Config(reason).message() == "configuration error: "@ + reason,
        ErrorModel::Action(reason).message() == "action failed: "@ + reason,
{
}

/// An error is seen as its kind and its reason.
pub proof fn errors_are_seen_whole(error: RiteError)
    ensures
        match error {
            RiteError::Authentication(reason) => error@ == ErrorModel::Authentication(reason@),
            RiteError::Parse(reason) => error@ == ErrorModel::Parse(reason@),
            RiteError::Config(reason) => error@ == ErrorModel::Config(reason@),
            RiteError::Action(reason) => error@ == ErrorModel::Action(reason@),
        },
{
}

/// An outcome is seen as the value or the error that it is.
pub proof fn outcomes_are_seen_whole<T: View>(value: T, error: RiteError)
    ensures
        outcome(Ok::<T, RiteError>(value)) == Ok::<T::V, ErrorModel>(value@),
        outcome(Err::<T, RiteError>(error)) == Err::<T::V, ErrorModel>(error@),
{
}

} // verus!
