//! The errors of the library and their public wording.

use vstd::prelude::*;

verus! {

/// What an operation on automations can fail with.
#[derive(Debug)]
pub enum AutomationError {
    /// The request breaks a rule; the text says which.
    Invalid(String),
    /// The definition was changed since it was read.
    Conflict,
    /// No automation or activity has the requested identifier.
    NotFound,
    /// The database failed; the text is its message.
    Database(String),
    /// A record could not be encoded or decoded; the text is the codec's message.
    Json(String),
}

/// What an [`AutomationError`] says.
pub enum ErrorModel {
    Invalid(Seq<char>),
    Conflict,
    NotFound,
    Database(Seq<char>),
    Json(Seq<char>),
}

impl View for AutomationError {
    type V = ErrorModel;

    open spec fn view(&self) -> ErrorModel {
        match self {
            AutomationError::Invalid(text) => ErrorModel::Invalid(text@),
            AutomationError::Conflict => ErrorModel::Conflict,
            AutomationError::NotFound => ErrorModel::NotFound,
            AutomationError::Database(text) => ErrorModel::Database(text@),
            AutomationError::Json(text) => ErrorModel::Json(text@),
        }
    }
}

impl ErrorModel {
    /// The machine-readable category.
    pub open spec fn code(self) -> Seq<char> {
        match self {
            ErrorModel::Invalid(_) => "automation.invalid_argument"@,
            ErrorModel::Conflict => "automation.conflict"@,
            ErrorModel::NotFound => "automation.not_found"@,
            ErrorModel::Database(_) | ErrorModel::Json(_) => "automation.internal"@,
        }
    }

    /// The sentence shown to a person.
    pub open spec fn message(self) -> Seq<char> {
        match self {
            ErrorModel::Invalid(text) => "invalid automation: "@ + text,
            ErrorModel::Conflict =>
                "the configuration was modified in another window; reopen it before saving"@,
            ErrorModel::NotFound => "automation or activity not found"@,
            ErrorModel::Database(text) => "automation database error: "@ + text,
            ErrorModel::Json(text) => "automation serialization error: "@ + text,
        }
    }
}

impl AutomationError {
    /// Stable machine-readable category for transport and UI adapters.
    pub fn code(&self) -> (r: &'static str)
        ensures
            r@ == self@.code(),
    {
        match self {
            AutomationError::Invalid(_) => "automation.invalid_argument",
            AutomationError::Conflict => "automation.conflict",
            AutomationError::NotFound => "automation.not_found",
            AutomationError::Database(_) => "automation.internal",
            AutomationError::Json(_) => "automation.internal",
        }
    }

    /// The error as a sentence.
    pub fn message(&self) -> (r: String)
        ensures
            r@ == self@.message(),
    {
        match self {
            AutomationError::Invalid(text) => {
                let mut out = "invalid automation: ".to_owned();
                out.append(text.as_str());
                out
            },
            AutomationError::Conflict =>
                "the configuration was modified in another window; reopen it before saving".to_owned(),
            AutomationError::NotFound => "automation or activity not found".to_owned(),
            AutomationError::Database(text) => {
                let mut out = "automation database error: ".to_owned();
                out.append(text.as_str());
                out
            },
            AutomationError::Json(text) => {
                let mut out = "automation serialization error: ".to_owned();
                out.append(text.as_str());
                out
            },
        }
    }
}

/// An [`AutomationError::Invalid`] with the given text.
pub(crate) fn invalid(text: &str) -> (r: AutomationError)
    ensures
        r@ == ErrorModel::Invalid(text@),
{
    AutomationError::Invalid(text.to_owned())
}


/// Each error has its category, which does not depend on its text; the two that a caller cannot do
/// anything about share one.
pub proof fn law_error_codes(error: ErrorModel)
    ensures
        error is Invalid ==> error.code() == "automation.invalid_argument"@,
        error is Conflict ==> error.code() == "automation.conflict"@,
        error is NotFound ==> error.code() == "automation.not_found"@,
        error is Database || error is Json ==> error.code() == "automation.internal"@,
{
}

/// The sentence of an error that has a text ends with that text, so that nothing of it is lost.
pub proof fn law_error_messages(error: ErrorModel, text: Seq<char>)
    ensures
        error == ErrorModel::Invalid(text) ==> error.message() == "invalid automation: "@ + text,
        error == ErrorModel::Database(text) ==> error.message() == "automation database error: "@
            + text,
        error == ErrorModel::Json(text) ==> error.message() == "automation serialization error: "@
            + text,
        error is Conflict ==> error.message()
            == "the configuration was modified in another window; reopen it before saving"@,
        error is NotFound ==> error.message() == "automation or activity not found"@,
{
}

} // verus!
