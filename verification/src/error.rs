//! The error taxonomy: configuration errors raised at table-creation time,
//! remote and auth errors raised while fetching, and the structural error
//! for a response without the expected sheet data.

use vstd::prelude::*;

verus! {

/// An error from the remote-source client. Variants that wrap a failure of
/// an outside collaborator carry that failure's text.
#[derive(Debug, PartialEq)]
pub enum Error {
    FailedRequest(String),
    Io(String),
    Parse(String),
    Token(String),
    SerdeError(String),
    UnexpectedToken,
    UnexpectedResponse(String),
    InvalidRedirectUrl,
    CodeMissing,
    InvalidSheetId,
}

pub open spec fn spec_error_message(e: Error) -> Seq<char> {
    match e {
        Error::FailedRequest(s) => s@,
        Error::Io(s) => s@,
        Error::Parse(s) => s@,
        Error::Token(s) => s@,
        Error::SerdeError(s) => s@,
        Error::UnexpectedToken => "Unexpected token"@,
        Error::UnexpectedResponse(s) => "Unexpected response: "@ + s@,
        Error::InvalidRedirectUrl => "Invalid redirect URL"@,
        Error::CodeMissing => "Missing code"@,
        Error::InvalidSheetId => "Invalid sheet ID"@,
    }
}

impl Error {
    /// The human-readable message for this error.
    pub fn message(&self) -> (r: String)
        ensures
            r@ == spec_error_message(*self),
    {
        match self {
            Error::FailedRequest(s) => s.clone(),
            Error::Io(s) => s.clone(),
            Error::Parse(s) => s.clone(),
            Error::Token(s) => s.clone(),
            Error::SerdeError(s) => s.clone(),
            Error::UnexpectedToken => String::from_str("Unexpected token"),
            Error::UnexpectedResponse(s) => {
                let mut out = String::from_str("Unexpected response: ");
                out.append(s.as_str());
                out
            },
            Error::InvalidRedirectUrl => String::from_str("Invalid redirect URL"),
            Error::CodeMissing => String::from_str("Missing code"),
            Error::InvalidSheetId => String::from_str("Invalid sheet ID"),
        }
    }
}

/// An error of the virtual-table layer: a missing or malformed creation
/// argument, a structurally deficient fetch response, or a client failure.
#[derive(Debug, PartialEq)]
pub enum SheetError {
    NoId,
    NoSheet,
    InvalidRange,
    UnknownOption,
    MalformedResponse,
    Api(Error),
}

pub open spec fn spec_sheet_error_message(e: SheetError) -> Seq<char> {
    match e {
        SheetError::NoId => "No ID is provided"@,
        SheetError::NoSheet => "No sheet name is provided"@,
        SheetError::InvalidRange => "Invalid range is provided"@,
        SheetError::UnknownOption => "Unknown option is provided"@,
        SheetError::MalformedResponse => "The response is missing the expected sheet data"@,
        SheetError::Api(inner) => spec_error_message(inner),
    }
}

impl SheetError {
    /// The human-readable message for this error, as surfaced at table
    /// creation.
    pub fn message(&self) -> (r: String)
        ensures
            r@ == spec_sheet_error_message(*self),
    {
        match self {
            SheetError::NoId => String::from_str("No ID is provided"),
            SheetError::NoSheet => String::from_str("No sheet name is provided"),
            SheetError::InvalidRange => String::from_str("Invalid range is provided"),
            SheetError::UnknownOption => String::from_str("Unknown option is provided"),
            SheetError::MalformedResponse => String::from_str(
                "The response is missing the expected sheet data",
            ),
            SheetError::Api(inner) => inner.message(),
        }
    }
}

} // verus!
