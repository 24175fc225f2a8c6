//! Errors that reach the caller of a view.

use vstd::prelude::*;

verus! {

/// What can go wrong while a view is computed.
#[derive(Debug)]
pub enum AppError {
    /// Something failed inside: loading, decoding or rendering. Carries the
    /// description of the failure.
    Internal(String),
    /// No published article has the requested slug. Carries the slug.
    NotFound(String),
}

/// How an error is answered.
#[derive(Debug)]
pub enum ErrorResponse {
    /// Status 500 with this body.
    ServerError(String),
    /// A redirect to this location.
    Redirect(String),
}

impl AppError {
    /// The text of the error.
    pub open spec fn message_text(self) -> Seq<char> {
        match self {
            AppError::Internal(cause) => "Internal server error: "@ + cause@,
            AppError::NotFound(slug) => "Not found: "@ + slug@,
        }
    }

    /// The text of the error.
    pub fn message(&self) -> (text: String)
        ensures
            text@ == self.message_text(),
    {
        match self {
            AppError::Internal(cause) => {
                let mut text = "Internal server error: ".to_owned();
                text.append(cause.as_str());
                text
            },
            AppError::NotFound(slug) => {
                let mut text = "Not found: ".to_owned();
                text.append(slug.as_str());
                text
            },
        }
    }

    /// The answer to give for this error: an internal failure is reported
    /// with status 500, a missing article sends the reader to the 404 page
    /// with the slug that was asked for.
    pub fn response(&self) -> (answer: ErrorResponse)
        ensures
            match (*self, answer) {
                (AppError::Internal(cause), ErrorResponse::ServerError(body)) => body@
                    == "Internal Server Error: "@ + cause@,
                (AppError::NotFound(slug), ErrorResponse::Redirect(location)) => location@
                    == "/error/404.html?url="@ + slug@,
                _ => false,
            },
    {
        match self {
            AppError::Internal(cause) => {
                let mut body = "Internal Server Error: ".to_owned();
                body.append(cause.as_str());
                ErrorResponse::ServerError(body)
            },
            AppError::NotFound(slug) => {
                let mut location = "/error/404.html?url=".to_owned();
                location.append(slug.as_str());
                ErrorResponse::Redirect(location)
            },
        }
    }
}

} // verus!
