//! Responses that a script gives to a request: plain text, or a table with
//! status, headers and body.

use vstd::prelude::*;

verus! {

/// How a script gave its response.
#[derive(Debug, Clone, Copy, PartialEq, Eq, Structural)]
pub enum LuaResponseKind {
    /// As a string: the body of a successful plain-text response.
    PlainText,
    /// As a table that may name status, headers and body.
    Table,
}

/// A response as a script gave it. Each header is a name and a value.
#[derive(Debug, PartialEq, Eq)]
pub struct LuaResponse {
    pub kind: LuaResponseKind,
    pub status: u16,
    pub headers: Vec<(String, Vec<u8>)>,
    pub body: Option<Vec<u8>>,
}

/// What goes out for a response: the status, the content type that the
/// host sets itself, the script's headers, and the body.
#[derive(Debug, PartialEq, Eq)]
pub struct ResponseParts {
    pub status: u16,
    pub content_type: Option<String>,
    pub headers: Vec<(String, Vec<u8>)>,
    pub body: Vec<u8>,
}

/// Why a response cannot go out.
#[derive(Debug, Clone, Copy, PartialEq, Eq, Structural)]
pub enum ResponseError {
    /// A plain-text response has no body.
    MissingBody,
    /// The status is not a number of three digits.
    InvalidStatus,
}

/// The status of a response for which the script named none.
pub const DEFAULT_STATUS: u16 = 200;

/// Whether a number can be the status of a response.
pub open spec fn valid_status(status: u16) -> bool {
    100 <= status <= 999
}

/// Calls `hyper::StatusCode::from_u16`, which accepts the numbers from 100
/// to 999 and no other.
#[verifier::external_body]
fn status_is_valid(status: u16) -> (res: bool)
    ensures
        res == valid_status(status),
{
    hyper::StatusCode::from_u16(status).is_ok()
}

/// The status of the response for a handler that failed.
pub const FAILURE_STATUS: u16 = 500;

/// What goes out when the handler of a request failed: status 500 and the
/// words of the error as plain text.
pub fn failure_parts(message: Vec<u8>) -> (parts: ResponseParts)
    ensures
        parts.status == 500,
        parts.content_type is Some,
        parts.content_type->Some_0@ == "text/plain"@,
        parts.headers@.len() == 0,
        parts.body == message,
{
    ResponseParts {
        status: FAILURE_STATUS,
        content_type: Some("text/plain".to_owned()),
        headers: Vec::new(),
        body: message,
    }
}

impl LuaResponse {
    /// The response for a string: plain text with status 200 and no headers.
    pub fn from_text(body: Vec<u8>) -> (response: Self)
        ensures
            response.kind == LuaResponseKind::PlainText,
            response.status == 200,
            response.headers@.len() == 0,
            response.body == Some(body),
    {
        LuaResponse {
            kind: LuaResponseKind::PlainText,
            status: DEFAULT_STATUS,
            headers: Vec::new(),
            body: Some(body),
        }
    }

    /// The response for a table: what the table names, and status 200 if it
    /// names none.
    pub fn from_table(
        status: Option<u16>,
        headers: Vec<(String, Vec<u8>)>,
        body: Option<Vec<u8>>,
    ) -> (response: Self)
        ensures
            response.kind == LuaResponseKind::Table,
            response.status == (match status {
                Some(named) => named,
                None => 200u16,
            }),
            response.headers == headers,
            response.body == body,
    {
        LuaResponse {
            kind: LuaResponseKind::Table,
            status: match status {
                Some(named) => named,
                None => DEFAULT_STATUS,
            },
            headers,
            body,
        }
    }

    /// What goes out for the response. A plain-text response goes out with
    /// status 200, the content type `text/plain` and none of the headers
    /// kept with it; it needs a body. A table goes out with its status,
    /// which has to be valid, its headers, and an empty body if it names
    /// none.
    pub fn into_parts(self) -> (res: Result<ResponseParts, ResponseError>)
        ensures
            match self.kind {
                LuaResponseKind::PlainText => match self.body {
                    Some(body) => res is Ok && res->Ok_0.status == 200 && res->Ok_0.content_type
                        is Some && res->Ok_0.content_type->Some_0@ == "text/plain"@
                        && res->Ok_0.headers@.len() == 0 && res->Ok_0.body == body,
                    None => res == Err::<ResponseParts, ResponseError>(
                        ResponseError::MissingBody,
                    ),
                },
                LuaResponseKind::Table => if valid_status(self.status) {
                    res is Ok && res->Ok_0.status == self.status && res->Ok_0.content_type
                        is None && res->Ok_0.headers == self.headers && (match self.body {
                        Some(body) => res->Ok_0.body == body,
                        None => res->Ok_0.body@.len() == 0,
                    })
                } else {
                    res == Err::<ResponseParts, ResponseError>(ResponseError::InvalidStatus)
                },
            },
    {
        match self.kind {
            LuaResponseKind::PlainText => match self.body {
                Some(body) => Ok(
                    ResponseParts {
                        status: DEFAULT_STATUS,
                        content_type: Some("text/plain".to_owned()),
                        headers: Vec::new(),
                        body,
                    },
                ),
                None => Err(ResponseError::MissingBody),
            },
            LuaResponseKind::Table => {
                if !status_is_valid(self.status) {
                    return Err(ResponseError::InvalidStatus);
                }
                let body = match self.body {
                    Some(body) => body,
                    None => Vec::new(),
                };
                Ok(
                    ResponseParts {
                        status: self.status,
                        content_type: None,
                        headers: self.headers,
                        body,
                    },
                )
            },
        }
    }
}

} // verus!
