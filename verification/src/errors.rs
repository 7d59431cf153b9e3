//! The errors that a client gets to see.

use crate::json;
use vstd::prelude::*;
use vstd::string::*;

verus! {

/// An error as a client gets to see it: a status, a text, the name of its kind
/// where it has one, and the number that the upstream gave.
#[derive(Debug)]
pub struct GatewayError {
    pub status_code: i32,
    pub message: String,
    pub code: Option<String>,
    pub upstream_code: Option<i64>,
}

/// What an error says.
#[verifier::ext_equal]
pub struct ErrorV {
    pub status: int,
    pub message: Seq<char>,
    pub code: Option<Seq<char>>,
    pub upstream_code: Option<i64>,
}

impl View for GatewayError {
    type V = ErrorV;

    open spec fn view(&self) -> ErrorV {
        ErrorV {
            status: self.status_code as int,
            message: self.message@,
            code: json::opt_string(self.code),
            upstream_code: self.upstream_code,
        }
    }
}

/// An error with a status and a text.
pub open spec fn plain_error(status: int, message: Seq<char>) -> ErrorV {
    ErrorV { status, message, code: None, upstream_code: None }
}

impl ErrorV {
    /// Whether the error says that an account has used up its share.
    pub open spec fn is_quota(self) -> bool {
        self.status == 429
    }
}

impl GatewayError {
    /// An error of the gateway itself.
    pub fn new(message: String) -> (r: GatewayError)
        ensures
            r@ == plain_error(500, message@),
    {
        Self::with_status(500, message)
    }

    /// An error with a status and a text.
    pub fn with_status(status: i32, message: String) -> (r: GatewayError)
        ensures
            r@ == plain_error(status as int, message@),
    {
        GatewayError { status_code: status, message, code: None, upstream_code: None }
    }

    /// The error with the name of its kind.
    pub fn with_code(self, code: &str) -> (r: GatewayError)
        ensures
            r@ == (ErrorV { code: Some(code@), ..self@ }),
    {
        GatewayError { code: Some(code.to_owned()), ..self }
    }

    /// The error with the number that the upstream gave.
    pub fn with_optional_code(self, code: Option<i64>) -> (r: GatewayError)
        ensures
            r@ == (ErrorV { upstream_code: code, ..self@ }),
    {
        GatewayError { upstream_code: code, ..self }
    }

    /// Whether the error says that an account has used up its share.
    pub fn is_quota_limit(&self) -> (r: bool)
        ensures
            r == self@.is_quota(),
    {
        self.status_code == 429
    }

    /// The same error again.
    pub fn copy(&self) -> (r: GatewayError)
        ensures
            r@ == self@,
    {
        GatewayError {
            status_code: self.status_code,
            message: self.message.clone(),
            code: match &self.code {
                Some(c) => Some(c.clone()),
                None => None,
            },
            upstream_code: self.upstream_code,
        }
    }
}

} // verus!
