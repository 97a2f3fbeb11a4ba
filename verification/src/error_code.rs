//! The closed set of broad error categories, each tied to the transport
//! status code it travels under.

use vstd::prelude::*;
use vstd::string::*;

use crate::json::{res_view, DecodeError, DecodeErrorV, JsonV, JsonValue};
use crate::text::str_eq;

verus! {

broadcast use vstd::string::group_string_axioms;

/// The broad category of an error. When transmitted over HTTP, this
/// determines the response's status code.
#[derive(Debug, Clone, Copy, PartialEq, Eq, PartialOrd, Ord, Hash, Structural)]
pub enum ErrorCode {
    PermissionDenied,
    InvalidArgument,
    NotFound,
    Conflict,
    RequestEntityTooLarge,
    FailedPrecondition,
    Internal,
    Timeout,
    CustomClient,
    CustomServer,
}

impl View for ErrorCode {
    type V = ErrorCode;

    /// A category is already a pure value: it is its own ghost form.
    open spec fn view(&self) -> ErrorCode {
        *self
    }
}

impl ErrorCode {
    /// The status code each category maps to. This table is part of the
    /// public contract.
    pub open spec fn spec_status(self) -> u16 {
        match self {
            ErrorCode::PermissionDenied => 403,
            ErrorCode::InvalidArgument => 400,
            ErrorCode::NotFound => 404,
            ErrorCode::Conflict => 409,
            ErrorCode::RequestEntityTooLarge => 413,
            ErrorCode::FailedPrecondition => 500,
            ErrorCode::Internal => 500,
            ErrorCode::Timeout => 500,
            ErrorCode::CustomClient => 400,
            ErrorCode::CustomServer => 500,
        }
    }

    /// The category's name as it appears on the wire.
    pub open spec fn wire_name(self) -> Seq<char> {
        match self {
            ErrorCode::PermissionDenied => "PermissionDenied"@,
            ErrorCode::InvalidArgument => "InvalidArgument"@,
            ErrorCode::NotFound => "NotFound"@,
            ErrorCode::Conflict => "Conflict"@,
            ErrorCode::RequestEntityTooLarge => "RequestEntityTooLarge"@,
            ErrorCode::FailedPrecondition => "FailedPrecondition"@,
            ErrorCode::Internal => "Internal"@,
            ErrorCode::Timeout => "Timeout"@,
            ErrorCode::CustomClient => "CustomClient"@,
            ErrorCode::CustomServer => "CustomServer"@,
        }
    }

    /// Which category a wire name denotes, if any: the set is closed, so an
    /// unknown name denotes none.
    pub open spec fn spec_from_name(s: Seq<char>) -> Option<ErrorCode> {
        if s == "PermissionDenied"@ {
            Some(ErrorCode::PermissionDenied)
        } else if s == "InvalidArgument"@ {
            Some(ErrorCode::InvalidArgument)
        } else if s == "NotFound"@ {
            Some(ErrorCode::NotFound)
        } else if s == "Conflict"@ {
            Some(ErrorCode::Conflict)
        } else if s == "RequestEntityTooLarge"@ {
            Some(ErrorCode::RequestEntityTooLarge)
        } else if s == "FailedPrecondition"@ {
            Some(ErrorCode::FailedPrecondition)
        } else if s == "Internal"@ {
            Some(ErrorCode::Internal)
        } else if s == "Timeout"@ {
            Some(ErrorCode::Timeout)
        } else if s == "CustomClient"@ {
            Some(ErrorCode::CustomClient)
        } else if s == "CustomServer"@ {
            Some(ErrorCode::CustomServer)
        } else {
            None
        }
    }

    /// What decoding a wire value yields: the category a string names, a
    /// mismatch for an unknown name or any non-string shape.
    pub open spec fn spec_from_json(v: JsonV) -> Result<ErrorCode, DecodeErrorV> {
        match v {
            JsonV::Str(s) => match ErrorCode::spec_from_name(s) {
                Some(c) => Ok(c),
                None => Err(DecodeErrorV::TypeMismatch("ErrorCode"@)),
            },
            _ => Err(DecodeErrorV::TypeMismatch("ErrorCode"@)),
        }
    }

    /// Returns the HTTP status code associated with the error code.
    pub fn status_code(&self) -> (r: u16)
        ensures
            r == self.spec_status(),
    {
        match self {
            ErrorCode::PermissionDenied => 403,
            ErrorCode::InvalidArgument => 400,
            ErrorCode::NotFound => 404,
            ErrorCode::Conflict => 409,
            ErrorCode::RequestEntityTooLarge => 413,
            ErrorCode::FailedPrecondition => 500,
            ErrorCode::Internal => 500,
            ErrorCode::Timeout => 500,
            ErrorCode::CustomClient => 400,
            ErrorCode::CustomServer => 500,
        }
    }

    /// The category's wire name.
    pub fn name(&self) -> (r: &'static str)
        ensures
            r@ == self.wire_name(),
    {
        match self {
            ErrorCode::PermissionDenied => "PermissionDenied",
            ErrorCode::InvalidArgument => "InvalidArgument",
            ErrorCode::NotFound => "NotFound",
            ErrorCode::Conflict => "Conflict",
            ErrorCode::RequestEntityTooLarge => "RequestEntityTooLarge",
            ErrorCode::FailedPrecondition => "FailedPrecondition",
            ErrorCode::Internal => "Internal",
            ErrorCode::Timeout => "Timeout",
            ErrorCode::CustomClient => "CustomClient",
            ErrorCode::CustomServer => "CustomServer",
        }
    }

    /// Encodes the category as its wire form: its name as a JSON string.
    pub fn to_json(&self) -> (r: JsonValue)
        ensures
            r@ == JsonV::Str(self.wire_name()),
    {
        JsonValue::String(String::from_str(self.name()))
    }

    /// Decodes the wire form, rejecting unknown names: the enumeration is
    /// closed.
    pub fn from_json(v: &JsonValue) -> (r: Result<ErrorCode, DecodeError>)
        ensures
            res_view(r) == ErrorCode::spec_from_json(v@),
    {
        let s = match v {
            JsonValue::String(s) => s,
            _ => {
                return Err(DecodeError::TypeMismatch(String::from_str("ErrorCode")));
            },
        };
        let c = if str_eq(s.as_str(), "PermissionDenied") {
            ErrorCode::PermissionDenied
        } else if str_eq(s.as_str(), "InvalidArgument") {
            ErrorCode::InvalidArgument
        } else if str_eq(s.as_str(), "NotFound") {
            ErrorCode::NotFound
        } else if str_eq(s.as_str(), "Conflict") {
            ErrorCode::Conflict
        } else if str_eq(s.as_str(), "RequestEntityTooLarge") {
            ErrorCode::RequestEntityTooLarge
        } else if str_eq(s.as_str(), "FailedPrecondition") {
            ErrorCode::FailedPrecondition
        } else if str_eq(s.as_str(), "Internal") {
            ErrorCode::Internal
        } else if str_eq(s.as_str(), "Timeout") {
            ErrorCode::Timeout
        } else if str_eq(s.as_str(), "CustomClient") {
            ErrorCode::CustomClient
        } else if str_eq(s.as_str(), "CustomServer") {
            ErrorCode::CustomServer
        } else {
            return Err(DecodeError::TypeMismatch(String::from_str("ErrorCode")));
        };
        Ok(c)
    }
}

/// A wire name parses back to exactly the category that produced it: the
/// ten names are pairwise distinct.
pub proof fn lemma_error_code_name_round_trip(c: ErrorCode)
    ensures
        ErrorCode::spec_from_name(c.wire_name()) == Some(c),
{
    reveal_strlit("PermissionDenied");
    reveal_strlit("InvalidArgument");
    reveal_strlit("NotFound");
    reveal_strlit("Conflict");
    reveal_strlit("RequestEntityTooLarge");
    reveal_strlit("FailedPrecondition");
    reveal_strlit("Internal");
    reveal_strlit("Timeout");
    reveal_strlit("CustomClient");
    reveal_strlit("CustomServer");
    assert("PermissionDenied"@.len() == 16);
    assert("InvalidArgument"@.len() == 15);
    assert("NotFound"@.len() == 8);
    assert("Conflict"@.len() == 8);
    assert("RequestEntityTooLarge"@.len() == 21);
    assert("FailedPrecondition"@.len() == 18);
    assert("Internal"@.len() == 8);
    assert("Timeout"@.len() == 7);
    assert("CustomClient"@.len() == 12);
    assert("CustomServer"@.len() == 12);
    assert("NotFound"@[0] == 'N' && "Conflict"@[0] == 'C' && "Internal"@[0] == 'I');
    assert("CustomClient"@[6] == 'C' && "CustomServer"@[6] == 'S');
}

} // verus!
