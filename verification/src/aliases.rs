//! Single-field alias types: newtypes that forward their behaviour to the
//! wrapped value. A string alias's plain-text form and wire form are the
//! wrapped string itself; a binary alias wraps a byte buffer.

use vstd::prelude::*;
use vstd::string::*;

use crate::json::{res_view, DecodeError, DecodeErrorV, JsonV, JsonValue};

verus! {

/// Free-form documentation attached to a definition.
#[derive(Debug, Clone, PartialEq, Eq, PartialOrd, Ord, Hash)]
pub struct Documentation(pub String);

impl View for Documentation {
    type V = Seq<char>;

    open spec fn view(&self) -> Seq<char> {
        self.0@
    }
}

impl Documentation {
    /// What decoding a wire value yields: the wrapped string, or a mismatch
    /// for any non-string shape.
    pub open spec fn spec_from_json(v: JsonV) -> Result<Seq<char>, DecodeErrorV> {
        match v {
            JsonV::Str(s) => Ok(s),
            _ => Err(DecodeErrorV::TypeMismatch("Documentation"@)),
        }
    }

    /// Parses the plain-text form; for a string alias this is the text itself.
    pub fn from_plain(s: &str) -> (r: Documentation)
        ensures
            r@ == s@,
    {
        Documentation(String::from_str(s))
    }

    /// The plain-text form: the wrapped string, verbatim.
    pub fn to_plain(&self) -> (r: String)
        ensures
            r@ == self@,
    {
        self.0.clone()
    }

    /// Encodes the value as its wire form: a plain JSON string.
    pub fn to_json(&self) -> (r: JsonValue)
        ensures
            r@ == JsonV::Str(self@),
    {
        JsonValue::String(self.0.clone())
    }

    /// Decodes the wire form, rejecting any non-string shape.
    pub fn from_json(v: &JsonValue) -> (r: Result<Documentation, DecodeError>)
        ensures
            res_view(r) == Documentation::spec_from_json(v@),
    {
        match v {
            JsonValue::String(s) => Ok(Documentation(s.clone())),
            _ => Err(DecodeError::TypeMismatch(String::from_str("Documentation"))),
        }
    }
}

/// The namespace half of a wire error name, in UpperCamelCase.
#[derive(Debug, Clone, PartialEq, Eq, PartialOrd, Ord, Hash)]
pub struct ErrorNamespace(pub String);

impl View for ErrorNamespace {
    type V = Seq<char>;

    open spec fn view(&self) -> Seq<char> {
        self.0@
    }
}

impl ErrorNamespace {
    /// What decoding a wire value yields.
    pub open spec fn spec_from_json(v: JsonV) -> Result<Seq<char>, DecodeErrorV> {
        match v {
            JsonV::Str(s) => Ok(s),
            _ => Err(DecodeErrorV::TypeMismatch("ErrorNamespace"@)),
        }
    }

    /// Parses the plain-text form; for a string alias this is the text itself.
    pub fn from_plain(s: &str) -> (r: ErrorNamespace)
        ensures
            r@ == s@,
    {
        ErrorNamespace(String::from_str(s))
    }

    /// The plain-text form: the wrapped string, verbatim.
    pub fn to_plain(&self) -> (r: String)
        ensures
            r@ == self@,
    {
        self.0.clone()
    }

    /// Encodes the value as its wire form: a plain JSON string.
    pub fn to_json(&self) -> (r: JsonValue)
        ensures
            r@ == JsonV::Str(self@),
    {
        JsonValue::String(self.0.clone())
    }

    /// Decodes the wire form, rejecting any non-string shape.
    pub fn from_json(v: &JsonValue) -> (r: Result<ErrorNamespace, DecodeError>)
        ensures
            res_view(r) == ErrorNamespace::spec_from_json(v@),
    {
        match v {
            JsonValue::String(s) => Ok(ErrorNamespace(s.clone())),
            _ => Err(DecodeError::TypeMismatch(String::from_str("ErrorNamespace"))),
        }
    }
}

/// The identifier a query parameter uses on the wire.
#[derive(Debug, Clone, PartialEq, Eq, PartialOrd, Ord, Hash)]
pub struct ParameterId(pub String);

impl View for ParameterId {
    type V = Seq<char>;

    open spec fn view(&self) -> Seq<char> {
        self.0@
    }
}

impl ParameterId {
    /// What decoding a wire value yields.
    pub open spec fn spec_from_json(v: JsonV) -> Result<Seq<char>, DecodeErrorV> {
        match v {
            JsonV::Str(s) => Ok(s),
            _ => Err(DecodeErrorV::TypeMismatch("ParameterId"@)),
        }
    }

    /// Parses the plain-text form; for a string alias this is the text itself.
    pub fn from_plain(s: &str) -> (r: ParameterId)
        ensures
            r@ == s@,
    {
        ParameterId(String::from_str(s))
    }

    /// The plain-text form: the wrapped string, verbatim.
    pub fn to_plain(&self) -> (r: String)
        ensures
            r@ == self@,
    {
        self.0.clone()
    }

    /// Encodes the value as its wire form: a plain JSON string.
    pub fn to_json(&self) -> (r: JsonValue)
        ensures
            r@ == JsonV::Str(self@),
    {
        JsonValue::String(self.0.clone())
    }

    /// Decodes the wire form, rejecting any non-string shape.
    pub fn from_json(v: &JsonValue) -> (r: Result<ParameterId, DecodeError>)
        ensures
            res_view(r) == ParameterId::spec_from_json(v@),
    {
        match v {
            JsonValue::String(s) => Ok(ParameterId(s.clone())),
            _ => Err(DecodeError::TypeMismatch(String::from_str("ParameterId"))),
        }
    }
}

/// The name of a service endpoint. Should be in lowerCamelCase.
#[derive(Debug, Clone, PartialEq, Eq, PartialOrd, Ord, Hash)]
pub struct EndpointName(pub String);

impl View for EndpointName {
    type V = Seq<char>;

    open spec fn view(&self) -> Seq<char> {
        self.0@
    }
}

impl EndpointName {
    /// What decoding a wire value yields.
    pub open spec fn spec_from_json(v: JsonV) -> Result<Seq<char>, DecodeErrorV> {
        match v {
            JsonV::Str(s) => Ok(s),
            _ => Err(DecodeErrorV::TypeMismatch("EndpointName"@)),
        }
    }

    /// Parses the plain-text form; for a string alias this is the text itself.
    pub fn from_plain(s: &str) -> (r: EndpointName)
        ensures
            r@ == s@,
    {
        EndpointName(String::from_str(s))
    }

    /// The plain-text form: the wrapped string, verbatim. With
    /// [`EndpointName::from_plain`] this gives the alias transparency law:
    /// parsing a string and formatting the result returns the same string.
    pub fn to_plain(&self) -> (r: String)
        ensures
            r@ == self@,
    {
        self.0.clone()
    }

    /// Encodes the value as its wire form: a plain JSON string.
    pub fn to_json(&self) -> (r: JsonValue)
        ensures
            r@ == JsonV::Str(self@),
    {
        JsonValue::String(self.0.clone())
    }

    /// Decodes the wire form, rejecting any non-string shape.
    pub fn from_json(v: &JsonValue) -> (r: Result<EndpointName, DecodeError>)
        ensures
            res_view(r) == EndpointName::spec_from_json(v@),
    {
        match v {
            JsonValue::String(s) => Ok(EndpointName(s.clone())),
            _ => Err(DecodeError::TypeMismatch(String::from_str("EndpointName"))),
        }
    }
}

/// An alias of a plain string.
#[derive(Debug, Clone, PartialEq, Eq, PartialOrd, Ord, Hash)]
pub struct AliasedString(pub String);

impl View for AliasedString {
    type V = Seq<char>;

    open spec fn view(&self) -> Seq<char> {
        self.0@
    }
}

impl AliasedString {
    /// What decoding a wire value yields.
    pub open spec fn spec_from_json(v: JsonV) -> Result<Seq<char>, DecodeErrorV> {
        match v {
            JsonV::Str(s) => Ok(s),
            _ => Err(DecodeErrorV::TypeMismatch("AliasedString"@)),
        }
    }

    /// Parses the plain-text form; for a string alias this is the text itself.
    pub fn from_plain(s: &str) -> (r: AliasedString)
        ensures
            r@ == s@,
    {
        AliasedString(String::from_str(s))
    }

    /// The plain-text form: the wrapped string, verbatim. With
    /// [`AliasedString::from_plain`] this gives the alias transparency law:
    /// parsing a string and formatting the result returns the same string.
    pub fn to_plain(&self) -> (r: String)
        ensures
            r@ == self@,
    {
        self.0.clone()
    }

    /// Encodes the value as its wire form: a plain JSON string.
    pub fn to_json(&self) -> (r: JsonValue)
        ensures
            r@ == JsonV::Str(self@),
    {
        JsonValue::String(self.0.clone())
    }

    /// Decodes the wire form, rejecting any non-string shape.
    pub fn from_json(v: &JsonValue) -> (r: Result<AliasedString, DecodeError>)
        ensures
            res_view(r) == AliasedString::spec_from_json(v@),
    {
        match v {
            JsonValue::String(s) => Ok(AliasedString(s.clone())),
            _ => Err(DecodeError::TypeMismatch(String::from_str("AliasedString"))),
        }
    }
}

/// An alias of a binary buffer.
#[derive(Debug, Clone, PartialEq, Eq, PartialOrd, Ord, Hash)]
pub struct AliasedBinary(pub Vec<u8>);

impl View for AliasedBinary {
    type V = Seq<u8>;

    open spec fn view(&self) -> Seq<u8> {
        self.0@
    }
}

impl AliasedBinary {
    /// Wraps a byte buffer.
    pub fn new(bytes: Vec<u8>) -> (r: AliasedBinary)
        ensures
            r@ == bytes@,
    {
        AliasedBinary(bytes)
    }

    /// The wrapped bytes.
    pub fn bytes(&self) -> (r: &Vec<u8>)
        ensures
            r@ == self@,
    {
        &self.0
    }

    /// The plain-text form of binary: its canonical base64 text.
    pub fn to_plain(&self) -> (r: String)
        ensures
            r@ == crate::base64::b64_encode(self@),
    {
        crate::base64::encode(&self.0)
    }

    /// Parses the plain-text form; anything but canonical base64 yields
    /// nothing. With [`AliasedBinary::to_plain`] and the base64 round-trip
    /// law, parsing a formatted value gives the value back.
    pub fn from_plain(s: &str) -> (r: Option<AliasedBinary>)
        ensures
            match r {
                Some(b) => crate::base64::b64_decode(s@) == Some(b@),
                None => crate::base64::b64_decode(s@) is None,
            },
    {
        match crate::base64::decode(s) {
            Some(bs) => Some(AliasedBinary(bs)),
            None => None,
        }
    }
}

/// An alias wrapping another binary alias: transparency nests.
#[derive(Debug, Clone, PartialEq, Eq, PartialOrd, Ord, Hash)]
pub struct NestedAliasedBinary(pub AliasedBinary);

impl View for NestedAliasedBinary {
    type V = Seq<u8>;

    open spec fn view(&self) -> Seq<u8> {
        self.0@
    }
}

impl NestedAliasedBinary {
    /// Wraps a binary alias.
    pub fn new(inner: AliasedBinary) -> (r: NestedAliasedBinary)
        ensures
            r@ == inner@,
    {
        NestedAliasedBinary(inner)
    }

    /// The wrapped bytes.
    pub fn bytes(&self) -> (r: &Vec<u8>)
        ensures
            r@ == self@,
    {
        &self.0.0
    }

    /// The plain-text form, forwarded to the wrapped alias.
    pub fn to_plain(&self) -> (r: String)
        ensures
            r@ == crate::base64::b64_encode(self@),
    {
        self.0.to_plain()
    }

    /// Parses the plain-text form, forwarded to the wrapped alias.
    pub fn from_plain(s: &str) -> (r: Option<NestedAliasedBinary>)
        ensures
            match r {
                Some(b) => crate::base64::b64_decode(s@) == Some(b@),
                None => crate::base64::b64_decode(s@) is None,
            },
    {
        match AliasedBinary::from_plain(s) {
            Some(b) => Some(NestedAliasedBinary(b)),
            None => None,
        }
    }
}

impl From<AliasedBinary> for NestedAliasedBinary {
    /// Wrapping is a zero-cost conversion: the alias is its wrapped value.
    fn from(v: AliasedBinary) -> (r: NestedAliasedBinary) {
        NestedAliasedBinary(v)
    }
}

impl vstd::std_specs::convert::FromSpecImpl<AliasedBinary> for NestedAliasedBinary {
    open spec fn obeys_from_spec() -> bool {
        true
    }

    open spec fn from_spec(v: AliasedBinary) -> NestedAliasedBinary {
        NestedAliasedBinary(v)
    }
}

} // verus!
