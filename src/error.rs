//! What can go wrong while resolving a request or reading a response.
use vstd::prelude::*;

verus! {

/// Which part of a request template broke its shape.
#[derive(Clone, Copy, Debug, PartialEq, Eq, Structural)]
pub enum Field {
    Params,
    Body,
}

#[derive(Clone, Debug)]
pub enum XdiffError {
    /// An override token that is not `key=value` with a known prefix.
    InvalidKeyVal(String),
    /// A header name given as an override is no header name.
    InvalidHeaderName(String),
    /// A header value given as an override holds a control character.
    InvalidHeaderValue(String),
    /// `params` or `body` of a request is there but no JSON object; it names
    /// the profile and the request (`req1`, `req2`) where these are known.
    NotAnObject { profile: String, request: String, field: Field },
    /// The content type of a request is none that a body can be written in.
    UnsupportedContentType(String),
    /// The body has no form encoding (a field holds an object or a list).
    FormEncoding,
    /// The query has no query-string form.
    QueryEncoding,
    /// A text that should be an absolute URL is none.
    InvalidUrl(String),
    /// A response declared as JSON whose body is no JSON.
    ResponseNotJson,
}

/// The model of an error: its texts as character sequences.
pub enum Fault {
    InvalidKeyVal(Seq<char>),
    InvalidHeaderName(Seq<char>),
    InvalidHeaderValue(Seq<char>),
    NotAnObject(Seq<char>, Seq<char>, Field),
    UnsupportedContentType(Seq<char>),
    FormEncoding,
    QueryEncoding,
    InvalidUrl(Seq<char>),
    ResponseNotJson,
}

impl View for XdiffError {
    type V = Fault;

    open spec fn view(&self) -> Fault {
        match self {
            XdiffError::InvalidKeyVal(s) => Fault::InvalidKeyVal(s@),
            XdiffError::InvalidHeaderName(s) => Fault::InvalidHeaderName(s@),
            XdiffError::InvalidHeaderValue(s) => Fault::InvalidHeaderValue(s@),
            XdiffError::NotAnObject { profile, request, field } => Fault::NotAnObject(profile@, request@, *field),
            XdiffError::UnsupportedContentType(s) => Fault::UnsupportedContentType(s@),
            XdiffError::FormEncoding => Fault::FormEncoding,
            XdiffError::QueryEncoding => Fault::QueryEncoding,
            XdiffError::InvalidUrl(s) => Fault::InvalidUrl(s@),
            XdiffError::ResponseNotJson => Fault::ResponseNotJson,
        }
    }
}

/// The line that tells a person of a fault; it holds the offending token,
/// header, content type or URL, and for a template of the wrong shape the
/// profile and the request.
pub open spec fn message_of(f: Fault) -> Seq<char> {
    match f {
        Fault::InvalidKeyVal(s) => "Invalid key value pair: "@ + s,
        Fault::InvalidHeaderName(s) => "Invalid header name: "@ + s,
        Fault::InvalidHeaderValue(s) => "Invalid header value: "@ + s,
        Fault::NotAnObject(profile, request, field) => (match field {
            Field::Params => "Params"@,
            Field::Body => "Body"@,
        }) + " must be an object (profile: "@ + profile + ", request: "@ + request + ")"@,
        Fault::UnsupportedContentType(s) => "unsupported content-type: "@ + s,
        Fault::FormEncoding => "the body cannot be form-encoded"@,
        Fault::QueryEncoding => "the query cannot be written as a query string"@,
        Fault::InvalidUrl(s) => "Invalid url: "@ + s,
        Fault::ResponseNotJson => "the response body is not valid JSON"@,
    }
}

impl XdiffError {
    /// A line for a person to read.
    pub fn message(&self) -> (r: String)
        ensures
            r@ == message_of(self@),
    {
        match self {
            XdiffError::InvalidKeyVal(s) => String::from_str("Invalid key value pair: ").concat(s.as_str()),
            XdiffError::InvalidHeaderName(s) => String::from_str("Invalid header name: ").concat(s.as_str()),
            XdiffError::InvalidHeaderValue(s) => String::from_str("Invalid header value: ").concat(s.as_str()),
            XdiffError::NotAnObject { profile, request, field } => {
                let what = match field {
                    Field::Params => "Params",
                    Field::Body => "Body",
                };
                String::from_str(what).concat(" must be an object (profile: ").concat(profile.as_str()).concat(
                    ", request: ",
                ).concat(request.as_str()).concat(")")
            },
            XdiffError::UnsupportedContentType(s) => String::from_str("unsupported content-type: ").concat(
                s.as_str(),
            ),
            XdiffError::FormEncoding => String::from_str("the body cannot be form-encoded"),
            XdiffError::QueryEncoding => String::from_str("the query cannot be written as a query string"),
            XdiffError::InvalidUrl(s) => String::from_str("Invalid url: ").concat(s.as_str()),
            XdiffError::ResponseNotJson => String::from_str("the response body is not valid JSON"),
        }
    }
}

} // verus!
