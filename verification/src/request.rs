//! A decoded ingress message: the members of its JSON object, and the
//! verified token the authorizer attaches once the request has passed
//! authorization.

use crate::error::{Error, ErrorKind};
use crate::json::{jv_of_members, obj_get, JsonValue, Jv};
use crate::request_header::{header_fields, RequestHeader};
use crate::request_result::{RequestResult, RequestResultError, RequestResultErrorKind, RrSpec};
use crate::token::Token;
use vstd::prelude::*;
use vstd::string::StringExecFns;

verus! {

#[derive(Debug)]
pub struct Request {
    pub data: Vec<(String, JsonValue)>,
    pub authorized_token: Option<Token>,
}

/// The header a request's data carries: the fields of the document bound
/// to `header`, when that document carries them.
pub open spec fn request_header_fields(data: Seq<(Seq<char>, Jv)>) -> Option<
    (Seq<char>, Seq<char>, Seq<char>),
> {
    match obj_get(data, "header"@) {
        Some(h) => header_fields(h),
        None => None,
    }
}

impl Request {
    /// The request's data as a mathematical object.
    pub open spec fn data_view(self) -> Seq<(Seq<char>, Jv)> {
        jv_of_members(self.data@)
    }

    /// Wraps a decoded object; no token is attached yet.
    pub fn new(request: Vec<(String, JsonValue)>) -> (r: Request)
        ensures
            r.data@ == request@,
            r.authorized_token is None,
    {
        Request { data: request, authorized_token: None }
    }

    /// The request's header; fails with `MalformedRequest` exactly when
    /// the data has no `header` binding carrying the three header fields.
    pub fn try_get_header(&self) -> (r: Result<RequestHeader, Error>)
        ensures
            r is Ok <==> request_header_fields(self.data_view()) is Some,
            r matches Ok(h) ==> request_header_fields(self.data_view()) == Some(
                (h.token@, h.element@, h.action@),
            ),
            r matches Err(e) ==> e.kind == ErrorKind::MalformedRequest,
    {
        match crate::json::get_member(&self.data, "header") {
            Some(h) => match RequestHeader::from_json(h) {
                Some(header) => Ok(header),
                None => Err(
                    Error::new(
                        ErrorKind::MalformedRequest,
                        String::from_str("failed to deserialize request header"),
                    ),
                ),
            },
            None => Err(
                Error::new(ErrorKind::MalformedRequest, String::from_str("request has no header")),
            ),
        }
    }

    /// The bearer token named in the request's header.
    pub fn try_get_token(&self) -> (r: Result<String, Error>)
        ensures
            r is Ok <==> request_header_fields(self.data_view()) is Some,
            r matches Ok(t) ==> request_header_fields(self.data_view()) matches Some(f) && f.0
                == t@,
            r matches Err(e) ==> e.kind == ErrorKind::MalformedRequest,
    {
        match self.try_get_header() {
            Ok(header) => Ok(header.token),
            Err(e) => Err(e),
        }
    }

    /// The value bound to `key` in the request's data; fails with
    /// `MalformedRequest` exactly when there is none.
    pub fn try_get_parameter<'a>(&'a self, key: &str) -> (r: Result<&'a JsonValue, Error>)
        ensures
            r is Ok <==> obj_get(self.data_view(), key@) is Some,
            r matches Ok(v) ==> obj_get(self.data_view(), key@) == Some(v.jv()),
            r matches Err(e) ==> e.kind == ErrorKind::MalformedRequest,
    {
        match crate::json::get_member(&self.data, key) {
            Some(v) => Ok(v),
            None => {
                let mut message = String::from_str("request has no '");
                message.append(key);
                message.append("'");
                Err(Error::new(ErrorKind::MalformedRequest, message))
            },
        }
    }
}

/// The value bound to `key` in a request's data, as its own document;
/// fails with a `MalformedRequest` result exactly when there is none.
pub fn extract_parameter_from_request_data(data: &Vec<(String, JsonValue)>, key: &str) -> (r:
    Result<JsonValue, RequestResult>)
    ensures
        r is Ok <==> obj_get(jv_of_members(data@), key@) is Some,
        r matches Ok(v) ==> obj_get(jv_of_members(data@), key@) == Some(v.jv()),
        r matches Err(rr) ==> rr.rr() matches RrSpec::Failure(k, m) && k
            == RequestResultErrorKind::MalformedRequest,
{
    match crate::json::get_member(data, key) {
        Some(v) => Ok(v.duplicate()),
        None => {
            let mut message = String::from_str("request has no '");
            message.append(key);
            message.append("'");
            Err(
                RequestResult::Failure(
                    RequestResultError::new(RequestResultErrorKind::MalformedRequest, message),
                ),
            )
        },
    }
}

} // verus!
