//! Structural validation of a decoded request against an element's
//! action whitelist.

use crate::error::{Error, ErrorKind};
use crate::json::{jv_of_members, JsonValue};
use crate::request::{request_header_fields, Request};
use crate::text::str_eq;
use crate::token::{has_perm, strings_view};
use vstd::prelude::*;
use vstd::string::StringExecFns;

verus! {

/// Wraps a raw object as a request and accepts it exactly when it
/// carries a well-formed header whose action belongs to the whitelist.
/// A missing or malformed header is `MalformedRequest`; a header with an
/// action outside the whitelist is `SanitizationFailure`.
#[verifier::loop_isolation(false)]
pub fn sanitize(raw_request: Vec<(String, JsonValue)>, actions: &Vec<String>) -> (r: Result<
    Request,
    Error,
>)
    ensures
        r is Ok <==> (request_header_fields(jv_of_members(raw_request@)) matches Some(f)
            && has_perm(strings_view(actions@), f.2)),
        r matches Ok(req) ==> req.data@ == raw_request@ && req.authorized_token is None,
        r matches Err(e) ==> e.kind == (if request_header_fields(jv_of_members(raw_request@))
            is Some {
            ErrorKind::SanitizationFailure
        } else {
            ErrorKind::MalformedRequest
        }),
{
    let request = Request::new(raw_request);
    let header = match request.try_get_header() {
        Ok(header) => header,
        Err(e) => {
            return Err(e);
        },
    };
    let mut i: usize = 0;
    while i < actions.len()
        invariant
            i <= actions.len(),
            forall|k: int| 0 <= k < i ==> strings_view(actions@)[k] != header.action@,
        decreases actions.len() - i,
    {
        if str_eq(actions[i].as_str(), header.action.as_str()) {
            proof {
                assert(strings_view(actions@)[i as int] == header.action@);
            }
            return Ok(request);
        }
        i = i + 1;
    }
    let mut message = String::from_str("invalid action detected: ");
    message.append(header.action.as_str());
    Err(Error::new(ErrorKind::SanitizationFailure, message))
}

} // verus!
