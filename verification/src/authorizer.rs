//! Authorization of a sanitized request: validate its bearer token and
//! require the permission its header demands.

use crate::error::{Error, ErrorKind};
use crate::json::jv_of_members;
use crate::request::{request_header_fields, Request};
use crate::request_header::RequestHeader;
use crate::token::{has_perm, token_permissions};
use crate::token_validator::{jwt_claims_obj, token_precheck, TokenValidator};
use vstd::prelude::*;
use vstd::string::StringExecFns;

verus! {

/// The permission a request's header demands: `action`, a colon, and
/// `element`.
pub fn permission_from_header(header: RequestHeader) -> (r: String)
    ensures
        r@ == header.action@ + seq![':'] + header.element@,
{
    let mut s = header.action;
    s.append(":");
    s.append(header.element.as_str());
    proof {
        reveal_strlit(":");
        assert(s@ =~= header.action@ + seq![':'] + header.element@);
    }
    s
}

/// The permission demanded by header fields `(token, element, action)`:
/// the action, a colon, and the element.
pub open spec fn required_permission(f: (Seq<char>, Seq<char>, Seq<char>)) -> Seq<char> {
    f.2 + seq![':'] + f.1
}

pub struct Authorizer {
    pub token_validator: TokenValidator,
}

impl Authorizer {
    pub fn new(token_validator: TokenValidator) -> (r: Authorizer)
        ensures
            r.token_validator == token_validator,
    {
        Authorizer { token_validator }
    }

    /// Validates the request's bearer token and attaches it when it
    /// carries the permission `action:element` that the header demands.
    pub fn authorize(&self, request: Request) -> (r: Result<Request, Error>)
        ensures
            r matches Ok(req) ==> ({
                &&& req.data@ == request.data@
                &&& req.authorized_token matches Some(t) && has_perm(
                    t.perms_view(),
                    required_permission(request_header_fields(jv_of_members(request.data@))->Some_0),
                )
                &&& req.authorized_token matches Some(t) && (match jwt_claims_obj(
                    (request_header_fields(jv_of_members(request.data@))->Some_0).0,
                ) {
                    Some(cm) => t.claims_view() == cm && Some(t.perms_view())
                        == token_permissions(cm),
                    None => false,
                })
                &&& request_header_fields(jv_of_members(request.data@)) is Some
            }),
            request_header_fields(jv_of_members(request.data@)) is None ==> (r matches Err(e)
                && e.kind == ErrorKind::MalformedRequest),
            request_header_fields(jv_of_members(request.data@)) matches Some(f) ==> ({
                let pc = token_precheck(f.0, self.token_validator.config.jwks@);
                &&& (pc is HeaderUndecodable ==> (r matches Err(e) && e.kind
                    == ErrorKind::TokenDecodingFailure))
                &&& (pc is KidMissing ==> (r matches Err(e) && e.kind
                    == ErrorKind::MalformedToken))
                &&& (pc is KidUnknown ==> (r matches Err(e) && e.kind
                    == ErrorKind::MalformedToken))
                &&& (pc is KeyNotRsa ==> (r matches Err(e) && e.kind
                    == ErrorKind::MalformedToken))
                &&& (pc is KeyUndecodable ==> (r matches Err(e) && e.kind
                    == ErrorKind::TokenDecodingFailure))
                &&& (pc is AlgorithmMissing ==> (r matches Err(e) && e.kind
                    == ErrorKind::TokenDecodingFailure))
            }),
            r matches Err(e) ==> (e.kind == ErrorKind::MalformedRequest || e.kind
                == ErrorKind::TokenDecodingFailure || e.kind == ErrorKind::MalformedToken || e.kind
                == ErrorKind::InvalidToken || e.kind == ErrorKind::PermissionNotFound),
    {
        let raw_token = match request.try_get_token() {
            Ok(t) => t,
            Err(e) => {
                return Err(e);
            },
        };
        let token = match self.token_validator.validate(raw_token.as_str()) {
            Ok(t) => t,
            Err(e) => {
                return Err(e);
            },
        };
        let header = match request.try_get_header() {
            Ok(h) => h,
            Err(e) => {
                return Err(e);
            },
        };
        let required_permission = permission_from_header(header);
        match token.has_permission(&required_permission) {
            Ok(()) => {},
            Err(e) => {
                return Err(e);
            },
        }
        let mut request = request;
        request.authorized_token = Some(token);
        Ok(request)
    }
}

} // verus!
