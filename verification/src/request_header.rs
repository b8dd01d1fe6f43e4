//! The required header of every ingress request: an opaque bearer token,
//! the logical target element, and the requested action.

use crate::json::{obj_get, JsonValue, Jv};
use vstd::prelude::*;

verus! {

#[derive(Debug)]
pub struct RequestHeader {
    pub token: String,
    pub element: String,
    pub action: String,
}

/// The header fields a document carries: present exactly when the
/// document is an object binding `token`, `element` and `action` to
/// strings. Other bindings are ignored.
pub open spec fn header_fields(j: Jv) -> Option<(Seq<char>, Seq<char>, Seq<char>)> {
    match j {
        Jv::Obj(ms) => match (
            obj_get(ms, "token"@),
            obj_get(ms, "element"@),
            obj_get(ms, "action"@),
        ) {
            (Some(Jv::Str(t)), Some(Jv::Str(e)), Some(Jv::Str(a))) => Some((t, e, a)),
            _ => None,
        },
        _ => None,
    }
}

impl RequestHeader {
    pub fn token(&self) -> (r: &str)
        ensures
            r@ == self.token@,
    {
        self.token.as_str()
    }

    pub fn element(&self) -> (r: &str)
        ensures
            r@ == self.element@,
    {
        self.element.as_str()
    }

    pub fn action(&self) -> (r: &str)
        ensures
            r@ == self.action@,
    {
        self.action.as_str()
    }

    /// Decodes the header carried by a document.
    pub fn from_json(v: &JsonValue) -> (r: Option<RequestHeader>)
        ensures
            r is Some <==> header_fields(v.jv()) is Some,
            r matches Some(h) ==> header_fields(v.jv()) == Some(
                (h.token@, h.element@, h.action@),
            ),
    {
        let token = match v.get("token") {
            Some(x) => {
                proof {
                    crate::json::lemma_jv_variants(*x);
                }
                match x {
                    JsonValue::Str(s) => s.clone(),
                    _ => {
                        return None;
                    },
                }
            },
            None => {
                return None;
            },
        };
        let element = match v.get("element") {
            Some(x) => {
                proof {
                    crate::json::lemma_jv_variants(*x);
                }
                match x {
                    JsonValue::Str(s) => s.clone(),
                    _ => {
                        return None;
                    },
                }
            },
            None => {
                return None;
            },
        };
        let action = match v.get("action") {
            Some(x) => {
                proof {
                    crate::json::lemma_jv_variants(*x);
                }
                match x {
                    JsonValue::Str(s) => s.clone(),
                    _ => {
                        return None;
                    },
                }
            },
            None => {
                return None;
            },
        };
        Some(RequestHeader { token, element, action })
    }
}

} // verus!
