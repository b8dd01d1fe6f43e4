//! The tagged outcome of handling a request, and its wire form.
//!
//! On the wire a result is `{"Ok": value}` or
//! `{"Err": {"kind": kind, "message": message}}`, with the kind spelled
//! `"InternalFailure"` or `"MalformedRequest"`.

use crate::error::{Error, ErrorKind};
use crate::json::{
    jv_depth, lemma_jv_of_members_len, lemma_jv_of_members_push, lemma_jv_variants, obj_get,
    ser_value, JsonValue, Jv,
};
use crate::json_parse::{jv_wf, jv_wf_members, max_nesting, p_text};
use vstd::prelude::*;
use vstd::string::StringExecFns;
use vstd::utf8::{decode_utf8, encode_utf8, valid_utf8};

verus! {

#[derive(Clone, Copy, Debug, PartialEq, Eq, Structural)]
pub enum RequestResultErrorKind {
    InternalFailure,
    MalformedRequest,
}

/// A handling failure: its kind and a human-readable message.
#[derive(Debug, PartialEq)]
pub struct RequestResultError {
    pub kind: RequestResultErrorKind,
    pub message: String,
}

impl RequestResultError {
    pub fn new(kind: RequestResultErrorKind, message: String) -> (r: RequestResultError)
        ensures
            r.kind == kind,
            r.message@ == message@,
    {
        RequestResultError { kind, message }
    }

    pub fn kind(&self) -> (r: RequestResultErrorKind)
        ensures
            r == self.kind,
    {
        self.kind
    }

    pub fn message(&self) -> (r: &str)
        ensures
            r@ == self.message@,
    {
        self.message.as_str()
    }
}

/// The outcome of handling one request. On the wire the success arm is
/// tagged `Ok` and the failure arm `Err`.
#[derive(Debug, PartialEq)]
pub enum RequestResult {
    Success(JsonValue),
    Failure(RequestResultError),
}

/// The mathematical form of a result.
#[verifier::ext_equal]
pub enum RrSpec {
    Value(Jv),
    Failure(RequestResultErrorKind, Seq<char>),
}

impl RequestResult {
    /// The mathematical value this result represents.
    pub open spec fn rr(self) -> RrSpec {
        match self {
            RequestResult::Success(v) => RrSpec::Value(v.jv()),
            RequestResult::Failure(e) => RrSpec::Failure(e.kind, e.message@),
        }
    }
}

/// The wire spelling of an error kind.
pub open spec fn kind_text(k: RequestResultErrorKind) -> Seq<char> {
    match k {
        RequestResultErrorKind::InternalFailure => "InternalFailure"@,
        RequestResultErrorKind::MalformedRequest => "MalformedRequest"@,
    }
}

/// The reply document of a result.
pub open spec fn wire_jv(r: RrSpec) -> Jv {
    match r {
        RrSpec::Value(v) => Jv::Obj(seq![("Ok"@, v)]),
        RrSpec::Failure(k, m) => Jv::Obj(
            seq![
                (
                    "Err"@,
                    Jv::Obj(seq![("kind"@, Jv::Str(kind_text(k))), ("message"@, Jv::Str(m))]),
                ),
            ],
        ),
    }
}

/// The result a reply document denotes, if any: an object with a single
/// `Ok` or `Err` binding, the latter an object binding `kind` to a known
/// kind spelling and `message` to a string.
pub open spec fn wire_parse(j: Jv) -> Option<RrSpec> {
    match j {
        Jv::Obj(ms) => if ms.len() == 1 {
            match obj_get(ms, "Ok"@) {
                Some(v) => Some(RrSpec::Value(v)),
                None => match obj_get(ms, "Err"@) {
                    Some(Jv::Obj(ems)) => match (obj_get(ems, "kind"@), obj_get(ems, "message"@)) {
                        (Some(Jv::Str(kt)), Some(Jv::Str(m))) => {
                            if kt == "InternalFailure"@ {
                                Some(RrSpec::Failure(RequestResultErrorKind::InternalFailure, m))
                            } else if kt == "MalformedRequest"@ {
                                Some(RrSpec::Failure(RequestResultErrorKind::MalformedRequest, m))
                            } else {
                                None
                            }
                        },
                        _ => None,
                    },
                    _ => None,
                },
            }
        } else {
            None
        },
        _ => None,
    }
}

/// The wire spelling of an error kind.
pub fn kind_name(k: RequestResultErrorKind) -> (r: String)
    ensures
        r@ == kind_text(k),
{
    match k {
        RequestResultErrorKind::InternalFailure => String::from_str("InternalFailure"),
        RequestResultErrorKind::MalformedRequest => String::from_str("MalformedRequest"),
    }
}

impl RequestResult {
    /// The reply document of this result.
    pub fn to_json(&self) -> (r: JsonValue)
        ensures
            r.jv() == wire_jv(self.rr()),
    {
        match self {
            RequestResult::Success(v) => {
                let tag = String::from_str("Ok");
                let payload = v.duplicate();
                let mut members: Vec<(String, JsonValue)> = Vec::new();
                proof {
                    lemma_jv_of_members_push(members@, tag, payload);
                }
                members.push((tag, payload));
                let r = JsonValue::Obj(members);
                proof {
                    assert(crate::json::jv_of_members(members@) =~= seq![("Ok"@, v.jv())]);
                    assert(r.jv() =~~= wire_jv(self.rr()));
                }
                r
            },
            RequestResult::Failure(e) => {
                let kind_key = String::from_str("kind");
                let kind_val = JsonValue::Str(kind_name(e.kind));
                let msg_key = String::from_str("message");
                let msg_val = JsonValue::Str(e.message.clone());
                let mut inner: Vec<(String, JsonValue)> = Vec::new();
                proof {
                    lemma_jv_of_members_push(inner@, kind_key, kind_val);
                }
                inner.push((kind_key, kind_val));
                proof {
                    lemma_jv_of_members_push(inner@, msg_key, msg_val);
                }
                inner.push((msg_key, msg_val));
                proof {
                    assert(crate::json::jv_of_members(inner@) =~= seq![
                        ("kind"@, Jv::Str(kind_text(e.kind))),
                        ("message"@, Jv::Str(e.message@)),
                    ]);
                }
                let tag = String::from_str("Err");
                let inner_doc = JsonValue::Obj(inner);
                let mut members: Vec<(String, JsonValue)> = Vec::new();
                proof {
                    lemma_jv_of_members_push(members@, tag, inner_doc);
                }
                members.push((tag, inner_doc));
                let r = JsonValue::Obj(members);
                proof {
                    assert(r.jv() =~~= wire_jv(self.rr()));
                }
                r
            },
        }
    }

    /// The serialized reply body of this result.
    pub fn to_bytes(&self) -> (r: Vec<u8>)
        ensures
            r@ == encode_utf8(ser_value(wire_jv(self.rr()))),
    {
        let doc = self.to_json();
        crate::json_write::to_bytes(&doc)
    }

    /// The result a reply document denotes, if any.
    pub fn from_json(v: &JsonValue) -> (r: Option<RequestResult>)
        ensures
            r is Some <==> wire_parse(v.jv()) is Some,
            r matches Some(rr) ==> wire_parse(v.jv()) == Some(rr.rr()),
    {
        let members = match v {
            JsonValue::Obj(members) => members,
            _ => {
                proof {
                    lemma_jv_variants(*v);
                }
                return None;
            },
        };
        if members.len() != 1 {
            proof {
                lemma_jv_of_members_len(members@);
            }
            return None;
        }
        proof {
            lemma_jv_of_members_len(members@);
        }
        if let Some(ok_val) = crate::json::get_member(members, "Ok") {
            return Some(RequestResult::Success(ok_val.duplicate()));
        }
        let err_val = match crate::json::get_member(members, "Err") {
            Some(x) => x,
            None => {
                return None;
            },
        };
        let inner = match err_val {
            JsonValue::Obj(inner) => inner,
            _ => {
                proof {
                    lemma_jv_variants(*err_val);
                }
                return None;
            },
        };
        let kt = match crate::json::get_member(inner, "kind") {
            Some(x) => {
                proof {
                    lemma_jv_variants(*x);
                }
                match x {
                    JsonValue::Str(s) => s,
                    _ => {
                        return None;
                    },
                }
            },
            None => {
                return None;
            },
        };
        let m = match crate::json::get_member(inner, "message") {
            Some(x) => {
                proof {
                    lemma_jv_variants(*x);
                }
                match x {
                    JsonValue::Str(s) => s,
                    _ => {
                        return None;
                    },
                }
            },
            None => {
                return None;
            },
        };
        if crate::text::str_eq(kt.as_str(), "InternalFailure") {
            Some(
                RequestResult::Failure(
                    RequestResultError::new(RequestResultErrorKind::InternalFailure, m.clone()),
                ),
            )
        } else if crate::text::str_eq(kt.as_str(), "MalformedRequest") {
            Some(
                RequestResult::Failure(
                    RequestResultError::new(RequestResultErrorKind::MalformedRequest, m.clone()),
                ),
            )
        } else {
            None
        }
    }

    /// The result a serialized reply body denotes, if any.
    pub fn from_bytes(b: &[u8]) -> (r: Option<RequestResult>)
        ensures
            r is Some <==> (valid_utf8(b@) && (match p_text(decode_utf8(b@)) {
                Some(j) => wire_parse(j) is Some,
                None => false,
            })),
            r matches Some(rr) ==> (match p_text(decode_utf8(b@)) {
                Some(j) => wire_parse(j) == Some(rr.rr()),
                None => false,
            }),
    {
        let s = match core::str::from_utf8(b) {
            Ok(s) => s,
            Err(_) => {
                return None;
            },
        };
        let doc = match crate::json_read::from_text(s) {
            Some(doc) => doc,
            None => {
                return None;
            },
        };
        RequestResult::from_json(&doc)
    }
}

/// Reading back the wire form of a result yields that result, for every
/// result whose payload nesting the reader admits.
pub proof fn lemma_wire_parse_wire_jv(r: RrSpec)
    ensures
        wire_parse(wire_jv(r)) == Some(r),
{
    reveal_strlit("Ok");
    reveal_strlit("Err");
    reveal_strlit("kind");
    reveal_strlit("message");
    reveal_strlit("InternalFailure");
    reveal_strlit("MalformedRequest");
    match r {
        RrSpec::Value(v) => {
            let ms = seq![("Ok"@, v)];
            assert(ms.last() == ("Ok"@, v));
            assert(obj_get(ms, "Ok"@) == Some(v));
        },
        RrSpec::Failure(k, m) => {
            let inner = seq![("kind"@, Jv::Str(kind_text(k))), ("message"@, Jv::Str(m))];
            let ms = seq![("Err"@, Jv::Obj(inner))];
            assert("Err"@.len() == 3);
            assert("Ok"@.len() == 2);
            assert("Err"@ != "Ok"@);
            assert(ms.last() == ("Err"@, Jv::Obj(inner)));
            assert(ms.drop_last() =~= Seq::<(Seq<char>, Jv)>::empty());
            assert(obj_get(Seq::<(Seq<char>, Jv)>::empty(), "Ok"@) is None);
            assert(obj_get(ms, "Ok"@) is None);
            assert(obj_get(ms, "Err"@) == Some(Jv::Obj(inner)));
            assert(inner.last() == ("message"@, Jv::Str(m)));
            assert("message"@.len() == 7);
            assert("kind"@.len() == 4);
            assert("message"@ != "kind"@);
            assert(inner.drop_last() =~= seq![("kind"@, Jv::Str(kind_text(k)))]);
            assert(inner.drop_last().last() == ("kind"@, Jv::Str(kind_text(k))));
            assert(obj_get(inner.drop_last(), "kind"@) == Some(Jv::Str(kind_text(k))));
            assert(obj_get(inner, "kind"@) == Some(Jv::Str(kind_text(k))));
            assert(obj_get(inner, "message"@) == Some(Jv::Str(m)));
            match k {
                RequestResultErrorKind::InternalFailure => {
                    assert(kind_text(k) == "InternalFailure"@);
                },
                RequestResultErrorKind::MalformedRequest => {
                    assert("MalformedRequest"@.len() == 16);
                    assert("InternalFailure"@.len() == 15);
                    assert(kind_text(k) != "InternalFailure"@);
                    assert(kind_text(k) == "MalformedRequest"@);
                },
            }
        },
    }
}

/// Whether a result's payload carries only well-formed number lexemes.
/// A failure result always does: its document is built of strings.
pub open spec fn rr_wf(r: RrSpec) -> bool {
    match r {
        RrSpec::Value(v) => jv_wf(v),
        RrSpec::Failure(k, m) => true,
    }
}

/// The reply document of a well-formed result is itself well formed.
pub proof fn lemma_wire_jv_wf(r: RrSpec)
    requires
        rr_wf(r),
    ensures
        jv_wf(wire_jv(r)),
{
    match r {
        RrSpec::Value(v) => {
            let ms = seq![("Ok"@, v)];
            assert(ms.drop_first() =~= Seq::<(Seq<char>, Jv)>::empty());
            assert(jv_wf_members(ms.drop_first()));
            assert(jv_wf_members(ms));
        },
        RrSpec::Failure(k, m) => {
            let inner = seq![("kind"@, Jv::Str(kind_text(k))), ("message"@, Jv::Str(m))];
            let ms = seq![("Err"@, Jv::Obj(inner))];
            assert(inner.drop_first() =~= seq![("message"@, Jv::Str(m))]);
            assert(inner.drop_first().drop_first() =~= Seq::<(Seq<char>, Jv)>::empty());
            assert(jv_wf_members(inner.drop_first().drop_first()));
            assert(inner.drop_first().first() == ("message"@, Jv::Str(m)));
            assert(jv_wf(Jv::Str(m)));
            assert(jv_wf_members(inner.drop_first()));
            assert(inner.first() == ("kind"@, Jv::Str(kind_text(k))));
            assert(jv_wf(Jv::Str(kind_text(k))));
            assert(jv_wf_members(inner));
            assert(jv_wf(Jv::Obj(inner)));
            assert(ms.drop_first() =~= Seq::<(Seq<char>, Jv)>::empty());
            assert(jv_wf_members(ms.drop_first()));
            assert(ms.first() == ("Err"@, Jv::Obj(inner)));
            assert(jv_wf_members(ms));
        },
    }
}

/// The round trip of the reply wire format: serializing any well-formed
/// result and reading the bytes back yields exactly that result.
pub proof fn lemma_result_round_trip(r: RrSpec)
    requires
        rr_wf(r),
        jv_depth(wire_jv(r)) <= max_nesting(),
    ensures
        valid_utf8(encode_utf8(ser_value(wire_jv(r)))),
        ({
            let bytes = encode_utf8(ser_value(wire_jv(r)));
            match p_text(decode_utf8(bytes)) {
                Some(j) => wire_parse(j) == Some(r),
                None => false,
            }
        }),
{
    let text = ser_value(wire_jv(r));
    vstd::utf8::encode_utf8_valid_utf8(text);
    vstd::utf8::encode_utf8_decode_utf8(text);
    lemma_wire_jv_wf(r);
    crate::json_laws::lemma_text_round_trip(wire_jv(r));
    lemma_wire_parse_wire_jv(r);
}

// ---------------------------------------------------------------------------
// Conversions from the framework's error type.
// ---------------------------------------------------------------------------

/// The result kind that stands for a framework error kind on the wire.
pub open spec fn result_kind_of(k: ErrorKind) -> RequestResultErrorKind {
    match k {
        ErrorKind::MalformedRequest => RequestResultErrorKind::MalformedRequest,
        _ => RequestResultErrorKind::InternalFailure,
    }
}

impl From<ErrorKind> for RequestResultErrorKind {
    fn from(kind: ErrorKind) -> (r: RequestResultErrorKind) {
        match kind {
            ErrorKind::MalformedRequest => RequestResultErrorKind::MalformedRequest,
            _ => RequestResultErrorKind::InternalFailure,
        }
    }
}

impl vstd::std_specs::convert::FromSpecImpl<ErrorKind> for RequestResultErrorKind {
    open spec fn obeys_from_spec() -> bool {
        true
    }

    open spec fn from_spec(kind: ErrorKind) -> RequestResultErrorKind {
        result_kind_of(kind)
    }
}

impl From<Error> for RequestResultError {
    fn from(error: Error) -> (r: RequestResultError) {
        RequestResultError { kind: RequestResultErrorKind::from(error.kind), message: error.message }
    }
}

impl vstd::std_specs::convert::FromSpecImpl<Error> for RequestResultError {
    open spec fn obeys_from_spec() -> bool {
        true
    }

    open spec fn from_spec(error: Error) -> RequestResultError {
        RequestResultError { kind: result_kind_of(error.kind), message: error.message }
    }
}

impl From<Result<JsonValue, Error>> for RequestResult {
    fn from(result: Result<JsonValue, Error>) -> (r: RequestResult) {
        match result {
            Ok(value) => RequestResult::Success(value),
            Err(error) => RequestResult::Failure(RequestResultError::from(error)),
        }
    }
}

impl From<Result<(), Error>> for RequestResult {
    fn from(result: Result<(), Error>) -> (r: RequestResult) {
        match result {
            Ok(()) => RequestResult::Success(JsonValue::Null),
            Err(error) => RequestResult::Failure(RequestResultError::from(error)),
        }
    }
}

impl vstd::std_specs::convert::FromSpecImpl<Result<(), Error>> for RequestResult {
    open spec fn obeys_from_spec() -> bool {
        true
    }

    open spec fn from_spec(result: Result<(), Error>) -> RequestResult {
        match result {
            Ok(u) => RequestResult::Success(JsonValue::Null),
            Err(error) => RequestResult::Failure(
                RequestResultError { kind: result_kind_of(error.kind), message: error.message },
            ),
        }
    }
}

impl vstd::std_specs::convert::FromSpecImpl<Result<JsonValue, Error>> for RequestResult {
    open spec fn obeys_from_spec() -> bool {
        true
    }

    open spec fn from_spec(result: Result<JsonValue, Error>) -> RequestResult {
        match result {
            Ok(value) => RequestResult::Success(value),
            Err(error) => RequestResult::Failure(
                RequestResultError { kind: result_kind_of(error.kind), message: error.message },
            ),
        }
    }
}

} // verus!
