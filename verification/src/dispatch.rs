//! The ingress dispatcher's decisions: admission control, request
//! preparation, and the acknowledgement and reply protocol.
//!
//! The surrounding consume loop performs broker I/O and so lives outside
//! the library; everything it decides, it decides by calling here. The
//! admission gauge models the dispatcher's in-flight counter; a delivery
//! is pulled only while the gauge admits one, which keeps the count of
//! concurrently handled requests within the element's cap.

use crate::authorizer::{required_permission, Authorizer};
use crate::error::{Error, ErrorKind};
use crate::json::{JsonValue, Jv};
use crate::json_parse::p_text;
use crate::replier::{opt_str_view, reply_plan, DeliveryProperties, ReplyPlan};
use crate::request::{request_header_fields, Request};
use crate::request_result::{result_kind_of, wire_jv, RequestResult, RequestResultError, RrSpec};
use crate::sanitizer::sanitize;
use crate::token::{has_perm, strings_view, token_permissions};
use crate::token_validator::jwt_claims_obj;
use vstd::prelude::*;
use vstd::string::StringExecFns;
use vstd::utf8::{decode_utf8, encode_utf8, valid_utf8};

verus! {

// ---------------------------------------------------------------------------
// Admission control.
// ---------------------------------------------------------------------------

/// The dispatcher's in-flight counter, bounded by the element's cap.
#[derive(Debug)]
pub struct ConcurrencyGauge {
    pub inflight: u16,
    pub max_concurrent_requests: u16,
}

impl ConcurrencyGauge {
    /// At every instant, no more requests are in flight than the cap.
    pub open spec fn wf(self) -> bool {
        self.inflight <= self.max_concurrent_requests
    }

    pub fn new(max_concurrent_requests: u16) -> (r: ConcurrencyGauge)
        ensures
            r.wf(),
            r.inflight == 0,
            r.max_concurrent_requests == max_concurrent_requests,
    {
        ConcurrencyGauge { inflight: 0, max_concurrent_requests }
    }

    /// Whether one more request may start: the admission gate of the
    /// consume loop. While this is false, no delivery is pulled.
    pub fn can_admit(&self) -> (r: bool)
        ensures
            r == (self.inflight < self.max_concurrent_requests),
    {
        self.inflight < self.max_concurrent_requests
    }

    /// Accounts one dispatched request; keeps the count within the cap.
    pub fn begin_request(&mut self)
        requires
            old(self).wf(),
            old(self).inflight < old(self).max_concurrent_requests,
        ensures
            final(self).wf(),
            final(self).inflight == old(self).inflight + 1,
            final(self).max_concurrent_requests == old(self).max_concurrent_requests,
    {
        self.inflight = self.inflight + 1;
    }

    /// Accounts one completed request.
    pub fn end_request(&mut self)
        requires
            old(self).wf(),
            old(self).inflight > 0,
        ensures
            final(self).wf(),
            final(self).inflight == old(self).inflight - 1,
            final(self).max_concurrent_requests == old(self).max_concurrent_requests,
    {
        self.inflight = self.inflight - 1;
    }
}

/// One observable step of a dispatcher: pulling a delivery (which starts
/// its handler), or a handler completing.
#[derive(Debug)]
pub enum DispatchEvent {
    Pull,
    Complete,
}

/// One step of the in-flight count: a pull is enabled only below the
/// cap, a completion only while something is in flight.
pub open spec fn dispatch_step(inflight: int, cap: int, e: DispatchEvent) -> Option<int> {
    match e {
        DispatchEvent::Pull => if inflight < cap {
            Some(inflight + 1)
        } else {
            None
        },
        DispatchEvent::Complete => if inflight > 0 {
            Some(inflight - 1)
        } else {
            None
        },
    }
}

/// The in-flight count after a trace of steps, when every step was
/// enabled.
pub open spec fn dispatch_trace(inflight: int, cap: int, t: Seq<DispatchEvent>) -> Option<int>
    decreases t.len(),
{
    if t.len() == 0 {
        Some(inflight)
    } else {
        match dispatch_trace(inflight, cap, t.drop_last()) {
            Some(n) => dispatch_step(n, cap, t.last()),
            None => None,
        }
    }
}

/// At any instant of any run of the dispatcher, the number of requests
/// in flight lies between zero and the element's cap.
pub proof fn law_inflight_bounded(cap: int, t: Seq<DispatchEvent>)
    requires
        cap >= 0,
    ensures
        dispatch_trace(0, cap, t) matches Some(n) ==> 0 <= n <= cap,
    decreases t.len(),
{
    if t.len() > 0 {
        law_inflight_bounded(cap, t.drop_last());
    }
}

/// Backpressure: a run can continue with a pull only from an instant at
/// which the in-flight count is strictly below the cap. With the cap
/// reached, no delivery is pulled until a handler completes.
pub proof fn law_backpressure(cap: int, t: Seq<DispatchEvent>)
    requires
        cap >= 0,
    ensures
        dispatch_trace(0, cap, t.push(DispatchEvent::Pull)) is Some ==> (dispatch_trace(0, cap, t)
            matches Some(n) && n < cap),
{
    assert(t.push(DispatchEvent::Pull).drop_last() =~= t);
}

// ---------------------------------------------------------------------------
// Preparation.
// ---------------------------------------------------------------------------

/// The object members of a delivery body: the body must be UTF-8, must
/// read as a JSON document, and that document must be an object.
pub open spec fn body_members(bytes: Seq<u8>) -> Option<Seq<(Seq<char>, Jv)>> {
    if valid_utf8(bytes) {
        match p_text(decode_utf8(bytes)) {
            Some(Jv::Obj(ms)) => Some(ms),
            _ => None,
        }
    } else {
        None
    }
}

/// Builds a request from a delivery body: decode, sanitize against the
/// element's actions, and authorize. Every failure of the body's own
/// shape or of the action whitelist is `MalformedRequest`, as are the
/// authorizer's refusals; on success the request carries a token holding
/// the permission its header demands.
pub fn prepare_request(authorizer: &Authorizer, bytes: &[u8], actions: &Vec<String>) -> (r: Result<
    Request,
    Error,
>)
    ensures
        body_members(bytes@) is None ==> (r matches Err(e) && e.kind
            == ErrorKind::MalformedRequest),
        r matches Ok(req) ==> ({
            &&& body_members(bytes@) matches Some(ms) && req.data_view() == ms
            &&& request_header_fields(req.data_view()) matches Some(f) && has_perm(
                strings_view(actions@),
                f.2,
            )
            &&& req.authorized_token matches Some(t) && has_perm(
                t.perms_view(),
                required_permission(request_header_fields(req.data_view())->Some_0),
            )
            &&& req.authorized_token matches Some(t) && (match jwt_claims_obj(
                (request_header_fields(req.data_view())->Some_0).0,
            ) {
                Some(cm) => t.claims_view() == cm && Some(t.perms_view()) == token_permissions(cm),
                None => false,
            })
        }),
        r matches Err(e) ==> e.kind == ErrorKind::MalformedRequest,
        (body_members(bytes@) matches Some(ms) && !(request_header_fields(ms) matches Some(f)
            && has_perm(strings_view(actions@), f.2))) ==> r is Err,
        (body_members(bytes@) matches Some(ms) && !(request_header_fields(ms) matches Some(f)
            && has_perm(strings_view(actions@), f.2)) && r is Err) ==> (r matches Err(e)
            && "request sanitization failure: "@.is_prefix_of(e.message@)),
        (body_members(bytes@) matches Some(ms) && (request_header_fields(ms) matches Some(f)
            && has_perm(strings_view(actions@), f.2)) && r is Err) ==> (r matches Err(e)
            && "request authorization failure: "@.is_prefix_of(e.message@)),
{
    let text = match core::str::from_utf8(bytes) {
        Ok(text) => text,
        Err(_) => {
            return Err(
                Error::new(
                    ErrorKind::MalformedRequest,
                    String::from_str("delivery is not an utf8 string"),
                ),
            );
        },
    };
    let doc = match crate::json_read::from_text(text) {
        Some(doc) => doc,
        None => {
            return Err(
                Error::new(
                    ErrorKind::MalformedRequest,
                    String::from_str("delivery is not a json object"),
                ),
            );
        },
    };
    let members = match doc {
        JsonValue::Obj(ms) => ms,
        _ => {
            proof {
                crate::json::lemma_jv_variants(doc);
            }
            return Err(
                Error::new(
                    ErrorKind::MalformedRequest,
                    String::from_str("delivery is not a json object"),
                ),
            );
        },
    };
    let request = match sanitize(members, actions) {
        Ok(request) => request,
        Err(e) => {
            let mut message = String::from_str("request sanitization failure: ");
            message.append(e.message().as_str());
            proof {
                assert(("request sanitization failure: "@).is_prefix_of(message@)) by {
                    assert(message@.subrange(
                        0,
                        "request sanitization failure: "@.len() as int,
                    ) =~= "request sanitization failure: "@);
                }
            }
            return Err(Error::new(ErrorKind::MalformedRequest, message));
        },
    };
    match authorizer.authorize(request) {
        Ok(request) => Ok(request),
        Err(e) => {
            let mut message = String::from_str("request authorization failure: ");
            message.append(e.message().as_str());
            proof {
                assert(("request authorization failure: "@).is_prefix_of(message@)) by {
                    assert(message@.subrange(
                        0,
                        "request authorization failure: "@.len() as int,
                    ) =~= "request authorization failure: "@);
                }
            }
            Err(Error::new(ErrorKind::MalformedRequest, message))
        },
    }
}

/// The error the dispatcher surfaces when preparation failed: the
/// preparation error itself when the broker reject went through, and
/// `AmqpFailure` when even the reject failed.
pub fn preparation_failure_error(prepare_error: Error, reject_succeeded: bool) -> (r: Error)
    ensures
        reject_succeeded ==> r.kind == prepare_error.kind && r.message@ == prepare_error.message@,
        !reject_succeeded ==> r.kind == ErrorKind::AmqpFailure,
{
    if reject_succeeded {
        prepare_error
    } else {
        Error::new(ErrorKind::AmqpFailure, String::from_str("failed to reject delivery"))
    }
}

// ---------------------------------------------------------------------------
// The acknowledgement and reply protocol.
// ---------------------------------------------------------------------------

#[derive(Clone, Copy, Debug, PartialEq, Eq, Structural)]
pub enum BrokerAction {
    Acknowledge,
    Reject,
}

/// How the dispatcher settles one delivery it pulled: what preparation
/// produced and, when preparation succeeded, what the handler returned.
#[derive(Debug)]
pub enum DeliveryOutcome {
    PreparationFailed(Error),
    Handled(RequestResult),
}

/// The result whose serialization a delivery's reply carries.
pub open spec fn outcome_result(outcome: DeliveryOutcome) -> RrSpec {
    match outcome {
        DeliveryOutcome::PreparationFailed(e) => RrSpec::Failure(result_kind_of(e.kind), e.message@),
        DeliveryOutcome::Handled(res) => res.rr(),
    }
}

/// Everything the dispatcher owes the broker and the caller for one
/// delivery: exactly one broker action, and at most one reply.
#[derive(Debug)]
pub struct DeliveryPlan {
    pub broker_action: BrokerAction,
    pub reply: Option<ReplyPlan>,
}

/// Settles one delivery.
///
/// Exactly one broker action is planned: an acknowledgement exactly when
/// the handler returned a success, a reject otherwise — on every failed
/// result and on every preparation failure. A reply is planned exactly
/// when the delivery asked for one, carries the delivery's correlation
/// identifier verbatim, and serializes the outcome.
pub fn delivery_plan(outcome: &DeliveryOutcome, props: &DeliveryProperties) -> (r: DeliveryPlan)
    ensures
        r.broker_action == BrokerAction::Acknowledge <==> (outcome matches
            DeliveryOutcome::Handled(res) && res is Success),
        r.reply is Some <==> props.reply_to is Some,
        r.reply matches Some(p) ==> ({
            &&& p.routing_key@ == props.reply_to->0@
            &&& opt_str_view(p.correlation_id) == opt_str_view(props.correlation_id)
            &&& p.content_type@ == "application/json"@
            &&& p.payload@ == encode_utf8(crate::json::ser_value(wire_jv(outcome_result(*outcome))))
        }),
{
    match outcome {
        DeliveryOutcome::PreparationFailed(e) => {
            let result = RequestResult::Failure(
                RequestResultError::new(
                    crate::request_result::RequestResultErrorKind::from(e.kind),
                    e.message.clone(),
                ),
            );
            DeliveryPlan { broker_action: BrokerAction::Reject, reply: reply_plan(props, &result) }
        },
        DeliveryOutcome::Handled(result) => {
            let action = match result {
                RequestResult::Success(_) => BrokerAction::Acknowledge,
                RequestResult::Failure(_) => BrokerAction::Reject,
            };
            DeliveryPlan { broker_action: action, reply: reply_plan(props, result) }
        },
    }
}

/// The consumer tag of an element's consumer: the queue name, a hash
/// sign, and a fresh identifier.
pub fn consumer_tag(queue_name: &str, fresh_id: &str) -> (r: String)
    ensures
        r@ == queue_name@ + seq!['#'] + fresh_id@,
{
    let mut tag = String::from_str(queue_name);
    tag.append("#");
    tag.append(fresh_id);
    proof {
        reveal_strlit("#");
        assert(tag@ =~= queue_name@ + seq!['#'] + fresh_id@);
    }
    tag
}

} // verus!
