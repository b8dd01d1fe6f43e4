//! Correlated replies: what the dispatcher publishes back to a caller
//! that asked for a response.
//!
//! A delivery may name a reply queue and a correlation identifier. A
//! reply is planned exactly when the reply queue is named; it goes to the
//! default exchange under that routing key, carries the serialized
//! result as JSON, and copies the correlation identifier verbatim.

use crate::json::ser_value;
use crate::request_result::{wire_jv, RequestResult};
use vstd::prelude::*;
use vstd::string::StringExecFns;
use vstd::utf8::encode_utf8;

verus! {

/// The reply-relevant properties of a delivery.
#[derive(Debug)]
pub struct DeliveryProperties {
    pub reply_to: Option<String>,
    pub correlation_id: Option<String>,
}

/// The characters of an optional string.
pub open spec fn opt_str_view(o: Option<String>) -> Option<Seq<char>> {
    match o {
        Some(s) => Some(s@),
        None => None,
    }
}

/// One reply, ready to publish: the default exchange is implied.
#[derive(Debug)]
pub struct ReplyPlan {
    pub routing_key: String,
    pub correlation_id: Option<String>,
    pub content_type: String,
    pub payload: Vec<u8>,
}

/// Clones an optional string.
fn duplicate_opt_string(o: &Option<String>) -> (r: Option<String>)
    ensures
        opt_str_view(r) == opt_str_view(*o),
{
    match o {
        Some(s) => Some(s.clone()),
        None => None,
    }
}

/// Plans the reply for one result: there is one exactly when the
/// delivery named a reply queue, it answers to that queue, it carries the
/// delivery's correlation identifier verbatim, and its payload is the
/// serialized result.
pub fn reply_plan(props: &DeliveryProperties, result: &RequestResult) -> (r: Option<ReplyPlan>)
    ensures
        r is Some <==> props.reply_to is Some,
        r matches Some(p) ==> ({
            &&& p.routing_key@ == props.reply_to->0@
            &&& opt_str_view(p.correlation_id) == opt_str_view(props.correlation_id)
            &&& p.content_type@ == "application/json"@
            &&& p.payload@ == encode_utf8(ser_value(wire_jv(result.rr())))
        }),
{
    let reply_to = match &props.reply_to {
        Some(reply_to) => reply_to,
        None => {
            return None;
        },
    };
    Some(
        ReplyPlan {
            routing_key: reply_to.clone(),
            correlation_id: duplicate_opt_string(&props.correlation_id),
            content_type: String::from_str("application/json"),
            payload: result.to_bytes(),
        },
    )
}

} // verus!
