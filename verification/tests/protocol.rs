//! The protocol layer from the outside: results on the wire, the
//! acknowledgement and reply plans, admission control, routing, and
//! sanitization.

use amqp_api::config::{
    AmqpConnectionManagerConfig, AmqpInputElementAddonConfig, AmqpOutputElementAddonConfig,
    AmqpQueueConfig, BasicAckOptions, BasicConsumeOptions, BasicPublishOptions, BasicQosOptions,
    BasicRejectOptions, Config, InputElementConfig, OutputElementConfig, PublishProperties,
    QueueDeclareOptions,
};
use amqp_api::dispatch::{
    consumer_tag, delivery_plan, preparation_failure_error, BrokerAction, ConcurrencyGauge,
    DeliveryOutcome,
};
use amqp_api::error::{Error, ErrorKind};
use amqp_api::input_element::{extract_input, InputElement};
use amqp_api::json::JsonValue;
use amqp_api::output::AmqpOutputElement;
use amqp_api::replier::{reply_plan, DeliveryProperties};
use amqp_api::request::{extract_parameter_from_request_data, Request};
use amqp_api::request_result::{RequestResult, RequestResultError, RequestResultErrorKind};
use amqp_api::router::{route_batch, RouterCore};
use amqp_api::sanitizer::sanitize;

fn s(text: &str) -> JsonValue {
    JsonValue::Str(text.to_string())
}

fn header_obj(token: &str, element: &str, action: &str) -> JsonValue {
    JsonValue::Obj(vec![
        ("token".to_string(), s(token)),
        ("element".to_string(), s(element)),
        ("action".to_string(), s(action)),
    ])
}

fn request_members(action: &str) -> Vec<(String, JsonValue)> {
    vec![
        ("header".to_string(), header_obj("tok", "orders", action)),
        ("qty".to_string(), JsonValue::from_int(3)),
    ]
}

// --- results on the wire ---------------------------------------------------

#[test]
fn success_result_serializes_as_ok() {
    let result = RequestResult::Success(JsonValue::Obj(vec![("id".to_string(), s("o1"))]));
    assert_eq!(
        String::from_utf8(result.to_bytes()).unwrap(),
        "{\"Ok\":{\"id\":\"o1\"}}"
    );
}

#[test]
fn failure_result_serializes_as_err() {
    let result = RequestResult::Failure(RequestResultError::new(
        RequestResultErrorKind::MalformedRequest,
        "bad header".to_string(),
    ));
    assert_eq!(
        String::from_utf8(result.to_bytes()).unwrap(),
        "{\"Err\":{\"kind\":\"MalformedRequest\",\"message\":\"bad header\"}}"
    );
}

#[test]
fn results_round_trip_through_the_wire() {
    let success = RequestResult::Success(JsonValue::Arr(vec![JsonValue::from_int(1), s("x")]));
    let bytes = success.to_bytes();
    assert_eq!(RequestResult::from_bytes(&bytes).unwrap(), success);

    let failure = RequestResult::Failure(RequestResultError::new(
        RequestResultErrorKind::InternalFailure,
        "boom \"quoted\"".to_string(),
    ));
    let bytes = failure.to_bytes();
    assert_eq!(RequestResult::from_bytes(&bytes).unwrap(), failure);
}

#[test]
fn wire_decoding_rejects_other_documents() {
    assert!(RequestResult::from_bytes(b"{}").is_none());
    assert!(RequestResult::from_bytes(b"{\"Okay\":1}").is_none());
    assert!(RequestResult::from_bytes(b"{\"Err\":{\"kind\":\"Odd\",\"message\":\"m\"}}").is_none());
    assert!(RequestResult::from_bytes(b"not json").is_none());
    assert!(RequestResult::from_bytes(&[0xff, 0xfe]).is_none());
}

#[test]
fn error_kinds_map_onto_result_kinds() {
    assert_eq!(
        RequestResultErrorKind::from(ErrorKind::MalformedRequest),
        RequestResultErrorKind::MalformedRequest
    );
    assert_eq!(
        RequestResultErrorKind::from(ErrorKind::AmqpFailure),
        RequestResultErrorKind::InternalFailure
    );
    let e = Error::new(ErrorKind::SanitizationFailure, "nope".to_string());
    let re = RequestResultError::from(e);
    assert_eq!(re.kind(), RequestResultErrorKind::InternalFailure);
    assert_eq!(re.message(), "nope");
}

// --- acknowledgement and replies -------------------------------------------

#[test]
fn handled_success_is_acknowledged_and_replied() {
    let props = DeliveryProperties {
        reply_to: Some("r1".to_string()),
        correlation_id: Some("c1".to_string()),
    };
    let outcome = DeliveryOutcome::Handled(RequestResult::Success(JsonValue::Obj(vec![
        ("id".to_string(), s("o1")),
    ])));
    let plan = delivery_plan(&outcome, &props);
    assert_eq!(plan.broker_action, BrokerAction::Acknowledge);
    let reply = plan.reply.expect("reply_to was set");
    assert_eq!(reply.routing_key, "r1".to_string());
    assert_eq!(reply.correlation_id, Some("c1".to_string()));
    assert_eq!(reply.content_type, "application/json".to_string());
    assert_eq!(
        String::from_utf8(reply.payload).unwrap(),
        "{\"Ok\":{\"id\":\"o1\"}}"
    );
}

#[test]
fn handled_failure_is_rejected() {
    let props = DeliveryProperties { reply_to: None, correlation_id: None };
    let outcome = DeliveryOutcome::Handled(RequestResult::Failure(RequestResultError::new(
        RequestResultErrorKind::InternalFailure,
        "handler failed".to_string(),
    )));
    let plan = delivery_plan(&outcome, &props);
    assert_eq!(plan.broker_action, BrokerAction::Reject);
    assert!(plan.reply.is_none());
}

#[test]
fn preparation_failure_is_rejected_with_a_malformed_request_reply() {
    let props = DeliveryProperties {
        reply_to: Some("r2".to_string()),
        correlation_id: None,
    };
    let err = Error::new(ErrorKind::MalformedRequest, "bad body".to_string());
    let plan = delivery_plan(&DeliveryOutcome::PreparationFailed(err), &props);
    assert_eq!(plan.broker_action, BrokerAction::Reject);
    let reply = plan.reply.expect("reply_to was set");
    assert_eq!(reply.correlation_id, None);
    assert_eq!(
        String::from_utf8(reply.payload).unwrap(),
        "{\"Err\":{\"kind\":\"MalformedRequest\",\"message\":\"bad body\"}}"
    );
}

#[test]
fn reply_plan_exists_exactly_when_reply_to_is_set() {
    let result = RequestResult::Success(JsonValue::Null);
    let without = DeliveryProperties { reply_to: None, correlation_id: Some("c".to_string()) };
    assert!(reply_plan(&without, &result).is_none());
    let with = DeliveryProperties { reply_to: Some("q".to_string()), correlation_id: None };
    let plan = reply_plan(&with, &result).unwrap();
    assert_eq!(plan.routing_key, "q".to_string());
    assert_eq!(plan.correlation_id, None);
}

#[test]
fn preparation_failure_error_keeps_or_replaces_the_kind() {
    let e = Error::new(ErrorKind::MalformedRequest, "bad".to_string());
    let kept = preparation_failure_error(e, true);
    assert_eq!(kept.kind(), ErrorKind::MalformedRequest);
    let e = Error::new(ErrorKind::MalformedRequest, "bad".to_string());
    let replaced = preparation_failure_error(e, false);
    assert_eq!(replaced.kind(), ErrorKind::AmqpFailure);
}

// --- admission control ------------------------------------------------------

#[test]
fn gauge_blocks_at_the_cap_and_reopens_on_completion() {
    let mut gauge = ConcurrencyGauge::new(2);
    assert!(gauge.can_admit());
    gauge.begin_request();
    assert!(gauge.can_admit());
    gauge.begin_request();
    assert!(!gauge.can_admit());
    gauge.end_request();
    assert!(gauge.can_admit());
    gauge.begin_request();
    assert!(!gauge.can_admit());
}

#[test]
fn consumer_tag_joins_queue_and_identifier() {
    assert_eq!(consumer_tag("orders", "abc-123"), "orders#abc-123".to_string());
}

// --- sanitization -----------------------------------------------------------

#[test]
fn sanitize_accepts_a_whitelisted_action() {
    let actions = vec!["create".to_string()];
    let request = sanitize(request_members("create"), &actions).expect("allowed action");
    assert!(request.authorized_token.is_none());
    let header = request.try_get_header().unwrap();
    assert_eq!(header.action(), "create");
    assert_eq!(header.element(), "orders");
    assert_eq!(header.token(), "tok");
}

#[test]
fn sanitize_rejects_an_unknown_action() {
    let actions = vec!["create".to_string()];
    let err = sanitize(request_members("delete"), &actions).unwrap_err();
    assert_eq!(err.kind(), ErrorKind::SanitizationFailure);
}

#[test]
fn sanitize_rejects_a_missing_header() {
    let actions = vec!["create".to_string()];
    let err = sanitize(vec![("qty".to_string(), JsonValue::from_int(3))], &actions).unwrap_err();
    assert_eq!(err.kind(), ErrorKind::MalformedRequest);
}

#[test]
fn request_exposes_parameters_and_token() {
    let request = Request::new(request_members("create"));
    assert_eq!(request.try_get_token().unwrap(), "tok".to_string());
    assert_eq!(*request.try_get_parameter("qty").unwrap(), JsonValue::from_int(3));
    let err = request.try_get_parameter("missing").unwrap_err();
    assert_eq!(err.kind(), ErrorKind::MalformedRequest);
}

#[test]
fn extract_parameter_reports_a_malformed_request_result() {
    let members = request_members("create");
    let value = extract_parameter_from_request_data(&members, "qty").unwrap();
    assert_eq!(value, JsonValue::from_int(3));
    let err = extract_parameter_from_request_data(&members, "none").unwrap_err();
    match err {
        RequestResult::Failure(e) => {
            assert_eq!(e.kind(), RequestResultErrorKind::MalformedRequest)
        },
        RequestResult::Success(_) => panic!("expected a failure result"),
    }
}

// --- routing ----------------------------------------------------------------

#[test]
fn router_fans_out_in_order() {
    let core = RouterCore::new(vec!["a".to_string(), "b".to_string()]);
    let inputs = vec![
        ("a".to_string(), JsonValue::from_int(1)),
        ("b".to_string(), JsonValue::from_int(2)),
        ("a".to_string(), JsonValue::from_int(3)),
    ];
    let buckets = route_batch(&core, &inputs);
    assert_eq!(buckets.len(), 2);
    assert_eq!(buckets[0], vec![JsonValue::from_int(1), JsonValue::from_int(3)]);
    assert_eq!(buckets[1], vec![JsonValue::from_int(2)]);
}

#[test]
fn router_drops_values_for_unknown_elements() {
    let core = RouterCore::new(vec!["a".to_string()]);
    assert_eq!(core.route("a"), Some(0));
    assert_eq!(core.route("missing"), None);
    let inputs = vec![("missing".to_string(), JsonValue::from_int(9))];
    let buckets = route_batch(&core, &inputs);
    assert_eq!(buckets[0], Vec::<JsonValue>::new());
}

// --- configuration and elements ---------------------------------------------

fn queue_config(name: &str) -> AmqpQueueConfig {
    AmqpQueueConfig {
        name: name.to_string(),
        declare_options: QueueDeclareOptions {
            passive: false,
            durable: true,
            exclusive: false,
            auto_delete: false,
            nowait: false,
        },
        declare_arguments: vec![],
    }
}

fn input_config(name: &str) -> InputElementConfig {
    InputElementConfig {
        name: name.to_string(),
        amqp: AmqpInputElementAddonConfig {
            queue: queue_config(name),
            channel_qos_prefetch_count: 16,
            channel_qos_options: BasicQosOptions { global: false },
            channel_consume_options: BasicConsumeOptions {
                no_local: false,
                no_ack: false,
                exclusive: false,
                nowait: false,
            },
            channel_consume_arguments: vec![],
            channel_acknowledge_options: BasicAckOptions { multiple: false },
            channel_reject_options: BasicRejectOptions { requeue: false },
        },
        max_concurrent_requests: 4,
    }
}

fn output_config(name: &str) -> OutputElementConfig {
    OutputElementConfig {
        name: name.to_string(),
        amqp: AmqpOutputElementAddonConfig {
            queue: queue_config(name),
            channel_publish_exchange: "".to_string(),
            channel_publish_options: BasicPublishOptions { mandatory: false, immediate: false },
            channel_publish_properties: PublishProperties {
                content_type: Some("application/json".to_string()),
                correlation_id: None,
                reply_to: None,
            },
        },
    }
}

#[test]
fn config_lookups_find_elements_by_name() {
    let config = Config {
        input: vec![input_config("orders")],
        output: vec![output_config("events")],
    };
    assert_eq!(config.try_get_input_element_config("orders").unwrap().name(), "orders");
    assert_eq!(config.try_get_output_element_config("events").unwrap().name(), "events");
    let missing = config.try_get_input_element_config("other").unwrap_err();
    assert_eq!(missing.kind(), ErrorKind::InternalFailure);
    let missing = config.try_get_output_element_config("other").unwrap_err();
    assert_eq!(missing.kind(), ErrorKind::InternalFailure);
}

#[test]
fn extract_input_builds_the_registered_element() {
    let config = Config { input: vec![input_config("orders")], output: vec![] };
    let element = extract_input(&config, "orders", vec!["create".to_string()]).unwrap();
    assert_eq!(element.name(), "orders");
    assert_eq!(element.actions(), &vec!["create".to_string()]);
    assert_eq!(element.config().max_concurrent_requests(), 4);
    let err = extract_input(&config, "other", vec![]).unwrap_err();
    assert_eq!(err.kind(), ErrorKind::AutoConfigFailure);
}

#[test]
fn input_element_exposes_its_parts() {
    let element = InputElement::new(
        "orders".to_string(),
        vec!["create".to_string()],
        input_config("orders"),
    );
    assert_eq!(element.name(), "orders");
    assert_eq!(element.config().amqp().channel_qos_prefetch_count(), 16);
    assert_eq!(element.config().amqp().queue().name(), "orders");
}

#[test]
fn output_element_plans_its_publication() {
    let element = AmqpOutputElement::new("events".to_string(), output_config("events").amqp);
    assert_eq!(element.name(), "events");
    let plan = element.publish_plan(&JsonValue::Obj(vec![(
        "id".to_string(),
        JsonValue::Str("o1".to_string()),
    )]));
    assert_eq!(plan.exchange, "".to_string());
    assert_eq!(plan.routing_key, "events".to_string());
    assert_eq!(String::from_utf8(plan.payload).unwrap(), "{\"id\":\"o1\"}");
}

#[test]
fn connection_config_holds_its_uri() {
    let config = AmqpConnectionManagerConfig::new("amqp://localhost:5672".to_string());
    assert_eq!(config.connection_uri(), "amqp://localhost:5672".to_string());
}

#[test]
fn results_convert_from_framework_outcomes() {
    let ok: RequestResult = Result::<(), Error>::Ok(()).into();
    assert_eq!(String::from_utf8(ok.to_bytes()).unwrap(), "{\"Ok\":null}");
    let err: RequestResult =
        Result::<JsonValue, Error>::Err(Error::new(ErrorKind::MalformedRequest, "m".to_string()))
            .into();
    assert_eq!(
        String::from_utf8(err.to_bytes()).unwrap(),
        "{\"Err\":{\"kind\":\"MalformedRequest\",\"message\":\"m\"}}"
    );
}
