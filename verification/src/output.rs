//! One egress element: a named publisher with its queue and publish
//! configuration, and the serialization step of its publisher loop.

use crate::config::AmqpOutputElementAddonConfig;
use crate::json::{ser_value, JsonValue};
use vstd::prelude::*;
use vstd::string::StringExecFns;
use vstd::utf8::encode_utf8;

verus! {

#[derive(Debug)]
pub struct AmqpOutputElement {
    pub name: String,
    pub output_config: AmqpOutputElementAddonConfig,
}

/// One publication, ready for the broker.
#[derive(Debug)]
pub struct PublishPlan {
    pub exchange: String,
    pub routing_key: String,
    pub payload: Vec<u8>,
}

impl AmqpOutputElement {
    pub fn new(name: String, output_config: AmqpOutputElementAddonConfig) -> (r: AmqpOutputElement)
        ensures
            r.name@ == name@,
            r.output_config == output_config,
    {
        AmqpOutputElement { name, output_config }
    }

    pub fn name(&self) -> (r: &str)
        ensures
            r@ == self.name@,
    {
        self.name.as_str()
    }

    pub fn output_config(&self) -> (r: &AmqpOutputElementAddonConfig)
        ensures
            r == self.output_config,
    {
        &self.output_config
    }

    pub fn owned_output_config(self) -> (r: AmqpOutputElementAddonConfig)
        ensures
            r == self.output_config,
    {
        self.output_config
    }

    /// One step of the publisher loop: a received value is serialized as
    /// JSON and addressed to the element's queue on its configured
    /// exchange.
    pub fn publish_plan(&self, data: &JsonValue) -> (r: PublishPlan)
        ensures
            r.exchange@ == self.output_config.channel_publish_exchange@,
            r.routing_key@ == self.output_config.queue.name@,
            r.payload@ == encode_utf8(ser_value(data.jv())),
    {
        PublishPlan {
            exchange: self.output_config.channel_publish_exchange.clone(),
            routing_key: self.output_config.queue.name.clone(),
            payload: crate::json_write::to_bytes(data),
        }
    }
}

} // verus!
