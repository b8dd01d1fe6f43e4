//! Configuration of elements and the broker connection, modeled as plain
//! values: broker option sets are records of flags, queue arguments are
//! JSON-like tables, and publish properties carry the fields the
//! framework itself reads.

use crate::error::{Error, ErrorKind};
use crate::json::{jv_of_members, JsonValue};
use crate::text::str_eq;
use vstd::prelude::*;
use vstd::string::StringExecFns;

verus! {

#[derive(Clone, Copy, Debug, PartialEq, Eq, Structural)]
pub struct QueueDeclareOptions {
    pub passive: bool,
    pub durable: bool,
    pub exclusive: bool,
    pub auto_delete: bool,
    pub nowait: bool,
}

#[derive(Clone, Copy, Debug, PartialEq, Eq, Structural)]
pub struct BasicQosOptions {
    pub global: bool,
}

#[derive(Clone, Copy, Debug, PartialEq, Eq, Structural)]
pub struct BasicConsumeOptions {
    pub no_local: bool,
    pub no_ack: bool,
    pub exclusive: bool,
    pub nowait: bool,
}

#[derive(Clone, Copy, Debug, PartialEq, Eq, Structural)]
pub struct BasicAckOptions {
    pub multiple: bool,
}

#[derive(Clone, Copy, Debug, PartialEq, Eq, Structural)]
pub struct BasicRejectOptions {
    pub requeue: bool,
}

#[derive(Clone, Copy, Debug, PartialEq, Eq, Structural)]
pub struct BasicPublishOptions {
    pub mandatory: bool,
    pub immediate: bool,
}

/// The publish properties the framework reads or sets.
#[derive(Debug)]
pub struct PublishProperties {
    pub content_type: Option<String>,
    pub correlation_id: Option<String>,
    pub reply_to: Option<String>,
}

/// Copies a member table, preserving its value.
pub fn duplicate_members(v: &Vec<(String, JsonValue)>) -> (r: Vec<(String, JsonValue)>)
    ensures
        jv_of_members(r@) == jv_of_members(v@),
{
    let mut out: Vec<(String, JsonValue)> = Vec::new();
    let mut i: usize = 0;
    while i < v.len()
        invariant
            i <= v.len(),
            jv_of_members(out@) == jv_of_members(v@.subrange(0, i as int)),
        decreases v.len() - i,
    {
        let k = v[i].0.clone();
        let d = v[i].1.duplicate();
        proof {
            let pre = v@.subrange(0, i as int);
            assert(v@.subrange(0, i + 1 as int) =~= pre.push(v@[i as int]));
            crate::json::lemma_jv_of_members_push(pre, v@[i as int].0, v@[i as int].1);
            crate::json::lemma_jv_of_members_push(out@, k, d);
            assert(jv_of_members(out@.push((k, d))) =~= jv_of_members(
                v@.subrange(0, i + 1 as int),
            ));
        }
        out.push((k, d));
        i = i + 1;
    }
    proof {
        assert(v@.subrange(0, v@.len() as int) =~= v@);
    }
    out
}

fn duplicate_opt_string(o: &Option<String>) -> (r: Option<String>)
    ensures
        crate::replier::opt_str_view(r) == crate::replier::opt_str_view(*o),
{
    match o {
        Some(s) => Some(s.clone()),
        None => None,
    }
}

/// One queue: its name and how it is declared.
#[derive(Debug)]
pub struct AmqpQueueConfig {
    pub name: String,
    pub declare_options: QueueDeclareOptions,
    pub declare_arguments: Vec<(String, JsonValue)>,
}

impl AmqpQueueConfig {
    pub fn name(&self) -> (r: &str)
        ensures
            r@ == self.name@,
    {
        self.name.as_str()
    }

    pub fn declare_options(&self) -> (r: &QueueDeclareOptions)
        ensures
            r == self.declare_options,
    {
        &self.declare_options
    }

    pub fn declare_arguments(&self) -> (r: &Vec<(String, JsonValue)>)
        ensures
            r@ == self.declare_arguments@,
    {
        &self.declare_arguments
    }

    /// A copy of this queue configuration with the same meaning.
    pub fn duplicate(&self) -> (r: AmqpQueueConfig)
        ensures
            r.name@ == self.name@,
            r.declare_options == self.declare_options,
            jv_of_members(r.declare_arguments@) == jv_of_members(self.declare_arguments@),
    {
        AmqpQueueConfig {
            name: self.name.clone(),
            declare_options: self.declare_options,
            declare_arguments: duplicate_members(&self.declare_arguments),
        }
    }
}

/// Broker settings of one input element's consumer.
#[derive(Debug)]
pub struct AmqpInputElementAddonConfig {
    pub queue: AmqpQueueConfig,
    pub channel_qos_prefetch_count: u16,
    pub channel_qos_options: BasicQosOptions,
    pub channel_consume_options: BasicConsumeOptions,
    pub channel_consume_arguments: Vec<(String, JsonValue)>,
    pub channel_acknowledge_options: BasicAckOptions,
    pub channel_reject_options: BasicRejectOptions,
}

impl AmqpInputElementAddonConfig {
    pub fn queue(&self) -> (r: &AmqpQueueConfig)
        ensures
            r == self.queue,
    {
        &self.queue
    }

    pub fn channel_qos_prefetch_count(&self) -> (r: u16)
        ensures
            r == self.channel_qos_prefetch_count,
    {
        self.channel_qos_prefetch_count
    }

    pub fn channel_qos_options(&self) -> (r: &BasicQosOptions)
        ensures
            r == self.channel_qos_options,
    {
        &self.channel_qos_options
    }

    pub fn channel_consume_options(&self) -> (r: &BasicConsumeOptions)
        ensures
            r == self.channel_consume_options,
    {
        &self.channel_consume_options
    }

    pub fn channel_consume_arguments(&self) -> (r: &Vec<(String, JsonValue)>)
        ensures
            r@ == self.channel_consume_arguments@,
    {
        &self.channel_consume_arguments
    }

    pub fn channel_acknowledge_options(&self) -> (r: &BasicAckOptions)
        ensures
            r == self.channel_acknowledge_options,
    {
        &self.channel_acknowledge_options
    }

    pub fn channel_reject_options(&self) -> (r: &BasicRejectOptions)
        ensures
            r == self.channel_reject_options,
    {
        &self.channel_reject_options
    }

    /// A copy of this consumer configuration with the same meaning.
    pub fn duplicate(&self) -> (r: AmqpInputElementAddonConfig)
        ensures
            r.queue.name@ == self.queue.name@,
            r.queue.declare_options == self.queue.declare_options,
            jv_of_members(r.queue.declare_arguments@) == jv_of_members(
                self.queue.declare_arguments@,
            ),
            r.channel_qos_prefetch_count == self.channel_qos_prefetch_count,
            r.channel_qos_options == self.channel_qos_options,
            r.channel_consume_options == self.channel_consume_options,
            jv_of_members(r.channel_consume_arguments@) == jv_of_members(
                self.channel_consume_arguments@,
            ),
            r.channel_acknowledge_options == self.channel_acknowledge_options,
            r.channel_reject_options == self.channel_reject_options,
    {
        AmqpInputElementAddonConfig {
            queue: self.queue.duplicate(),
            channel_qos_prefetch_count: self.channel_qos_prefetch_count,
            channel_qos_options: self.channel_qos_options,
            channel_consume_options: self.channel_consume_options,
            channel_consume_arguments: duplicate_members(&self.channel_consume_arguments),
            channel_acknowledge_options: self.channel_acknowledge_options,
            channel_reject_options: self.channel_reject_options,
        }
    }
}

/// Broker settings of one output element's publisher.
#[derive(Debug)]
pub struct AmqpOutputElementAddonConfig {
    pub queue: AmqpQueueConfig,
    pub channel_publish_exchange: String,
    pub channel_publish_options: BasicPublishOptions,
    pub channel_publish_properties: PublishProperties,
}

impl AmqpOutputElementAddonConfig {
    pub fn queue(&self) -> (r: &AmqpQueueConfig)
        ensures
            r == self.queue,
    {
        &self.queue
    }

    pub fn channel_publish_exchange(&self) -> (r: &str)
        ensures
            r@ == self.channel_publish_exchange@,
    {
        self.channel_publish_exchange.as_str()
    }

    pub fn channel_publish_options(&self) -> (r: &BasicPublishOptions)
        ensures
            r == self.channel_publish_options,
    {
        &self.channel_publish_options
    }

    pub fn channel_publish_properties(&self) -> (r: &PublishProperties)
        ensures
            r == self.channel_publish_properties,
    {
        &self.channel_publish_properties
    }

    /// A copy of this publisher configuration with the same meaning.
    pub fn duplicate(&self) -> (r: AmqpOutputElementAddonConfig)
        ensures
            r.queue.name@ == self.queue.name@,
            r.queue.declare_options == self.queue.declare_options,
            jv_of_members(r.queue.declare_arguments@) == jv_of_members(
                self.queue.declare_arguments@,
            ),
            r.channel_publish_exchange@ == self.channel_publish_exchange@,
            r.channel_publish_options == self.channel_publish_options,
            crate::replier::opt_str_view(r.channel_publish_properties.content_type)
                == crate::replier::opt_str_view(self.channel_publish_properties.content_type),
            crate::replier::opt_str_view(r.channel_publish_properties.correlation_id)
                == crate::replier::opt_str_view(self.channel_publish_properties.correlation_id),
            crate::replier::opt_str_view(r.channel_publish_properties.reply_to)
                == crate::replier::opt_str_view(self.channel_publish_properties.reply_to),
    {
        AmqpOutputElementAddonConfig {
            queue: self.queue.duplicate(),
            channel_publish_exchange: self.channel_publish_exchange.clone(),
            channel_publish_options: self.channel_publish_options,
            channel_publish_properties: PublishProperties {
                content_type: duplicate_opt_string(&self.channel_publish_properties.content_type),
                correlation_id: duplicate_opt_string(
                    &self.channel_publish_properties.correlation_id,
                ),
                reply_to: duplicate_opt_string(&self.channel_publish_properties.reply_to),
            },
        }
    }
}

/// One input element's configuration.
#[derive(Debug)]
pub struct InputElementConfig {
    pub name: String,
    pub amqp: AmqpInputElementAddonConfig,
    pub max_concurrent_requests: u16,
}

impl InputElementConfig {
    pub fn name(&self) -> (r: &str)
        ensures
            r@ == self.name@,
    {
        self.name.as_str()
    }

    pub fn amqp(&self) -> (r: &AmqpInputElementAddonConfig)
        ensures
            r == self.amqp,
    {
        &self.amqp
    }

    pub fn max_concurrent_requests(&self) -> (r: u16)
        ensures
            r == self.max_concurrent_requests,
    {
        self.max_concurrent_requests
    }
}

/// One output element's configuration.
#[derive(Debug)]
pub struct OutputElementConfig {
    pub name: String,
    pub amqp: AmqpOutputElementAddonConfig,
}

impl OutputElementConfig {
    pub fn name(&self) -> (r: &str)
        ensures
            r@ == self.name@,
    {
        self.name.as_str()
    }

    pub fn amqp(&self) -> (r: &AmqpOutputElementAddonConfig)
        ensures
            r == self.amqp,
    {
        &self.amqp
    }
}

/// An element's configuration, input or output.
#[derive(Debug)]
pub enum ElementConfig {
    Input(InputElementConfig),
    Output(OutputElementConfig),
}

/// The whole element configuration: the registered input and output
/// elements.
#[derive(Debug)]
pub struct Config {
    pub input: Vec<InputElementConfig>,
    pub output: Vec<OutputElementConfig>,
}

/// The first position among `input` of an element named `name`, if any.
pub open spec fn find_input_config(input: Seq<InputElementConfig>, name: Seq<char>) -> Option<int>
    decreases input.len(),
{
    if input.len() == 0 {
        None
    } else if input.first().name@ == name {
        Some(0)
    } else {
        match find_input_config(input.drop_first(), name) {
            Some(i) => Some(i + 1),
            None => None,
        }
    }
}

/// The first position among `output` of an element named `name`, if any.
pub open spec fn find_output_config(output: Seq<OutputElementConfig>, name: Seq<char>) -> Option<
    int,
>
    decreases output.len(),
{
    if output.len() == 0 {
        None
    } else if output.first().name@ == name {
        Some(0)
    } else {
        match find_output_config(output.drop_first(), name) {
            Some(i) => Some(i + 1),
            None => None,
        }
    }
}

proof fn lemma_find_input_config_first(input: Seq<InputElementConfig>, name: Seq<char>, i: int)
    requires
        0 <= i < input.len(),
        input[i].name@ == name,
        forall|k: int| 0 <= k < i ==> (#[trigger] input[k]).name@ != name,
    ensures
        find_input_config(input, name) == Some(i),
    decreases input.len(),
{
    if i > 0 {
        lemma_find_input_config_first(input.drop_first(), name, i - 1);
    }
}

proof fn lemma_find_input_config_none(input: Seq<InputElementConfig>, name: Seq<char>)
    requires
        forall|k: int| 0 <= k < input.len() ==> (#[trigger] input[k]).name@ != name,
    ensures
        find_input_config(input, name) is None,
    decreases input.len(),
{
    if input.len() > 0 {
        lemma_find_input_config_none(input.drop_first(), name);
    }
}

proof fn lemma_find_output_config_first(output: Seq<OutputElementConfig>, name: Seq<char>, i: int)
    requires
        0 <= i < output.len(),
        output[i].name@ == name,
        forall|k: int| 0 <= k < i ==> (#[trigger] output[k]).name@ != name,
    ensures
        find_output_config(output, name) == Some(i),
    decreases output.len(),
{
    if i > 0 {
        lemma_find_output_config_first(output.drop_first(), name, i - 1);
    }
}

proof fn lemma_find_output_config_none(output: Seq<OutputElementConfig>, name: Seq<char>)
    requires
        forall|k: int| 0 <= k < output.len() ==> (#[trigger] output[k]).name@ != name,
    ensures
        find_output_config(output, name) is None,
    decreases output.len(),
{
    if output.len() > 0 {
        lemma_find_output_config_none(output.drop_first(), name);
    }
}

impl Config {
    pub fn input_element_configs(&self) -> (r: &Vec<InputElementConfig>)
        ensures
            r@ == self.input@,
    {
        &self.input
    }

    pub fn output_element_configs(&self) -> (r: &Vec<OutputElementConfig>)
        ensures
            r@ == self.output@,
    {
        &self.output
    }

    /// The first input element of the given name; fails with
    /// `InternalFailure` exactly when no input element carries it.
    pub fn try_get_input_element_config<'a>(&'a self, name: &str) -> (r: Result<
        &'a InputElementConfig,
        Error,
    >)
        ensures
            r is Ok <==> find_input_config(self.input@, name@) is Some,
            r matches Ok(c) ==> *c == self.input@[find_input_config(self.input@, name@)->Some_0]
                && c.name@ == name@,
            r matches Err(e) ==> e.kind == ErrorKind::InternalFailure,
    {
        let mut i: usize = 0;
        while i < self.input.len()
            invariant
                i <= self.input.len(),
                forall|k: int| 0 <= k < i ==> (#[trigger] self.input@[k]).name@ != name@,
            decreases self.input.len() - i,
        {
            if str_eq(self.input[i].name.as_str(), name) {
                proof {
                    lemma_find_input_config_first(self.input@, name@, i as int);
                }
                return Ok(&self.input[i]);
            }
            i = i + 1;
        }
        proof {
            lemma_find_input_config_none(self.input@, name@);
        }
        let mut message = String::from_str("input element '");
        message.append(name);
        message.append("' could not be found");
        Err(Error::new(ErrorKind::InternalFailure, message))
    }

    /// The first output element of the given name; fails with
    /// `InternalFailure` exactly when no output element carries it.
    pub fn try_get_output_element_config<'a>(&'a self, name: &str) -> (r: Result<
        &'a OutputElementConfig,
        Error,
    >)
        ensures
            r is Ok <==> find_output_config(self.output@, name@) is Some,
            r matches Ok(c) ==> *c == self.output@[find_output_config(self.output@, name@)->Some_0]
                && c.name@ == name@,
            r matches Err(e) ==> e.kind == ErrorKind::InternalFailure,
    {
        let mut i: usize = 0;
        while i < self.output.len()
            invariant
                i <= self.output.len(),
                forall|k: int| 0 <= k < i ==> (#[trigger] self.output@[k]).name@ != name@,
            decreases self.output.len() - i,
        {
            if str_eq(self.output[i].name.as_str(), name) {
                proof {
                    lemma_find_output_config_first(self.output@, name@, i as int);
                }
                return Ok(&self.output[i]);
            }
            i = i + 1;
        }
        proof {
            lemma_find_output_config_none(self.output@, name@);
        }
        let mut message = String::from_str("output element '");
        message.append(name);
        message.append("' could not be found");
        Err(Error::new(ErrorKind::InternalFailure, message))
    }
}

/// The broker connection's configuration.
#[derive(Debug)]
pub struct AmqpConnectionManagerConfig {
    pub connection_uri: String,
}

impl AmqpConnectionManagerConfig {
    pub fn new(connection_uri: String) -> (r: AmqpConnectionManagerConfig)
        ensures
            r.connection_uri@ == connection_uri@,
    {
        AmqpConnectionManagerConfig { connection_uri }
    }

    pub fn connection_uri(&self) -> (r: String)
        ensures
            r@ == self.connection_uri@,
    {
        self.connection_uri.clone()
    }
}

} // verus!
