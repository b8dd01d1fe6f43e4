//! One ingress element: its queue name, its action whitelist and its
//! consumer configuration.
//!
//! The user-supplied handler is an asynchronous callable and lives with
//! the runtime outside the library; the host pairs it with the element
//! when it spawns the dispatcher.

use crate::config::{find_input_config, Config, InputElementConfig};
use crate::error::{Error, ErrorKind};
use crate::json::jv_of_members;
use vstd::prelude::*;
use vstd::string::StringExecFns;

verus! {

#[derive(Debug)]
pub struct InputElement {
    pub name: String,
    pub actions: Vec<String>,
    pub config: InputElementConfig,
}

impl InputElement {
    pub fn new(name: String, actions: Vec<String>, config: InputElementConfig) -> (r: InputElement)
        ensures
            r.name@ == name@,
            r.actions@ == actions@,
            r.config == config,
    {
        InputElement { name, actions, config }
    }

    pub fn name(&self) -> (r: &str)
        ensures
            r@ == self.name@,
    {
        self.name.as_str()
    }

    pub fn actions(&self) -> (r: &Vec<String>)
        ensures
            r@ == self.actions@,
    {
        &self.actions
    }

    pub fn config(&self) -> (r: &InputElementConfig)
        ensures
            r == self.config,
    {
        &self.config
    }
}

/// Builds the input element registered under `id`: its configuration is
/// the first configured input element of that name, carried over whole;
/// fails with `AutoConfigFailure` exactly when no input element of that
/// name is configured.
pub fn extract_input(config: &Config, id: &str, actions: Vec<String>) -> (r: Result<
    InputElement,
    Error,
>)
    ensures
        r is Ok <==> find_input_config(config.input@, id@) is Some,
        r matches Ok(el) ==> ({
            let c = config.input@[find_input_config(config.input@, id@)->Some_0];
            &&& el.name@ == id@
            &&& el.actions@ == actions@
            &&& el.config.name@ == c.name@ && c.name@ == id@
            &&& el.config.max_concurrent_requests == c.max_concurrent_requests
            &&& el.config.amqp.queue.name@ == c.amqp.queue.name@
            &&& el.config.amqp.queue.declare_options == c.amqp.queue.declare_options
            &&& jv_of_members(el.config.amqp.queue.declare_arguments@) == jv_of_members(
                c.amqp.queue.declare_arguments@,
            )
            &&& el.config.amqp.channel_qos_prefetch_count == c.amqp.channel_qos_prefetch_count
            &&& el.config.amqp.channel_qos_options == c.amqp.channel_qos_options
            &&& el.config.amqp.channel_consume_options == c.amqp.channel_consume_options
            &&& jv_of_members(el.config.amqp.channel_consume_arguments@) == jv_of_members(
                c.amqp.channel_consume_arguments@,
            )
            &&& el.config.amqp.channel_acknowledge_options == c.amqp.channel_acknowledge_options
            &&& el.config.amqp.channel_reject_options == c.amqp.channel_reject_options
        }),
        r matches Err(e) ==> e.kind == ErrorKind::AutoConfigFailure,
{
    let found = match config.try_get_input_element_config(id) {
        Ok(found) => found,
        Err(_) => {
            let mut message = String::from_str("failed to find input api with id '");
            message.append(id);
            message.append("'");
            return Err(Error::new(ErrorKind::AutoConfigFailure, message));
        },
    };
    let duplicated = InputElementConfig {
        name: found.name.clone(),
        amqp: found.amqp.duplicate(),
        max_concurrent_requests: found.max_concurrent_requests,
    };
    Ok(InputElement { name: String::from_str(id), actions, config: duplicated })
}

} // verus!
