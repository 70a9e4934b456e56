//! Values exchanged with the control interface of a lattice: the response
//! envelope, and the commands sent to hosts.

use std::collections::HashMap;
use vstd::prelude::*;
use vstd::string::*;

verus! {

/// The unique identifier of a component or provider.
pub type ComponentId = String;

/// A control interface response: a success flag, a message with more context
/// where there is any, and the response's payload.
#[derive(Debug, Clone)]
pub struct CtlResponse<T> {
    /// Whether the request succeeded.
    pub success: bool,
    /// A message with additional context about the response.
    pub message: String,
    /// The response data, if any.
    pub response: Option<T>,
}

impl<T> CtlResponse<T> {
    /// A successful response that carries `response`, without a message.
    pub fn ok(response: T) -> (reply: Self)
        ensures
            reply.success,
            reply.message@ == Seq::<char>::empty(),
            reply.response == Some(response),
    {
        CtlResponse { success: true, message: String::new(), response: Some(response) }
    }

    /// Whether the request succeeded.
    pub fn succeeded(&self) -> (succeeded: bool)
        ensures
            succeeded == self.success,
    {
        self.success
    }

    /// The response's payload, if it has one.
    pub fn into_data(self) -> (data: Option<T>)
        ensures
            data == self.response,
    {
        self.response
    }
}

impl CtlResponse<()> {
    /// A successful response without a message or a payload.
    #[must_use]
    pub fn success() -> (reply: Self)
        ensures
            reply.success,
            reply.message@ == Seq::<char>::empty(),
            reply.response is None,
    {
        CtlResponse { success: true, message: String::new(), response: None }
    }

    /// An unsuccessful response with a message and no payload.
    #[must_use]
    pub fn error(message: &str) -> (reply: Self)
        ensures
            !reply.success,
            reply.message@ == message@,
            reply.response is None,
    {
        CtlResponse { success: false, message: message.to_owned(), response: None }
    }
}

/// A command sent to a host to scale a component.
#[derive(Clone, Debug, Eq, PartialEq)]
pub struct ScaleComponentCommand {
    /// Image reference for the component.
    pub component_ref: String,
    /// Unique identifier of the component to scale.
    pub component_id: ComponentId,
    /// Annotations that describe the nature of this scale command.
    pub annotations: Option<HashMap<String, String>>,
    /// The maximum number of concurrently executing instances of this
    /// component; `0` stops the component.
    pub max_instances: u32,
    /// Host ID on which to scale this component.
    pub host_id: String,
    /// Named configs to use for this component; a later one wins over an
    /// earlier one.
    pub config: Vec<String>,
    /// Whether to perform an update if the details of the component change as
    /// part of the scale request.
    pub allow_update: bool,
}

impl Default for ScaleComponentCommand {
    fn default() -> (command: Self)
        ensures
            command.component_ref@.len() == 0,
            command.component_id@.len() == 0,
            command.annotations is None,
            command.max_instances == 0,
            command.host_id@.len() == 0,
            command.config@.len() == 0,
            !command.allow_update,
    {
        ScaleComponentCommand {
            component_ref: String::new(),
            component_id: String::new(),
            annotations: None,
            max_instances: 0,
            host_id: String::new(),
            config: Vec::new(),
            allow_update: false,
        }
    }
}

/// A command sent to a host to start a capability provider.
#[derive(Clone, Debug, Eq, PartialEq)]
pub struct StartProviderCommand {
    /// Annotations that describe the nature of this start command.
    pub annotations: Option<HashMap<String, String>>,
    /// Unique identifier of the provider to start.
    pub provider_id: ComponentId,
    /// Named configs to use for this provider; a later one wins over an
    /// earlier one.
    pub config: Vec<String>,
    /// The host ID on which to start the provider.
    pub host_id: String,
    /// The image reference of the provider to be started.
    pub provider_ref: String,
}

impl Default for StartProviderCommand {
    fn default() -> (command: Self)
        ensures
            command.annotations is None,
            command.provider_id@.len() == 0,
            command.config@.len() == 0,
            command.host_id@.len() == 0,
            command.provider_ref@.len() == 0,
    {
        StartProviderCommand {
            annotations: None,
            provider_id: String::new(),
            config: Vec::new(),
            host_id: String::new(),
            provider_ref: String::new(),
        }
    }
}

/// A command sent to request that the given host purge and stop.
#[derive(Clone, Debug, Eq, PartialEq)]
pub struct StopHostCommand {
    /// The ID of the target host.
    pub host_id: String,
    /// An optional timeout, in seconds.
    pub timeout: Option<u64>,
}

impl Default for StopHostCommand {
    fn default() -> (command: Self)
        ensures
            command.host_id@.len() == 0,
            command.timeout is None,
    {
        StopHostCommand { host_id: String::new(), timeout: None }
    }
}

/// A request to stop the given provider on the indicated host.
#[derive(Clone, Debug, Eq, PartialEq)]
pub struct StopProviderCommand {
    /// Host ID on which to stop the provider.
    pub host_id: String,
    /// Unique identifier for the provider to stop.
    pub provider_id: ComponentId,
}

impl Default for StopProviderCommand {
    fn default() -> (command: Self)
        ensures
            command.host_id@.len() == 0,
            command.provider_id@.len() == 0,
    {
        StopProviderCommand { host_id: String::new(), provider_id: String::new() }
    }
}

/// A command instructing a host to perform a live update on the indicated
/// component by supplying a new image reference.
#[derive(Clone, Debug, Eq, PartialEq)]
pub struct UpdateComponentCommand {
    /// The component's unique ID.
    pub component_id: ComponentId,
    /// Annotations that describe the nature of this update request. Only
    /// component instances with matching annotations are upgraded.
    pub annotations: Option<HashMap<String, String>>,
    /// The host ID of the host to perform the live update.
    pub host_id: String,
    /// The new image reference of the upgraded version of this component.
    pub new_component_ref: String,
}

impl Default for UpdateComponentCommand {
    fn default() -> (command: Self)
        ensures
            command.component_id@.len() == 0,
            command.annotations is None,
            command.host_id@.len() == 0,
            command.new_component_ref@.len() == 0,
    {
        UpdateComponentCommand {
            component_id: String::new(),
            annotations: None,
            host_id: String::new(),
            new_component_ref: String::new(),
        }
    }
}

} // verus!
