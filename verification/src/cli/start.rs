//! The `start` group of commands: what they are made of, how long they wait,
//! which host they pick, and what they report.

use vstd::prelude::*;
use vstd::string::*;
use crate::cli::output::{
    CliConnectionOpts,
    CommandOutput,
    OutputValue,
    Value,
    DEFAULT_NATS_TIMEOUT_MS,
    DEFAULT_START_COMPONENT_TIMEOUT_MS,
    DEFAULT_START_PROVIDER_TIMEOUT_MS,
};
use crate::ctl::CtlResponse;
use crate::text::{join, join3};
use crate::text_map::TextMap;

verus! {

/// Launch a component in a host.
#[derive(Debug, Clone)]
pub struct StartComponentCommand {
    pub opts: CliConnectionOpts,
    /// ID of the host, or a text to match a host's friendly name with. Without
    /// one the component is auctioned in the lattice.
    pub host_id: Option<String>,
    /// Component reference: an absolute file path or a registry URL.
    pub component_ref: String,
    /// Unique ID to use for the component.
    pub component_id: String,
    /// Maximum number of instances that this component can run concurrently.
    pub max_instances: u32,
    /// Constraints for the auction, each as `label=value`; ignored where a
    /// host is given.
    pub constraints: Option<Vec<String>>,
    /// Timeout to await an auction response, in milliseconds.
    pub auction_timeout_ms: u64,
    /// Whether to return once the host has acknowledged, without waiting for
    /// the component to start.
    pub skip_wait: bool,
    /// Named configuration to apply to the component.
    pub config: Vec<String>,
}

/// Launch a provider in a host.
#[derive(Debug, Clone)]
pub struct StartProviderCommand {
    pub opts: CliConnectionOpts,
    /// ID of the host, or a text to match a host's friendly name with. Without
    /// one the provider is auctioned in the lattice.
    pub host_id: Option<String>,
    /// Provider reference, such as the registry URL of the provider.
    pub provider_ref: String,
    /// Unique provider ID to use for the provider.
    pub provider_id: String,
    /// Link name of the provider.
    pub link_name: String,
    /// Constraints for the auction, each as `label=value`; ignored where a
    /// host is given.
    pub constraints: Option<Vec<String>>,
    /// Timeout to await an auction response, in milliseconds.
    pub auction_timeout_ms: u64,
    /// Named configuration to apply to the provider.
    pub config: Vec<String>,
    /// Whether to return once the host has acknowledged, without waiting for
    /// the provider to start.
    pub skip_wait: bool,
}

/// The commands of the `start` group.
#[derive(Debug, Clone)]
pub enum StartCommand {
    /// Launch a component in a host.
    Component(StartComponentCommand),
    /// Launch a provider in a host.
    Provider(StartProviderCommand),
}

/// What is started.
#[derive(Clone, Copy, Debug, PartialEq, Eq)]
pub enum Workload {
    Component,
    Provider,
}

/// How long a start command waits, in milliseconds: the timeout that was asked
/// for, and in place of the default one a longer one that allows for a
/// download.
pub fn start_timeout_ms(workload: Workload, requested: u64) -> (timeout: u64)
    ensures
        timeout == if requested != DEFAULT_NATS_TIMEOUT_MS {
            requested
        } else {
            match workload {
                Workload::Component => DEFAULT_START_COMPONENT_TIMEOUT_MS,
                Workload::Provider => DEFAULT_START_PROVIDER_TIMEOUT_MS,
            }
        },
{
    if requested == DEFAULT_NATS_TIMEOUT_MS {
        match workload {
            Workload::Component => DEFAULT_START_COMPONENT_TIMEOUT_MS,
            Workload::Provider => DEFAULT_START_PROVIDER_TIMEOUT_MS,
        }
    } else {
        requested
    }
}

/// The word for a workload.
pub open spec fn workload_word(workload: Workload) -> Seq<char> {
    match workload {
        Workload::Component => "component"@,
        Workload::Provider => "provider"@,
    }
}

/// The position of the first answer that carries data, if one does.
pub open spec fn first_with_data<T>(answers: Seq<CtlResponse<T>>) -> Option<int>
    decreases answers.len(),
{
    if answers.len() == 0 {
        None
    } else {
        match first_with_data(answers.drop_last()) {
            Some(i) => Some(i),
            None => if answers.last().response is Some {
                Some(answers.len() - 1)
            } else {
                None
            },
        }
    }
}

/// The first answer that carries data is one, with none before it that does.
pub proof fn lemma_first_with_data<T>(answers: Seq<CtlResponse<T>>)
    ensures
        match first_with_data(answers) {
            Some(i) => 0 <= i < answers.len() && answers[i].response is Some && forall|j: int|
                0 <= j < i ==> (#[trigger] answers[j]).response is None,
            None => forall|j: int|
                0 <= j < answers.len() ==> (#[trigger] answers[j]).response is None,
        },
    decreases answers.len(),
{
    if answers.len() > 0 {
        let front = answers.drop_last();
        lemma_first_with_data(front);
        match first_with_data(front) {
            Some(i) => {
                assert(front[i] == answers[i]);
                assert forall|j: int| 0 <= j < i implies (#[trigger] answers[j]).response is None by {
                    assert(front[j] == answers[j]);
                }
            },
            None => {
                assert forall|j: int| 0 <= j < answers.len() - 1 implies (
                #[trigger] answers[j]).response is None by {
                    assert(front[j] == answers[j]);
                }
            },
        }
    }
}

/// What is reported when an auction found no host at all.
pub open spec fn no_hosts_text(workload: Workload, reference: Seq<char>) -> Seq<char> {
    "No suitable hosts found for "@ + workload_word(workload) + " "@ + reference
}

/// The host that an auction gives: the host of the first answer that names
/// one. An auction without answers, or without an answer that names a host, is
/// an error.
pub fn auction_host<'a>(
    workload: Workload,
    reference: &str,
    answers: &'a Vec<CtlResponse<String>>,
) -> (host: Result<&'a String, String>)
    ensures
        match host {
            Ok(id) => first_with_data(answers@) matches Some(i) && answers@[i].response == Some(
                *id,
            ),
            Err(error) => first_with_data(answers@) is None && error@ == if answers@.len() == 0 {
                no_hosts_text(workload, reference@)
            } else {
                "No suitable hosts found"@
            },
        },
{
    if answers.len() == 0 {
        let word = match workload {
            Workload::Component => "component",
            Workload::Provider => "provider",
        };
        let head = join3("No suitable hosts found for ", word, " ");
        return Err(join(head.as_str(), reference));
    }
    let mut i: usize = 0;
    while i < answers.len()
        invariant
            i <= answers.len(),
            first_with_data(answers@.subrange(0, i as int)) is None,
        decreases answers.len() - i,
    {
        let ghost seen = answers@.subrange(0, i as int);
        let ghost next = answers@.subrange(0, i + 1);
        proof {
            assert(next.drop_last() =~= seen);
            assert(next.last() == answers@[i as int]);
        }
        match &answers[i].response {
            Some(id) => {
                proof {
                    lemma_first_with_data(answers@);
                    lemma_first_with_data(next);
                    match first_with_data(answers@) {
                        Some(k) => {
                            if k < i {
                                assert(next[k] == answers@[k]);
                            }
                        },
                        None => {},
                    }
                }
                return Ok(id);
            },
            None => {},
        }
        i = i + 1;
    }
    proof {
        assert(answers@.subrange(0, answers@.len() as int) =~= answers@);
    }
    Err("No suitable hosts found".to_owned())
}

/// What is reported when a host id does not read as one.
pub fn bad_host_id(host_id: &str) -> (text: String)
    ensures
        text@ == "Failed to parse host id: "@ + host_id@,
{
    join("Failed to parse host id: ", host_id)
}

/// What is reported when an auction failed.
pub fn auction_failure(workload: Workload, reference: &str, link_name: &str) -> (text: String)
    ensures
        text@ == match workload {
            Workload::Component => "Failed to auction component "@ + reference@
                + " to hosts in lattice"@,
            Workload::Provider => "Failed to auction provider "@ + reference@
                + " with link name "@ + link_name@ + " to hosts in lattice"@,
        },
{
    match workload {
        Workload::Component => join3("Failed to auction component ", reference, " to hosts in lattice"),
        Workload::Provider => {
            let head = join3("Failed to auction provider ", reference, " with link name ");
            join3(head.as_str(), link_name, " to hosts in lattice")
        },
    }
}

/// The error for a host that did not accept the request to start a provider,
/// if it did not.
pub fn start_ack_refusal(ack: &CtlResponse<()>) -> (refusal: Option<String>)
    ensures
        match refusal {
            Some(text) => !ack.success && text@ == "Start provider ack not accepted: "@
                + ack.message@,
            None => ack.success,
        },
{
    if !ack.succeeded() {
        Some(join("Start provider ack not accepted: ", ack.message.as_str()))
    } else {
        None
    }
}

/// What is reported when no start event came in time.
pub fn start_wait_timed_out(provider_ref: &str, host: &str) -> (text: String)
    ensures
        text@ == "Timed out waiting for start event for provider "@ + provider_ref@ + " on host "@
            + host@,
{
    let head = join3("Timed out waiting for start event for provider ", provider_ref, " on host ");
    join(head.as_str(), host)
}

/// What is reported when the provider failed to start.
pub fn start_failed(provider_ref: &str, host: &str) -> (text: String)
    ensures
        text@ == "Failed starting provider "@ + provider_ref@ + " on host "@ + host@,
{
    let head = join3("Failed starting provider ", provider_ref, " on host ");
    join(head.as_str(), host)
}

/// The output of a request to start a provider that was not waited for.
pub fn provider_start_requested(provider_ref: &str, link_name: &str, host_id: &str) -> (output:
    CommandOutput)
    ensures
        output@.text == "Start provider request received: "@ + provider_ref@,
        output@.map == Map::<Seq<char>, Value>::empty().insert(
            "result"@,
            Value::Text(output@.text),
        ).insert("provider_ref"@, Value::Text(provider_ref@)).insert(
            "link_name"@,
            Value::Text(link_name@),
        ).insert("host_id"@, Value::Text(host_id@)),
{
    let text = join("Start provider request received: ", provider_ref);
    let mut map: TextMap<OutputValue> = TextMap::new();
    map.insert("result".to_owned(), OutputValue::Text(text.clone()));
    map.insert("provider_ref".to_owned(), OutputValue::Text(provider_ref.to_owned()));
    map.insert("link_name".to_owned(), OutputValue::Text(link_name.to_owned()));
    map.insert("host_id".to_owned(), OutputValue::Text(host_id.to_owned()));
    let output = CommandOutput::new(text, map);
    assert(output@.map =~= Map::<Seq<char>, Value>::empty().insert(
        "result"@,
        Value::Text(output@.text),
    ).insert("provider_ref"@, Value::Text(provider_ref@)).insert(
        "link_name"@,
        Value::Text(link_name@),
    ).insert("host_id"@, Value::Text(host_id@)));
    output
}

/// The output for a provider that started.
pub fn provider_started(provider_id: &str, provider_ref: &str, host_id: &str) -> (output:
    CommandOutput)
    ensures
        output@.text == "Provider ["@ + provider_id@ + "] (ref: ["@ + provider_ref@
            + "]) started on host ["@ + host_id@ + "]"@,
        output@.map == Map::<Seq<char>, Value>::empty().insert(
            "result"@,
            Value::Text(output@.text),
        ).insert("provider_ref"@, Value::Text(provider_ref@)).insert(
            "provider_id"@,
            Value::Text(provider_id@),
        ).insert("host_id"@, Value::Text(host_id@)),
{
    let mut text = join3("Provider [", provider_id, "] (ref: [");
    text.append(provider_ref);
    text.append("]) started on host [");
    text.append(host_id);
    text.append("]");
    let mut map: TextMap<OutputValue> = TextMap::new();
    map.insert("result".to_owned(), OutputValue::Text(text.clone()));
    map.insert("provider_ref".to_owned(), OutputValue::Text(provider_ref.to_owned()));
    map.insert("provider_id".to_owned(), OutputValue::Text(provider_id.to_owned()));
    map.insert("host_id".to_owned(), OutputValue::Text(host_id.to_owned()));
    let output = CommandOutput::new(text, map);
    assert(output@.map =~= Map::<Seq<char>, Value>::empty().insert(
        "result"@,
        Value::Text(output@.text),
    ).insert("provider_ref"@, Value::Text(provider_ref@)).insert(
        "provider_id"@,
        Value::Text(provider_id@),
    ).insert("host_id"@, Value::Text(host_id@)));
    output
}

/// What starting a component reports, in words.
pub open spec fn component_start_text(
    skip_wait: bool,
    component_id: Seq<char>,
    component_ref: Seq<char>,
    host_id: Seq<char>,
) -> Seq<char> {
    if skip_wait {
        "Start component ["@ + component_ref + "] request received on host ["@ + host_id + "]"@
    } else {
        "Component ["@ + component_id + "] (ref: ["@ + component_ref + "]) started on host ["@
            + host_id + "]"@
    }
}

/// The output of starting a component: that the request was received where
/// the start was not waited for, that the component started otherwise.
pub fn component_start_output(
    skip_wait: bool,
    component_id: &str,
    component_ref: &str,
    host_id: &str,
) -> (output: CommandOutput)
    ensures
        output@.text == component_start_text(skip_wait, component_id@, component_ref@, host_id@),
        output@.map == Map::<Seq<char>, Value>::empty().insert(
            "result"@,
            Value::Text(output@.text),
        ).insert("component_ref"@, Value::Text(component_ref@)).insert(
            "component_id"@,
            Value::Text(component_id@),
        ).insert("host_id"@, Value::Text(host_id@)),
{
    let text = if skip_wait {
        let head = join3("Start component [", component_ref, "] request received on host [");
        join3(head.as_str(), host_id, "]")
    } else {
        let mut text = join3("Component [", component_id, "] (ref: [");
        text.append(component_ref);
        text.append("]) started on host [");
        text.append(host_id);
        text.append("]");
        text
    };
    let mut map: TextMap<OutputValue> = TextMap::new();
    map.insert("result".to_owned(), OutputValue::Text(text.clone()));
    map.insert("component_ref".to_owned(), OutputValue::Text(component_ref.to_owned()));
    map.insert("component_id".to_owned(), OutputValue::Text(component_id.to_owned()));
    map.insert("host_id".to_owned(), OutputValue::Text(host_id.to_owned()));
    let output = CommandOutput::new(text, map);
    assert(output@.map =~= Map::<Seq<char>, Value>::empty().insert(
        "result"@,
        Value::Text(output@.text),
    ).insert("component_ref"@, Value::Text(component_ref@)).insert(
        "component_id"@,
        Value::Text(component_id@),
    ).insert("host_id"@, Value::Text(host_id@)));
    output
}

} // verus!
