//! The `stop` group of commands: what they are made of, which hosts they
//! pick, and what they report.

use vstd::prelude::*;
use vstd::string::*;
use crate::cli::output::{CliConnectionOpts, CommandOutput, OutputValue, Value};
use crate::ctl::CtlResponse;
use crate::text::{join, join3, same_text};
use crate::text_map::TextMap;

verus! {

/// Stop a component running in a host.
#[derive(Debug, Clone)]
pub struct StopComponentCommand {
    pub opts: CliConnectionOpts,
    /// ID of the host to stop the component on. Without one, a host is picked
    /// that runs the component.
    pub host_id: Option<String>,
    /// Unique component ID.
    pub component_id: String,
    /// Whether to return once the host has acknowledged, without waiting for
    /// the component to stop.
    pub skip_wait: bool,
}

/// Stop a provider running in a host.
#[derive(Debug, Clone)]
pub struct StopProviderCommand {
    pub opts: CliConnectionOpts,
    /// ID of the host to stop the provider on. Without one, the host is picked
    /// that runs the provider.
    pub host_id: Option<String>,
    /// Provider ID.
    pub provider_id: String,
    /// Whether to return once the host has acknowledged, without waiting for
    /// the provider to stop.
    pub skip_wait: bool,
}

/// Purge and stop a running host.
#[derive(Debug, Clone)]
pub struct StopHostCommand {
    pub opts: CliConnectionOpts,
    /// ID of the host to stop.
    pub host_id: String,
    /// How long the host gets to shut down gracefully, in milliseconds.
    pub host_shutdown_timeout: u64,
}

/// The commands of the `stop` group.
#[derive(Debug, Clone)]
pub enum StopCommand {
    /// Stop a component running in a host.
    Component(StopComponentCommand),
    /// Stop a provider running in a host.
    Provider(StopProviderCommand),
    /// Purge and stop a running host.
    Host(StopHostCommand),
}

/// A component as a host's inventory lists it.
#[derive(Debug, Clone, PartialEq, Eq)]
pub struct ComponentDescription {
    pub id: String,
    pub image_ref: String,
}

/// What a host runs, as far as stopping asks.
#[derive(Debug, Clone, PartialEq, Eq)]
pub struct HostInventory {
    pub host_id: String,
    pub friendly_name: String,
    pub components: Vec<ComponentDescription>,
    /// The IDs of the providers that the host runs.
    pub providers: Vec<String>,
}

/// A host that a search matched.
#[derive(Debug, Clone, PartialEq, Eq)]
pub struct Match {
    pub id: String,
    pub friendly_name: Option<String>,
}

/// Why a search gave no single host.
#[derive(Debug, Clone, PartialEq, Eq)]
pub enum FindIdError {
    /// No host matched.
    NoMatches,
    /// More than one host matched; these are the hosts.
    MultipleMatches(Vec<Match>),
}

/// Whether the host runs a provider with the ID `provider_id`.
pub open spec fn runs_provider(inventory: HostInventory, provider_id: Seq<char>) -> bool {
    exists|i: int| 0 <= i < inventory.providers@.len() && (#[trigger] inventory.providers@[i])@
        == provider_id
}

/// The position at which the host lists the component `component_id`, first.
pub open spec fn component_at(inventory: HostInventory, component_id: Seq<char>, at: int) -> bool {
    &&& 0 <= at < inventory.components@.len()
    &&& inventory.components@[at].id@ == component_id
    &&& forall|j: int| 0 <= j < at ==> (#[trigger] inventory.components@[j]).id@ != component_id
}

/// Whether the host runs a component with the ID `component_id`.
pub open spec fn runs_component(inventory: HostInventory, component_id: Seq<char>) -> bool {
    exists|i: int| 0 <= i < inventory.components@.len() && (#[trigger] inventory.components@[i]).id@
        == component_id
}

/// Whether the host runs a provider with the ID `provider_id`.
pub fn host_runs_provider(inventory: &HostInventory, provider_id: &str) -> (runs: bool)
    ensures
        runs == runs_provider(*inventory, provider_id@),
{
    let mut i: usize = 0;
    while i < inventory.providers.len()
        invariant
            i <= inventory.providers@.len(),
            forall|j: int| 0 <= j < i ==> (#[trigger] inventory.providers@[j])@ != provider_id@,
        decreases inventory.providers@.len() - i,
    {
        if same_text(inventory.providers[i].as_str(), provider_id) {
            return true;
        }
        i = i + 1;
    }
    false
}

/// Where the host lists the component `component_id`, if it does.
pub fn find_component(inventory: &HostInventory, component_id: &str) -> (found: Option<usize>)
    ensures
        match found {
            Some(at) => component_at(*inventory, component_id@, at as int),
            None => !runs_component(*inventory, component_id@),
        },
{
    let mut i: usize = 0;
    while i < inventory.components.len()
        invariant
            i <= inventory.components@.len(),
            forall|j: int| 0 <= j < i ==> (#[trigger] inventory.components@[j]).id@ != component_id@,
        decreases inventory.components@.len() - i,
    {
        if same_text(inventory.components[i].id.as_str(), component_id) {
            return Some(i);
        }
        i = i + 1;
    }
    None
}

/// The hosts among `inventories` that run the provider `provider_id`, each
/// with its friendly name, in the order of the inventories.
pub open spec fn provider_hosts(inventories: Seq<HostInventory>, provider_id: Seq<char>) -> Seq<
    (String, String),
>
    decreases inventories.len(),
{
    if inventories.len() == 0 {
        Seq::empty()
    } else {
        let before = provider_hosts(inventories.drop_last(), provider_id);
        if runs_provider(inventories.last(), provider_id) {
            before.push((inventories.last().host_id, inventories.last().friendly_name))
        } else {
            before
        }
    }
}

/// The hosts that run the provider `provider_id`, each with its friendly
/// name, in the order of the inventories.
pub fn hosts_with_provider(provider_id: &str, inventories: &Vec<HostInventory>) -> (hosts: Vec<
    (String, String),
>)
    ensures
        hosts@ == provider_hosts(inventories@, provider_id@),
{
    let mut hosts: Vec<(String, String)> = Vec::new();
    let mut i: usize = 0;
    while i < inventories.len()
        invariant
            i <= inventories@.len(),
            hosts@ == provider_hosts(inventories@.subrange(0, i as int), provider_id@),
        decreases inventories@.len() - i,
    {
        proof {
            let next = inventories@.subrange(0, i + 1);
            assert(next.drop_last() =~= inventories@.subrange(0, i as int));
            assert(next.last() == inventories@[i as int]);
        }
        if host_runs_provider(&inventories[i], provider_id) {
            hosts.push((inventories[i].host_id.clone(), inventories[i].friendly_name.clone()));
        }
        i = i + 1;
    }
    proof {
        assert(inventories@.subrange(0, inventories@.len() as int) =~= inventories@);
    }
    hosts
}

/// The one host among those that a search matched. No match and more than one
/// match are errors; the latter names the hosts that matched.
pub fn single_match(all_matching: Vec<(String, String)>) -> (host: Result<String, FindIdError>)
    ensures
        match host {
            Ok(id) => all_matching@.len() == 1 && id == all_matching@[0].0,
            Err(FindIdError::NoMatches) => all_matching@.len() == 0,
            Err(FindIdError::MultipleMatches(matches)) => all_matching@.len() > 1 && matches@.len()
                == all_matching@.len() && forall|i: int|
                0 <= i < matches@.len() ==> (#[trigger] matches@[i]).id == all_matching@[i].0
                    && matches@[i].friendly_name == Some(all_matching@[i].1),
        },
{
    let mut all_matching = all_matching;
    let ghost all = all_matching@;
    if all_matching.len() == 0 {
        Err(FindIdError::NoMatches)
    } else if all_matching.len() > 1 {
        let mut backwards: Vec<Match> = Vec::new();
        while all_matching.len() > 0
            invariant
                all_matching@.len() <= all.len(),
                all_matching@ == all.subrange(0, all_matching@.len() as int),
                backwards@.len() == all.len() - all_matching@.len(),
                forall|i: int|
                    0 <= i < backwards@.len() ==> (#[trigger] backwards@[i]).id == all[all.len() - 1
                        - i].0 && backwards@[i].friendly_name == Some(all[all.len() - 1 - i].1),
            decreases all_matching@.len(),
        {
            let ghost held = backwards@;
            let (id, friendly_name) = all_matching.pop().unwrap();
            backwards.push(Match { id, friendly_name: Some(friendly_name) });
            proof {
                assert forall|i: int| 0 <= i < backwards@.len() implies (#[trigger] backwards@[i]).id
                    == all[all.len() - 1 - i].0 && backwards@[i].friendly_name == Some(
                    all[all.len() - 1 - i].1,
                ) by {
                    if i < held.len() {
                        assert(backwards@[i] == held[i]);
                    }
                }
            }
        }
        let mut matches: Vec<Match> = Vec::new();
        let ghost taken = backwards@;
        while backwards.len() > 0
            invariant
                backwards@.len() <= taken.len(),
                backwards@ == taken.subrange(0, backwards@.len() as int),
                matches@.len() == taken.len() - backwards@.len(),
                forall|i: int|
                    0 <= i < matches@.len() ==> #[trigger] matches@[i] == taken[taken.len() - 1 - i],
            decreases backwards@.len(),
        {
            let ghost held = matches@;
            let found = backwards.pop().unwrap();
            matches.push(found);
            proof {
                assert forall|i: int| 0 <= i < matches@.len() implies #[trigger] matches@[i]
                    == taken[taken.len() - 1 - i] by {
                    if i < held.len() {
                        assert(matches@[i] == held[i]);
                    }
                }
            }
        }
        Err(FindIdError::MultipleMatches(matches))
    } else {
        let (id, _) = all_matching.pop().unwrap();
        Ok(id)
    }
}

/// What stopping hosts is to do.
#[derive(Debug, Clone, PartialEq, Eq)]
pub enum StopPlan {
    /// Stop the host that was named; `hosts_remain` says whether others run.
    StopNamed { host_id: String, hosts_remain: bool },
    /// No host runs; nothing is stopped.
    Nothing,
    /// Stop the only host that runs.
    StopOnly { host_id: String },
    /// Stop all of these hosts.
    StopAll { host_ids: Vec<String> },
    /// More than one host runs, and neither a host was named nor all were
    /// asked for; these are the hosts that run.
    Ambiguous { running_hosts: Vec<String> },
}

/// What stopping hosts is to do, for the hosts that run, the host that was
/// named, if any, and the wish to stop all.
///
/// A host that was named is stopped whatever else runs. Without one: no host
/// means nothing to do, one host is stopped, and more than one are all stopped
/// where all were asked for, and are an error otherwise.
pub fn plan_stop_hosts(hosts: Vec<String>, host_id: Option<&String>, all: bool) -> (plan: StopPlan)
    ensures
        plan == match host_id {
            Some(id) => StopPlan::StopNamed { host_id: *id, hosts_remain: hosts@.len() > 1 },
            None => if hosts@.len() == 0 {
                StopPlan::Nothing
            } else if hosts@.len() == 1 {
                StopPlan::StopOnly { host_id: hosts@[0] }
            } else if all {
                StopPlan::StopAll { host_ids: hosts }
            } else {
                StopPlan::Ambiguous { running_hosts: hosts }
            },
        },
{
    let mut hosts = hosts;
    match host_id {
        Some(id) => StopPlan::StopNamed { host_id: id.clone(), hosts_remain: hosts.len() > 1 },
        None => if hosts.len() == 0 {
            StopPlan::Nothing
        } else if hosts.len() == 1 {
            let only = hosts.pop().unwrap();
            StopPlan::StopOnly { host_id: only }
        } else if all {
            StopPlan::StopAll { host_ids: hosts }
        } else {
            StopPlan::Ambiguous { running_hosts: hosts }
        },
    }
}

/// The hosts of the stops that went through, in their order.
pub open spec fn stopped(stops: Seq<Option<String>>) -> Seq<String>
    decreases stops.len(),
{
    if stops.len() == 0 {
        Seq::empty()
    } else {
        match stops.last() {
            Some(id) => stopped(stops.drop_last()).push(id),
            None => stopped(stops.drop_last()),
        }
    }
}

/// No more hosts stopped than were asked to.
pub proof fn lemma_stopped_len(stops: Seq<Option<String>>)
    ensures
        stopped(stops).len() <= stops.len(),
    decreases stops.len(),
{
    if stops.len() > 0 {
        lemma_stopped_len(stops.drop_last());
    }
}

/// What stopping all hosts came to: the hosts that stopped, in their order,
/// and whether a host is left that did not.
pub fn stopped_hosts(stops: &Vec<Option<String>>) -> (result: (Vec<String>, bool))
    ensures
        result.0@ == stopped(stops@),
        result.1 == (stops@.len() > stopped(stops@).len()),
{
    let mut host_ids: Vec<String> = Vec::new();
    let mut i: usize = 0;
    while i < stops.len()
        invariant
            i <= stops@.len(),
            host_ids@ == stopped(stops@.subrange(0, i as int)),
        decreases stops@.len() - i,
    {
        proof {
            let next = stops@.subrange(0, i + 1);
            assert(next.drop_last() =~= stops@.subrange(0, i as int));
            assert(next.last() == stops@[i as int]);
        }
        match &stops[i] {
            Some(id) => {
                host_ids.push(id.clone());
            },
            None => {},
        }
        i = i + 1;
    }
    proof {
        assert(stops@.subrange(0, stops@.len() as int) =~= stops@);
        lemma_stopped_len(stops@);
    }
    let hosts_remaining = stops.len() > host_ids.len();
    (host_ids, hosts_remaining)
}

/// Whether the file that records the host's process is to be removed after a
/// host was stopped: where no host remains and the file is there.
pub fn should_remove_pid_file(hosts_remain: bool, pid_file_exists: bool) -> (remove: bool)
    ensures
        remove == (!hosts_remain && pid_file_exists),
{
    !hosts_remain && pid_file_exists
}

/// The output for a host that acknowledged the request to stop.
pub fn stop_host_output(host_id: &str) -> (output: CommandOutput)
    ensures
        output@.text == "Host "@ + host_id@ + " acknowledged stop request"@,
        output@.map == Map::<Seq<char>, Value>::empty().insert(
            "result"@,
            Value::Text(output@.text),
        ),
{
    CommandOutput::from_key_and_text(
        "result",
        join3("Host ", host_id, " acknowledged stop request"),
    )
}

/// What is reported when no host runs the component.
pub fn no_host_runs_component(component_id: &str) -> (text: String)
    ensures
        text@ == "No host found running component ["@ + component_id@ + "]"@,
{
    join3("No host found running component [", component_id, "]")
}

/// The first host that runs the component `component_id`, if one does.
pub fn host_running_component(inventories: &Vec<HostInventory>, component_id: &str) -> (found:
    Option<usize>)
    ensures
        match found {
            Some(at) => at < inventories@.len() && runs_component(
                inventories@[at as int],
                component_id@,
            ) && forall|j: int|
                0 <= j < at ==> !runs_component(#[trigger] inventories@[j], component_id@),
            None => forall|j: int|
                0 <= j < inventories@.len() ==> !runs_component(
                    #[trigger] inventories@[j],
                    component_id@,
                ),
        },
{
    let mut i: usize = 0;
    while i < inventories.len()
        invariant
            i <= inventories@.len(),
            forall|j: int| 0 <= j < i ==> !runs_component(#[trigger] inventories@[j], component_id@),
        decreases inventories@.len() - i,
    {
        match find_component(&inventories[i], component_id) {
            Some(at) => {
                assert(inventories@[i as int].components@[at as int].id@ == component_id@);
                return Some(i);
            },
            None => {},
        }
        i = i + 1;
    }
    None
}

/// The host and the image reference of the component `component_id` on the
/// host of `inventory`; an error where the host does not run the component.
pub fn component_on_host(inventory: &HostInventory, component_id: &str) -> (found: Result<
    (String, String),
    String,
>)
    ensures
        match found {
            Ok((host_id, component_ref)) => host_id@ == inventory.host_id@ && exists|at: int|
                component_at(*inventory, component_id@, at) && #[trigger] inventory.components@[at].image_ref@
                    == component_ref@,
            Err(error) => !runs_component(*inventory, component_id@) && error@
                == "No component with id ["@ + component_id@ + "] found on host ["@
                + inventory.host_id@ + "]"@,
        },
{
    match find_component(inventory, component_id) {
        Some(at) => {
            let component_ref = inventory.components[at].image_ref.clone();
            assert(component_at(*inventory, component_id@, at as int)
                && inventory.components@[at as int].image_ref@ == component_ref@);
            Ok((inventory.host_id.clone(), component_ref))
        },
        None => {
            let head = join3("No component with id [", component_id, "] found on host [");
            Err(join3(head.as_str(), inventory.host_id.as_str(), "]"))
        },
    }
}

/// The output of stopping a component.
pub fn stop_component_output(skip_wait: bool, component_id: &str, host_id: &str) -> (output:
    CommandOutput)
    ensures
        output@.text == if skip_wait {
            "Request to stop component ["@ + component_id@ + "] received"@
        } else {
            "Component ["@ + component_id@ + "] stopped"@
        },
        output@.map == Map::<Seq<char>, Value>::empty().insert(
            "result"@,
            Value::Text(output@.text),
        ).insert("component_id"@, Value::Text(component_id@)).insert(
            "host_id"@,
            Value::Text(host_id@),
        ),
{
    let text = if skip_wait {
        join3("Request to stop component [", component_id, "] received")
    } else {
        join3("Component [", component_id, "] stopped")
    };
    let mut map: TextMap<OutputValue> = TextMap::new();
    map.insert("result".to_owned(), OutputValue::Text(text.clone()));
    map.insert("component_id".to_owned(), OutputValue::Text(component_id.to_owned()));
    map.insert("host_id".to_owned(), OutputValue::Text(host_id.to_owned()));
    let output = CommandOutput::new(text, map);
    assert(output@.map =~= Map::<Seq<char>, Value>::empty().insert(
        "result"@,
        Value::Text(output@.text),
    ).insert("component_id"@, Value::Text(component_id@)).insert(
        "host_id"@,
        Value::Text(host_id@),
    ));
    output
}

/// The output of stopping a provider. The host is the one that was asked for,
/// which may be none.
pub fn stop_provider_output(skip_wait: bool, provider_id: &str, host_id: Option<String>) -> (output:
    CommandOutput)
    ensures
        output@.text == if skip_wait {
            "Provider "@ + provider_id@ + " stop request received"@
        } else {
            "Provider ["@ + provider_id@ + "] stopped successfully"@
        },
        output@.map == Map::<Seq<char>, Value>::empty().insert(
            "result"@,
            Value::Text(output@.text),
        ).insert("provider_id"@, Value::Text(provider_id@)).insert(
            "host_id"@,
            match host_id {
                Some(id) => Value::Text(id@),
                None => Value::Null,
            },
        ),
{
    let text = if skip_wait {
        join3("Provider ", provider_id, " stop request received")
    } else {
        join3("Provider [", provider_id, "] stopped successfully")
    };
    let host = OutputValue::from_option(host_id);
    let mut map: TextMap<OutputValue> = TextMap::new();
    map.insert("result".to_owned(), OutputValue::Text(text.clone()));
    map.insert("provider_id".to_owned(), OutputValue::Text(provider_id.to_owned()));
    map.insert("host_id".to_owned(), host);
    let output = CommandOutput::new(text, map);
    assert(output@.map =~= Map::<Seq<char>, Value>::empty().insert(
        "result"@,
        Value::Text(output@.text),
    ).insert("provider_id"@, Value::Text(provider_id@)).insert("host_id"@, host@));
    output
}

/// The error for a host that did not accept the request to stop a provider,
/// if it did not.
pub fn stop_ack_refusal(ack: &CtlResponse<()>) -> (refusal: Option<String>)
    ensures
        match refusal {
            Some(text) => !ack.success && text@ == "Operation failed: "@ + ack.message@,
            None => ack.success,
        },
{
    if !ack.succeeded() {
        Some(join("Operation failed: ", ack.message.as_str()))
    } else {
        None
    }
}

/// What is to happen once a host has accepted the request to stop a provider.
#[derive(Clone, Copy, Debug, PartialEq, Eq)]
pub enum AfterStopAck {
    /// The command is done.
    Done,
    /// The command waits for the event that reports the stop.
    AwaitEvent,
}

/// What is to happen once a host has accepted the request to stop a provider:
/// nothing more where the stop is not waited for.
pub fn after_stop_ack(skip_wait: bool) -> (next: AfterStopAck)
    ensures
        next == if skip_wait {
            AfterStopAck::Done
        } else {
            AfterStopAck::AwaitEvent
        },
{
    if skip_wait {
        AfterStopAck::Done
    } else {
        AfterStopAck::AwaitEvent
    }
}

} // verus!
