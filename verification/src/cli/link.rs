//! The `link` group of commands: what they are made of, and what they report.

use vstd::prelude::*;
use vstd::string::*;
use crate::cli::output::{CliConnectionOpts, CommandOutput, OutputValue, Value};
use crate::ctl::CtlResponse;
use crate::text::{join, join3};
use crate::text_map::TextMap;

verus! {

/// Query all links.
#[derive(Debug, Clone)]
pub struct LinkQueryCommand {
    pub opts: CliConnectionOpts,
}

/// Put a link from a source to a target on a given interface.
#[derive(Debug, Clone)]
pub struct LinkPutCommand {
    pub opts: CliConnectionOpts,
    /// The ID of the component to link from.
    pub source_id: String,
    /// The ID of the component to link to.
    pub target: String,
    /// The namespace of the link, such as `wasi` in `wasi:http/incoming-handler`.
    pub wit_namespace: String,
    /// The package of the link, such as `http` in `wasi:http/incoming-handler`.
    pub wit_package: String,
    /// The interfaces of the link, such as `incoming-handler`.
    pub interfaces: Vec<String>,
    /// Named configuration to make available to the source.
    pub source_config: Vec<String>,
    /// Named configuration to make available to the target.
    pub target_config: Vec<String>,
    /// Link name; `default` where none is given.
    pub link_name: Option<String>,
}

/// Delete a link.
#[derive(Debug, Clone)]
pub struct LinkDelCommand {
    pub opts: CliConnectionOpts,
    /// The ID of the component that the link starts at.
    pub source_id: String,
    /// Link name; `default` where none is given.
    pub link_name: Option<String>,
    /// The namespace of the link.
    pub wit_namespace: String,
    /// The package of the link.
    pub wit_package: String,
}

/// The commands of the `link` group.
#[derive(Debug, Clone)]
pub enum LinkCommand {
    /// Query all links.
    Query(LinkQueryCommand),
    /// Put a link from a source to a target on a given interface.
    Put(LinkPutCommand),
    /// Delete a link.
    Del(LinkDelCommand),
}

/// The name that a link gets: the one given, or `default`.
pub fn link_name_or_default(link_name: Option<String>) -> (name: String)
    ensures
        name@ == match link_name {
            Some(given) => given@,
            None => "default"@,
        },
{
    match link_name {
        Some(given) => given,
        None => "default".to_owned(),
    }
}

/// What is shown while a link is being put.
pub fn link_put_progress(source_id: &str, target: &str) -> (text: String)
    ensures
        text@ == "Defining link "@ + source_id@ + " -> "@ + target@ + " ... "@,
{
    let head = join3("Defining link ", source_id, " -> ");
    join3(head.as_str(), target, " ... ")
}

/// The links that a query returned: those of the response, or none where it
/// carries none.
pub fn links_or_none<L>(response: CtlResponse<Vec<L>>) -> (links: Vec<L>)
    ensures
        links@ == match response.response {
            Some(found) => found@,
            None => Seq::<L>::empty(),
        },
{
    match response.into_data() {
        Some(found) => found,
        None => Vec::new(),
    }
}

/// Why putting a link failed, if it did: the error of a request that failed,
/// or the message of a response that reports no success.
pub fn link_put_failure(answer: Result<CtlResponse<()>, String>) -> (failure: Option<String>)
    ensures
        match answer {
            Err(error) => failure == Some(error),
            Ok(response) => if response.success {
                failure is None
            } else {
                failure matches Some(message) && message@ == response.message@
            },
        },
{
    match answer {
        Err(error) => Some(error),
        Ok(response) => if !response.succeeded() {
            Some(response.message.clone())
        } else {
            None
        },
    }
}

/// What putting a link reports: text for people on success.
pub open spec fn link_put_text(source_id: Seq<char>, target: Seq<char>) -> Seq<char> {
    "Published link ("@ + source_id + ") -> ("@ + target + ") successfully"@
}

/// The error with which putting a link fails.
pub open spec fn link_put_error_text(failure: Seq<char>) -> Seq<char> {
    "Error putting link: "@ + failure
}

/// The output of putting a link: success with the two components named, or
/// the error for the failure.
pub fn link_put_output(source_id: &str, target: &str, failure: Option<String>) -> (output: Result<
    CommandOutput,
    String,
>)
    ensures
        match output {
            Ok(out) => failure is None && out@.text == link_put_text(source_id@, target@)
                && out@.map == Map::<Seq<char>, Value>::empty().insert(
                "source_id"@,
                Value::Text(source_id@),
            ).insert("target"@, Value::Text(target@)),
            Err(error) => failure matches Some(f) && error@ == link_put_error_text(f@),
        },
{
    match failure {
        None => {
            let mut map: TextMap<OutputValue> = TextMap::new();
            map.insert("source_id".to_owned(), OutputValue::Text(source_id.to_owned()));
            map.insert("target".to_owned(), OutputValue::Text(target.to_owned()));
            let head = join3("Published link (", source_id, ") -> (");
            let text = join3(head.as_str(), target, ") successfully");
            let out = CommandOutput::new(text, map);
            assert(out@.map =~= Map::<Seq<char>, Value>::empty().insert(
                "source_id"@,
                Value::Text(source_id@),
            ).insert("target"@, Value::Text(target@)));
            Ok(out)
        },
        Some(f) => Err(join("Error putting link: ", f.as_str())),
    }
}

/// What is reported when a link could not be removed.
pub fn delete_link_failure(
    source_id: &str,
    link_name: &str,
    wit_namespace: &str,
    wit_package: &str,
) -> (text: String)
    ensures
        text@ == "Failed to remove link from "@ + source_id@ + " on "@ + wit_namespace@ + ":"@
            + wit_package@ + " with link name "@ + link_name@,
{
    let mut text = join3("Failed to remove link from ", source_id, " on ");
    text.append(wit_namespace);
    text.append(":");
    text.append(wit_package);
    text.append(" with link name ");
    text.append(link_name);
    text
}

} // verus!
