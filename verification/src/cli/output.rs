//! What a command hands back to the terminal, and how a command reaches the
//! lattice.

use vstd::prelude::*;
use vstd::string::*;
use crate::text_map::TextMap;

verus! {

/// Timeout of a request to the lattice where none is asked for, in milliseconds.
pub const DEFAULT_NATS_TIMEOUT_MS: u64 = 2_000;

/// Timeout that starting a component gets in place of the default one.
pub const DEFAULT_START_COMPONENT_TIMEOUT_MS: u64 = 10_000;

/// Timeout that starting a provider gets in place of the default one.
pub const DEFAULT_START_PROVIDER_TIMEOUT_MS: u64 = 60_000;

/// The timeout of a request to the lattice where none is asked for.
pub fn default_timeout_ms() -> (timeout: u64)
    ensures
        timeout == DEFAULT_NATS_TIMEOUT_MS,
{
    DEFAULT_NATS_TIMEOUT_MS
}

/// How a command reaches the control interface of a lattice.
#[derive(Clone, Debug, PartialEq, Eq)]
pub struct CliConnectionOpts {
    /// The control interface's host.
    pub ctl_host: Option<String>,
    /// The control interface's port.
    pub ctl_port: Option<String>,
    /// JWT to authenticate with.
    pub ctl_jwt: Option<String>,
    /// Seed to authenticate with.
    pub ctl_seed: Option<String>,
    /// Path of a credentials file.
    pub ctl_credsfile: Option<String>,
    /// Path of a certificate authority file.
    pub ctl_tls_ca_file: Option<String>,
    /// Whether to do the TLS handshake first.
    pub ctl_tls_first: Option<bool>,
    /// JetStream domain of the lattice.
    pub js_domain: Option<String>,
    /// Name of the lattice.
    pub lattice: Option<String>,
    /// Timeout of a request, in milliseconds.
    pub timeout_ms: u64,
    /// Name of a stored context to take the settings from.
    pub context: Option<String>,
}

impl Default for CliConnectionOpts {
    fn default() -> (opts: Self)
        ensures
            opts.timeout_ms == DEFAULT_NATS_TIMEOUT_MS,
            opts.ctl_host is None,
            opts.ctl_port is None,
            opts.ctl_jwt is None,
            opts.ctl_seed is None,
            opts.ctl_credsfile is None,
            opts.ctl_tls_ca_file is None,
            opts.ctl_tls_first is None,
            opts.js_domain is None,
            opts.lattice is None,
            opts.context is None,
    {
        CliConnectionOpts {
            ctl_host: None,
            ctl_port: None,
            ctl_jwt: None,
            ctl_seed: None,
            ctl_credsfile: None,
            ctl_tls_ca_file: None,
            ctl_tls_first: None,
            js_domain: None,
            lattice: None,
            timeout_ms: DEFAULT_NATS_TIMEOUT_MS,
            context: None,
        }
    }
}

/// A value of a command's structured output.
#[derive(Clone, Debug, PartialEq, Eq)]
pub enum OutputValue {
    /// No value.
    Null,
    /// A text.
    Text(String),
}

/// An output value, as plain values.
pub enum Value {
    Null,
    Text(Seq<char>),
}

impl View for OutputValue {
    type V = Value;

    open spec fn view(&self) -> Value {
        match self {
            OutputValue::Null => Value::Null,
            OutputValue::Text(text) => Value::Text(text@),
        }
    }
}

impl OutputValue {
    /// The value of a text that may be missing.
    pub fn from_option(text: Option<String>) -> (value: OutputValue)
        ensures
            value@ == match text {
                Some(t) => Value::Text(t@),
                None => Value::Null,
            },
    {
        match text {
            Some(text) => OutputValue::Text(text),
            None => OutputValue::Null,
        }
    }
}

/// What a command hands back: a text for people, and the same as keyed values.
pub struct CommandOutput {
    pub map: TextMap<OutputValue>,
    pub text: String,
}

/// A command's output, as plain values.
pub struct Output {
    pub map: Map<Seq<char>, Value>,
    pub text: Seq<char>,
}

impl View for CommandOutput {
    type V = Output;

    open spec fn view(&self) -> Output {
        Output { map: self.map@.map_values(|value: OutputValue| value@), text: self.text@ }
    }
}

impl CommandOutput {
    /// An output with the given text and values.
    pub fn new(text: String, map: TextMap<OutputValue>) -> (output: Self)
        ensures
            output.text == text,
            output.map == map,
    {
        CommandOutput { map, text }
    }

    /// An output whose one value is its text, under `key`.
    pub fn from_key_and_text(key: &str, text: String) -> (output: Self)
        ensures
            output@.text == text@,
            output@.map == Map::<Seq<char>, Value>::empty().insert(key@, Value::Text(text@)),
    {
        let mut map: TextMap<OutputValue> = TextMap::new();
        map.insert(key.to_owned(), OutputValue::Text(text.clone()));
        let output = CommandOutput { map, text };
        assert(output@.map =~= Map::<Seq<char>, Value>::empty().insert(key@, Value::Text(text@)));
        output
    }
}

} // verus!
