//! The configuration resolver: from a flat map of configuration keys to
//! connection templates, one for the managed tier and one for each named
//! profile.
//!
//! A template is recognised when all six of its keys stand in the map under one
//! prefix. The resolver is pure: it reads the map and nothing else.

use vstd::prelude::*;
use vstd::string::*;
use crate::text::{join, lowercase, parse_port, parsed_port, same_text, to_lowercase};
use crate::text_map::TextMap;

verus! {

/// The database's well-known port, used where a configured port does not parse.
pub const POSTGRES_DEFAULT_PORT: u16 = 5432;

/// How to open a physical connection: a connection template.
#[derive(Debug, PartialEq, Eq)]
pub struct ConnectionCreateOptions {
    pub host: String,
    pub port: u16,
    pub username: String,
    pub password: String,
    pub database: String,
    pub tls_required: bool,
}

/// What a connection template says, as plain values.
pub struct Template {
    pub host: Seq<char>,
    pub port: u16,
    pub username: Seq<char>,
    pub password: Seq<char>,
    pub database: Seq<char>,
    pub tls_required: bool,
}

impl View for ConnectionCreateOptions {
    type V = Template;

    open spec fn view(&self) -> Template {
        Template {
            host: self.host@,
            port: self.port,
            username: self.username@,
            password: self.password@,
            database: self.database@,
            tls_required: self.tls_required,
        }
    }
}

impl Clone for ConnectionCreateOptions {
    fn clone(&self) -> (copy: Self)
        ensures
            copy == *self,
    {
        ConnectionCreateOptions {
            host: self.host.clone(),
            port: self.port,
            username: self.username.clone(),
            password: self.password.clone(),
            database: self.database.clone(),
            tls_required: self.tls_required,
        }
    }
}

/// The port that a configured text stands for: the port it writes, or the
/// default where it writes none.
pub open spec fn port_of(text: Seq<char>) -> u16 {
    match parsed_port(text) {
        Some(port) => port,
        None => POSTGRES_DEFAULT_PORT,
    }
}

/// Whether a configured text asks for TLS: `true` or `yes` in any case.
pub open spec fn tls_flag(text: Seq<char>) -> bool {
    lowercase(text) == "true"@ || lowercase(text) == "yes"@
}

/// Whether all six keys of a template stand in the map under `prefix`.
pub open spec fn has_all_fields(prefix: Seq<char>, config: Map<Seq<char>, String>) -> bool {
    &&& config.contains_key(prefix + "HOST"@)
    &&& config.contains_key(prefix + "PORT"@)
    &&& config.contains_key(prefix + "USERNAME"@)
    &&& config.contains_key(prefix + "PASSWORD"@)
    &&& config.contains_key(prefix + "DATABASE"@)
    &&& config.contains_key(prefix + "TLS_REQUIRED"@)
}

/// The template that the map holds under `prefix`: its fields are the map's
/// values, the port and the TLS flag read from their texts. `None` where one of
/// the six keys is missing.
pub open spec fn resolved(prefix: Seq<char>, config: Map<Seq<char>, String>) -> Option<Template> {
    if has_all_fields(prefix, config) {
        Some(
            Template {
                host: config[prefix + "HOST"@]@,
                port: port_of(config[prefix + "PORT"@]@),
                username: config[prefix + "USERNAME"@]@,
                password: config[prefix + "PASSWORD"@]@,
                database: config[prefix + "DATABASE"@]@,
                tls_required: tls_flag(config[prefix + "TLS_REQUIRED"@]@),
            },
        )
    } else {
        None
    }
}

/// Reads the TLS flag of a template.
fn parse_tls_flag(text: &str) -> (flag: bool)
    ensures
        flag == tls_flag(text@),
{
    let lowered = to_lowercase(text);
    same_text(lowered.as_str(), "true") || same_text(lowered.as_str(), "yes")
}

/// Reads the template that stands in the map under `prefix`.
///
/// The template's fields match the map's values. A port that does not parse
/// becomes the default port. A prefix with fewer than its six keys gives
/// `None`.
pub fn parse_prefixed_config_from_map(prefix: &str, config: &TextMap<String>) -> (template: Option<
    ConnectionCreateOptions,
>)
    ensures
        match template {
            Some(t) => resolved(prefix@, config@) == Some(t@),
            None => resolved(prefix@, config@) is None,
        },
{
    let host_key = join(prefix, "HOST");
    let port_key = join(prefix, "PORT");
    let username_key = join(prefix, "USERNAME");
    let password_key = join(prefix, "PASSWORD");
    let database_key = join(prefix, "DATABASE");
    let tls_key = join(prefix, "TLS_REQUIRED");
    match (
        config.get(host_key.as_str()),
        config.get(port_key.as_str()),
        config.get(username_key.as_str()),
        config.get(password_key.as_str()),
        config.get(database_key.as_str()),
        config.get(tls_key.as_str()),
    ) {
        (
            Some(host),
            Some(port),
            Some(username),
            Some(password),
            Some(database),
            Some(tls_required),
        ) => {
            let port = match parse_port(port.as_str()) {
                Some(port) => port,
                None => POSTGRES_DEFAULT_PORT,
            };
            Some(
                ConnectionCreateOptions {
                    host: host.clone(),
                    port,
                    username: username.clone(),
                    password: password.clone(),
                    tls_required: parse_tls_flag(tls_required.as_str()),
                    database: database.clone(),
                },
            )
        },
        _ => None,
    }
}

/// Reads the template of the managed tier, which stands under `MANAGED_`.
pub fn parse_managed_config(config: &TextMap<String>) -> (template: Option<ConnectionCreateOptions>)
    ensures
        match template {
            Some(t) => resolved("MANAGED_"@, config@) == Some(t@),
            None => resolved("MANAGED_"@, config@) is None,
        },
{
    parse_prefixed_config_from_map("MANAGED_", config)
}

/// The position of the first `_` of `key` at or behind `from`, or the key's
/// length where there is none.
pub open spec fn underscore_at(key: Seq<char>, from: int) -> int
    decreases key.len() - from,
{
    if from < 0 || from >= key.len() {
        key.len() as int
    } else if key[from] == '_' {
        from
    } else {
        underscore_at(key, from + 1)
    }
}

/// The profile that a key names: for a key that begins with `PROFILE_`, the
/// text between that and the next `_` (or the key's end).
pub open spec fn profile_name(key: Seq<char>) -> Option<Seq<char>> {
    let marker = "PROFILE_"@;
    if marker.is_prefix_of(key) {
        Some(key.subrange(marker.len() as int, underscore_at(key, marker.len() as int)))
    } else {
        None
    }
}

/// The prefix under which the keys of the profile `name` stand.
pub open spec fn profile_prefix(name: Seq<char>) -> Seq<char> {
    "PROFILE_"@ + name + "_"@
}

/// Whether the map holds a template for the profile `name`: a name without
/// `_`, with all six keys under its prefix.
pub open spec fn is_profile(name: Seq<char>, config: Map<Seq<char>, String>) -> bool {
    !name.contains('_') && has_all_fields(profile_prefix(name), config)
}

/// `underscore_at` finds `end` where no `_` stands between `from` and `end`,
/// and `end` is the key's length or holds a `_`.
pub proof fn lemma_underscore_at(key: Seq<char>, from: int, end: int)
    requires
        0 <= from <= end <= key.len(),
        forall|j: int| from <= j < end ==> #[trigger] key[j] != '_',
        end == key.len() || key[end] == '_',
    ensures
        underscore_at(key, from) == end,
    decreases end - from,
{
    if from < end {
        lemma_underscore_at(key, from + 1, end);
    }
}

/// The profile that a key names holds no `_`.
pub proof fn lemma_profile_name_plain(key: Seq<char>)
    requires
        profile_name(key) is Some,
    ensures
        !profile_name(key)->0.contains('_'),
{
    let marker = "PROFILE_"@;
    let from = marker.len() as int;
    lemma_underscore_bounds(key, from);
    let end = underscore_at(key, from);
    let name = key.subrange(from, end);
    if name.contains('_') {
        let j = choose|j: int| 0 <= j < name.len() && name[j] == '_';
        assert(key[from + j] == '_');
    }
}

/// `underscore_at` stays within the key, and passes over no `_`.
pub proof fn lemma_underscore_bounds(key: Seq<char>, from: int)
    requires
        0 <= from <= key.len(),
    ensures
        from <= underscore_at(key, from) <= key.len(),
        forall|j: int| from <= j < underscore_at(key, from) ==> #[trigger] key[j] != '_',
    decreases key.len() - from,
{
    if from < key.len() && key[from] != '_' {
        lemma_underscore_bounds(key, from + 1);
    }
}

/// Every key under a profile's prefix names that profile.
pub proof fn lemma_profile_key(name: Seq<char>, field: Seq<char>)
    requires
        !name.contains('_'),
    ensures
        profile_name(profile_prefix(name) + field) == Some(name),
{
    reveal_strlit("PROFILE_");
    reveal_strlit("_");
    let marker = "PROFILE_"@;
    let key = profile_prefix(name) + field;
    let from = marker.len() as int;
    let end = from + name.len();
    assert(marker =~= key.subrange(0, from));
    assert forall|j: int| from <= j < end implies #[trigger] key[j] != '_' by {
        assert(key[j] == name[j - from]);
        if key[j] == '_' {
            assert(name.contains('_'));
        }
    }
    assert(key[end] == '_');
    lemma_underscore_at(key, from, end);
    assert(key.subrange(from, end) =~= name);
}

/// The profile that a key names, if it names one.
pub fn profile_name_of(key: &str) -> (name: Option<&str>)
    ensures
        match name {
            Some(n) => profile_name(key@) == Some(n@),
            None => profile_name(key@) is None,
        },
{
    proof {
        reveal_strlit("PROFILE_");
    }
    let len = key.unicode_len();
    if len < 8 {
        return None;
    }
    let head = key.substring_char(0, 8);
    if !same_text(head, "PROFILE_") {
        return None;
    }
    let mut i: usize = 0;
    let mut end: usize = len;
    let mut found: bool = false;
    for c in it: key.chars()
        invariant
            it.seq() == key@,
            len == key@.len(),
            len >= 8,
            i == it.index(),
            !found ==> end == len,
            !found ==> forall|j: int| 8 <= j < i ==> #[trigger] key@[j] != '_',
            found ==> 8 <= end < i && key@[end as int] == '_',
            found ==> forall|j: int| 8 <= j < end ==> #[trigger] key@[j] != '_',
    {
        if i >= 8 && !found && c == '_' {
            end = i;
            found = true;
        }
        i = i + 1;
    }
    proof {
        lemma_underscore_at(key@, 8, end as int);
    }
    Some(key.substring_char(8, end))
}

/// Whether `name` is among the names of `found`.
fn listed(found: &Vec<(String, ConnectionCreateOptions)>, name: &str) -> (there: bool)
    ensures
        there == exists|i: int| 0 <= i < found.len() && (#[trigger] found[i]).0@ == name@,
{
    let mut i: usize = 0;
    while i < found.len()
        invariant
            i <= found.len(),
            forall|j: int| 0 <= j < i ==> (#[trigger] found[j]).0@ != name@,
        decreases found.len() - i,
    {
        if same_text(found[i].0.as_str(), name) {
            return true;
        }
        i = i + 1;
    }
    false
}

/// Reads the templates of all named profiles, each with its name.
///
/// A profile is every name that a key of the form `PROFILE_<name>_<field>`
/// gives and that has all six keys under its own prefix. Each such profile
/// comes out once, with the template read under its prefix; nothing else comes
/// out.
pub fn parse_profile_configs(config: &TextMap<String>) -> (profiles: Vec<
    (String, ConnectionCreateOptions),
>)
    ensures
        forall|i: int|
            0 <= i < profiles.len() ==> is_profile((#[trigger] profiles[i]).0@, config@)
                && resolved(profile_prefix(profiles[i].0@), config@) == Some(profiles[i].1@),
        forall|name: Seq<char>|
            is_profile(name, config@) ==> exists|i: int|
                0 <= i < profiles.len() && (#[trigger] profiles[i]).0@ == name,
        forall|i: int, j: int|
            0 <= i < profiles.len() && 0 <= j < profiles.len() && i != j ==> (
            #[trigger] profiles[i]).0@ != (#[trigger] profiles[j]).0@,
{
    let mut found: Vec<(String, ConnectionCreateOptions)> = Vec::new();
    let count = config.len();
    let mut k: usize = 0;
    while k < count
        invariant
            k <= count,
            count == config.keys().len(),
            forall|key: Seq<char>| #[trigger]
                config@.contains_key(key) <==> config.keys().contains(key),
            forall|i: int|
                0 <= i < found.len() ==> is_profile((#[trigger] found[i]).0@, config@) && resolved(
                    profile_prefix(found[i].0@),
                    config@,
                ) == Some(found[i].1@),
            forall|j: int|
                0 <= j < k && profile_name(#[trigger] config.keys()[j]) is Some && is_profile(
                    profile_name(config.keys()[j])->0,
                    config@,
                ) ==> exists|i: int|
                    0 <= i < found.len() && (#[trigger] found[i]).0@ == profile_name(
                        config.keys()[j],
                    )->0,
            forall|i: int, j: int|
                0 <= i < found.len() && 0 <= j < found.len() && i != j ==> (#[trigger] found[i]).0@
                    != (#[trigger] found[j]).0@,
        decreases count - k,
    {
        let key = config.key_at(k);
        let ghost before = found@;
        match profile_name_of(key.as_str()) {
            Some(name) => {
                if !listed(&found, name) {
                    let prefix = join(join("PROFILE_", name).as_str(), "_");
                    match parse_prefixed_config_from_map(prefix.as_str(), config) {
                        Some(template) => {
                            proof {
                                lemma_profile_name_plain(key@);
                            }
                            found.push((name.to_owned(), template));
                            assert(found[found.len() - 1].0@ == name@);
                            assert forall|i: int| 0 <= i < before.len() implies found[i]
                                == before[i] by {}
                        },
                        None => {},
                    }
                }
            },
            None => {},
        }
        proof {
            assert forall|j: int|
                0 <= j < k + 1 && profile_name(#[trigger] config.keys()[j]) is Some && is_profile(
                    profile_name(config.keys()[j])->0,
                    config@,
                ) implies exists|i: int|
                0 <= i < found.len() && (#[trigger] found[i]).0@ == profile_name(
                    config.keys()[j],
                )->0 by {
                if j < k {
                    let i = choose|i: int|
                        0 <= i < before.len() && (#[trigger] before[i]).0@ == profile_name(
                            config.keys()[j],
                        )->0;
                    assert(found[i] == before[i]);
                }
            }
        }
        k = k + 1;
    }
    proof {
        assert forall|name: Seq<char>| is_profile(name, config@) implies exists|i: int|
            0 <= i < found.len() && (#[trigger] found[i]).0@ == name by {
            let key = profile_prefix(name) + "HOST"@;
            lemma_profile_key(name, "HOST"@);
            assert(config.keys().contains(key));
            let j = choose|j: int| 0 <= j < config.keys().len() && config.keys()[j] == key;
            assert(profile_name(config.keys()[j]) == Some(name));
        }
    }
    found
}

} // verus!
