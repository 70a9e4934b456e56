//! The tenant lifecycle: what the registry does when the provider starts, when
//! a tenant attaches or detaches, and at shutdown.
//!
//! Attaching is best effort in two independent steps. A tenant that names a
//! profile joins that profile's pool, which all tenants of the profile share;
//! and every tenant gets a managed pool of its own, built from the managed
//! template. A step that fails is reported and leaves the other untouched.

use vstd::prelude::*;
use vstd::string::*;
use crate::config::{
    is_profile,
    parse_managed_config,
    parse_profile_configs,
    profile_prefix,
    resolved,
    ConnectionCreateOptions,
    Template,
};
use crate::registry::{PoolError, Registry, State};
use crate::text::join3;
use crate::text_map::TextMap;
use crate::token::{
    is_profile_token,
    lemma_managed_tokens,
    lemma_profile_tokens,
    managed_connection_token_id,
    managed_token,
    named_profile_connection_token_id,
    profile_token,
};

verus! {

/// Why a step of attaching a tenant did nothing.
#[derive(Clone, Copy, Debug, PartialEq, Eq)]
pub enum AttachError {
    /// No pool stands under the named profile's token.
    MissingProfile,
    /// No template stands under the managed token.
    MissingTemplate,
    /// The tenant's managed pool could not be made.
    Pool(PoolError),
}

/// How attaching a tenant went, step by step.
#[derive(Clone, Copy, Debug, PartialEq, Eq)]
pub struct AttachOutcome {
    /// The profile step: `None` where the tenant named no profile.
    pub profile: Option<Result<(), AttachError>>,
    /// The managed step.
    pub managed: Result<(), AttachError>,
}

impl AttachOutcome {
    /// Whether the tenant joined the profile that it named.
    pub fn profile_attached(&self) -> (attached: bool)
        ensures
            attached == (self.profile matches Some(Ok(_))),
    {
        match self.profile {
            Some(Ok(_)) => true,
            _ => false,
        }
    }

    /// Whether the tenant has a managed pool of its own.
    pub fn managed_attached(&self) -> (attached: bool)
        ensures
            attached == self.managed is Ok,
    {
        self.managed.is_ok()
    }
}

/// What is reported when a tenant names a profile that has no pool.
pub open spec fn missing_profile_text(profile_name: Seq<char>) -> Seq<char> {
    "no existing named profile ["@ + profile_name
        + "] connection (was initial config specified?)"@
}

/// What is reported when no template stands under `token`.
pub open spec fn missing_template_text(token: Seq<char>) -> Seq<char> {
    "failed to find connection options for token ["@ + token + "]"@
}

/// What is reported when a pool could not be made.
pub open spec fn pool_error_text(error: PoolError) -> Seq<char> {
    match error {
        PoolError::Plain => "failed to create non-TLS postgres pool"@,
        PoolError::Tls => "failed to create TLS-enabled connection pool"@,
        PoolError::Exhausted => "failed to create postgres pool: no pool identity is left"@,
    }
}

impl PoolError {
    /// The error in words.
    pub fn message(&self) -> (text: String)
        ensures
            text@ == pool_error_text(*self),
    {
        match self {
            PoolError::Plain => "failed to create non-TLS postgres pool".to_owned(),
            PoolError::Tls => "failed to create TLS-enabled connection pool".to_owned(),
            PoolError::Exhausted => "failed to create postgres pool: no pool identity is left".to_owned(),
        }
    }
}

impl AttachError {
    /// The error in words, for the profile `profile_name` where the error is
    /// about a profile.
    pub fn message(&self, profile_name: &str) -> (text: String)
        ensures
            text@ == match *self {
                AttachError::MissingProfile => missing_profile_text(profile_name@),
                AttachError::MissingTemplate => missing_template_text(managed_token(None)),
                AttachError::Pool(error) => pool_error_text(error),
            },
    {
        match self {
            AttachError::MissingProfile => join3(
                "no existing named profile [",
                profile_name,
                "] connection (was initial config specified?)",
            ),
            AttachError::MissingTemplate => join3(
                "failed to find connection options for token [",
                "managed",
                "]",
            ),
            AttachError::Pool(error) => error.message(),
        }
    }
}

/// What the templates hold under `token` once a configuration is taken in.
///
/// The managed token gets the managed template, where the configuration holds
/// one. The token of a profile of the configuration gets the template of a
/// profile with that token (two profiles whose names differ only in case or
/// outer white space share a token, and either may win). Any other token
/// keeps what it had.
pub open spec fn ingested_at(
    before: Map<Seq<char>, Template>,
    after: Map<Seq<char>, Template>,
    config: Map<Seq<char>, String>,
    token: Seq<char>,
) -> bool {
    if token == managed_token(None) && resolved("MANAGED_"@, config) is Some {
        after.contains_key(token) && Some(after[token]) == resolved("MANAGED_"@, config)
    } else if exists|name: Seq<char>|
        is_profile(name, config) && #[trigger] profile_token(name, None) == token {
        after.contains_key(token) && exists|name: Seq<char>|
            is_profile(name, config) && #[trigger] profile_token(name, None) == token && Some(
                after[token],
            ) == resolved(profile_prefix(name), config)
    } else {
        after.contains_key(token) == before.contains_key(token) && (before.contains_key(token)
            ==> after[token] == before[token])
    }
}

/// How the templates of a registry change when a configuration is taken in:
/// under every token they hold what `ingested_at` says.
pub open spec fn ingested(
    before: Map<Seq<char>, Template>,
    after: Map<Seq<char>, Template>,
    config: Map<Seq<char>, String>,
) -> bool {
    forall|token: Seq<char>| #[trigger] ingested_at(before, after, config, token)
}

/// Whether one of the first `upto` profiles has the token `token`.
spec fn covered(
    profiles: Seq<(String, ConnectionCreateOptions)>,
    upto: int,
    token: Seq<char>,
) -> bool {
    exists|j: int| 0 <= j < upto && profile_token((#[trigger] profiles[j]).0@, None) == token
}

/// Whether one of the first `upto` profiles has the token `token` and the
/// template `template`.
spec fn supplied(
    profiles: Seq<(String, ConnectionCreateOptions)>,
    upto: int,
    token: Seq<char>,
    template: Template,
) -> bool {
    exists|j: int|
        0 <= j < upto && profile_token((#[trigger] profiles[j]).0@, None) == token
            && profiles[j].1@ == template
}

/// Whether `now` holds under `token` what `base` with the first `upto`
/// profiles written over it holds there.
spec fn taken_in_at(
    profiles: Seq<(String, ConnectionCreateOptions)>,
    upto: int,
    base: Map<Seq<char>, Template>,
    now: Map<Seq<char>, Template>,
    token: Seq<char>,
) -> bool {
    if covered(profiles, upto, token) {
        now.contains_key(token) && supplied(profiles, upto, token, now[token])
    } else {
        now.contains_key(token) == base.contains_key(token) && (base.contains_key(token)
            ==> now[token] == base[token])
    }
}

/// Whether `now` is `base` with the first `upto` profiles written over it,
/// each under its token.
spec fn taken_in(
    profiles: Seq<(String, ConnectionCreateOptions)>,
    upto: int,
    base: Map<Seq<char>, Template>,
    now: Map<Seq<char>, Template>,
) -> bool {
    forall|token: Seq<char>| #[trigger] taken_in_at(profiles, upto, base, now, token)
}

/// Writing the next profile keeps `taken_in`.
proof fn lemma_taken_in_step(
    profiles: Seq<(String, ConnectionCreateOptions)>,
    i: int,
    base: Map<Seq<char>, Template>,
    held: Map<Seq<char>, Template>,
    now: Map<Seq<char>, Template>,
)
    requires
        0 <= i < profiles.len(),
        taken_in(profiles, i, base, held),
        now == held.insert(profile_token(profiles[i].0@, None), profiles[i].1@),
    ensures
        taken_in(profiles, i + 1, base, now),
{
    let added = profile_token(profiles[i].0@, None);
    assert forall|token: Seq<char>| #[trigger]
        taken_in_at(profiles, i + 1, base, now, token) by {
        assert(taken_in_at(profiles, i, base, held, token));
        if token == added {
            assert(profile_token(profiles[i].0@, None) == token && profiles[i].1@ == now[token]);
            assert(covered(profiles, i + 1, token));
            assert(supplied(profiles, i + 1, token, now[token]));
        } else if covered(profiles, i + 1, token) {
            let j = choose|j: int|
                0 <= j < i + 1 && profile_token((#[trigger] profiles[j]).0@, None) == token;
            assert(j < i);
            assert(covered(profiles, i, token));
            assert(supplied(profiles, i, token, held[token]));
            let k = choose|k: int|
                0 <= k < i && profile_token((#[trigger] profiles[k]).0@, None) == token
                    && profiles[k].1@ == held[token];
            assert(profile_token(profiles[k].0@, None) == token && profiles[k].1@ == now[token]);
            assert(supplied(profiles, i + 1, token, now[token]));
        } else {
            assert(!covered(profiles, i, token)) by {
                if covered(profiles, i, token) {
                    let j = choose|j: int|
                        0 <= j < i && profile_token((#[trigger] profiles[j]).0@, None) == token;
                    assert(profile_token(profiles[j].0@, None) == token);
                }
            }
        }
    }
}

/// With all profiles of a configuration written over the managed step, the
/// templates are those that taking in the configuration gives.
proof fn lemma_taken_in_all(
    profiles: Seq<(String, ConnectionCreateOptions)>,
    before: Map<Seq<char>, Template>,
    base: Map<Seq<char>, Template>,
    after: Map<Seq<char>, Template>,
    config: Map<Seq<char>, String>,
)
    requires
        taken_in(profiles, profiles.len() as int, base, after),
        match resolved("MANAGED_"@, config) {
            Some(template) => base == before.insert(managed_token(None), template),
            None => base == before,
        },
        forall|j: int|
            0 <= j < profiles.len() ==> is_profile((#[trigger] profiles[j]).0@, config) && resolved(
                profile_prefix(profiles[j].0@),
                config,
            ) == Some(profiles[j].1@),
        forall|name: Seq<char>|
            is_profile(name, config) ==> exists|j: int|
                0 <= j < profiles.len() && (#[trigger] profiles[j]).0@ == name,
    ensures
        ingested(before, after, config),
{
    let managed = managed_token(None);
    let all = profiles.len() as int;
    assert forall|token: Seq<char>| #[trigger] ingested_at(before, after, config, token) by {
        assert(taken_in_at(profiles, all, base, after, token));
        let named = exists|name: Seq<char>|
            is_profile(name, config) && #[trigger] profile_token(name, None) == token;
        if covered(profiles, all, token) {
            let j = choose|j: int|
                0 <= j < all && profile_token((#[trigger] profiles[j]).0@, None) == token;
            lemma_profile_tokens(profiles[j].0@, Seq::empty());
            lemma_managed_tokens(Seq::empty());
            assert(token != managed);
            assert(is_profile(profiles[j].0@, config) && profile_token(profiles[j].0@, None)
                == token);
            assert(named);
            let k = choose|k: int|
                0 <= k < all && profile_token((#[trigger] profiles[k]).0@, None) == token
                    && profiles[k].1@ == after[token];
            assert(is_profile(profiles[k].0@, config) && profile_token(profiles[k].0@, None)
                == token && Some(after[token]) == resolved(
                profile_prefix(profiles[k].0@),
                config,
            ));
        } else {
            assert(!named) by {
                if named {
                    let name = choose|name: Seq<char>|
                        is_profile(name, config) && #[trigger] profile_token(name, None) == token;
                    let j = choose|j: int| 0 <= j < all && (#[trigger] profiles[j]).0@ == name;
                    assert(profile_token(profiles[j].0@, None) == token);
                }
            }
        }
    }
}

impl<S> State<S> {
    /// The state after the tenant `source` joined the profile `name`: where the
    /// profile has a pool, the tenant's profile token stands for that same pool;
    /// where it has none, nothing changes.
    pub open spec fn profile_joined(self, name: Seq<char>, source: Seq<char>) -> State<S> {
        if self.pools.contains_key(profile_token(name, None)) {
            self.with_shared_pool(profile_token(name, None), profile_token(name, Some(source)))
        } else {
            self
        }
    }

    /// How the state changes when the tenant `source` is given its managed pool,
    /// and what is reported.
    ///
    /// Without a managed template nothing changes. With one, a pool that the
    /// tenant already has stays; else one is built from the template, with an
    /// identity of its own, where the template can be built from.
    pub open spec fn managed_provisioned(
        self,
        after: State<S>,
        source: Seq<char>,
        outcome: Result<(), AttachError>,
    ) -> bool {
        let token = managed_token(Some(source));
        let base = managed_token(None);
        if !self.templates.contains_key(base) {
            after == self && outcome == Err::<(), AttachError>(AttachError::MissingTemplate)
        } else if self.pools.contains_key(token) {
            after == self && outcome is Ok
        } else if self.can_build(self.templates[base]) {
            outcome is Ok && after.pools.contains_key(token) && after == self.with_pool(
                token,
                after.pools[token].handle,
            )
        } else {
            after == self && outcome == Err::<(), AttachError>(
                AttachError::Pool(self.refusal(self.templates[base])),
            )
        }
    }

    /// The state after the tenant `source` detached: its managed pool is gone,
    /// and so is every statement prepared against it. The tenant's profile
    /// tokens stay.
    pub open spec fn detached(self, source: Seq<char>) -> State<S> {
        let token = managed_token(Some(source));
        self.without_statements_of(token).without_pool(token)
    }
}

impl<S> Registry<S> {
    /// Takes in the templates of a configuration: the managed one, and one for
    /// each named profile. Pools and statements stay as they are.
    pub fn ingest_connection_configs_from_map(&mut self, config: &TextMap<String>)
        ensures
            final(self)@.wf(),
            final(self)@.pools == old(self)@.pools,
            final(self)@.statements == old(self)@.statements,
            final(self)@.pools_built == old(self)@.pools_built,
            ingested(old(self)@.templates, final(self)@.templates, config@),
    {
        let managed_config = parse_managed_config(config);
        let profile_configs = parse_profile_configs(config);
        let _ = self.pools_built();
        let ghost start = self@;
        if let Some(template) = managed_config {
            self.put_template(managed_connection_token_id(None), template);
        }
        let ghost base = self@.templates;
        let mut i: usize = 0;
        while i < profile_configs.len()
            invariant
                i <= profile_configs.len(),
                self@.wf(),
                self@.pools == start.pools,
                self@.statements == start.statements,
                self@.pools_built == start.pools_built,
                taken_in(profile_configs@, i as int, base, self@.templates),
            decreases profile_configs.len() - i,
        {
            let ghost held = self@.templates;
            let token = named_profile_connection_token_id(profile_configs[i].0.as_str(), None);
            let template = profile_configs[i].1.clone();
            self.put_template(token, template);
            proof {
                lemma_taken_in_step(profile_configs@, i as int, base, held, self@.templates);
            }
            i = i + 1;
        }
        proof {
            lemma_taken_in_all(profile_configs@, start.templates, base, self@.templates, config@);
        }
    }

    /// Prepares the registry at the provider's start, from the configuration
    /// that the provider was started with.
    pub fn init(&mut self, config: &TextMap<String>)
        ensures
            final(self)@.wf(),
            final(self)@.pools == old(self)@.pools,
            final(self)@.statements == old(self)@.statements,
            final(self)@.pools_built == old(self)@.pools_built,
            ingested(old(self)@.templates, final(self)@.templates, config@),
    {
        self.ingest_connection_configs_from_map(config)
    }

    /// Lets the tenant `source_id` join the named profile `profile_name`: the
    /// tenant's profile token then stands for the profile's own pool. Only a
    /// profile that has a pool can be joined.
    pub fn create_named_profile_connection_config_for_source(
        &mut self,
        profile_name: &str,
        source_id: &str,
    ) -> (joined: Result<(), AttachError>)
        ensures
            final(self)@.wf(),
            final(self)@ == old(self)@.profile_joined(profile_name@, source_id@),
            joined == if old(self)@.pools.contains_key(profile_token(profile_name@, None)) {
                Ok::<(), AttachError>(())
            } else {
                Err::<(), AttachError>(AttachError::MissingProfile)
            },
    {
        proof {
            lemma_profile_tokens(profile_name@, source_id@);
        }
        let from = named_profile_connection_token_id(profile_name, None);
        let to = named_profile_connection_token_id(profile_name, Some(source_id));
        if self.share_pool(from.as_str(), to) {
            Ok(())
        } else {
            Err(AttachError::MissingProfile)
        }
    }

    /// Gives the tenant `source_id` a managed pool of its own, built from the
    /// managed template, unless it has one.
    pub fn create_managed_connection_config_for_source(&mut self, source_id: &str) -> (provisioned:
        Result<(), AttachError>)
        ensures
            final(self)@.wf(),
            old(self)@.managed_provisioned(final(self)@, source_id@, provisioned),
    {
        let managed = managed_connection_token_id(None);
        let create_options = match self.get_template(managed.as_str()) {
            Some(template) => template.clone(),
            None => {
                let _ = self.pools_built();
                return Err(AttachError::MissingTemplate);
            },
        };
        let token = managed_connection_token_id(Some(source_id));
        match self.ensure_pool(token.as_str(), create_options) {
            Ok(_) => Ok(()),
            Err(error) => Err(AttachError::Pool(error)),
        }
    }

    /// Attaches the tenant `source_id`, whose attach-time configuration is
    /// `config`.
    ///
    /// Where the configuration names a profile under `CONNECTION_PROFILE`, the
    /// tenant joins it. Whether or not that worked, the tenant is then given its
    /// managed pool. The outcome says how each step went.
    pub fn receive_link_config_as_target(&mut self, source_id: &str, config: &TextMap<String>) -> (outcome:
        AttachOutcome)
        ensures
            final(self)@.wf(),
            outcome.profile == if config@.contains_key("CONNECTION_PROFILE"@) {
                Some(
                    if old(self)@.pools.contains_key(
                        profile_token(config@["CONNECTION_PROFILE"@]@, None),
                    ) {
                        Ok::<(), AttachError>(())
                    } else {
                        Err::<(), AttachError>(AttachError::MissingProfile)
                    },
                )
            } else {
                None::<Result<(), AttachError>>
            },
            (if config@.contains_key("CONNECTION_PROFILE"@) {
                old(self)@.profile_joined(config@["CONNECTION_PROFILE"@]@, source_id@)
            } else {
                old(self)@
            }).managed_provisioned(final(self)@, source_id@, outcome.managed),
    {
        let profile = match config.get("CONNECTION_PROFILE") {
            Some(profile_name) => Some(
                self.create_named_profile_connection_config_for_source(
                    profile_name.as_str(),
                    source_id,
                ),
            ),
            None => None,
        };
        let managed = self.create_managed_connection_config_for_source(source_id);
        AttachOutcome { profile, managed }
    }

    /// Detaches the tenant `source_id`: drops the statements prepared against
    /// its managed pool, then the pool. Its profile tokens are left alone.
    pub fn delete_link(&mut self, source_id: &str)
        ensures
            final(self)@.wf(),
            final(self)@ == old(self)@.detached(source_id@),
    {
        let token = managed_connection_token_id(Some(source_id));
        self.purge_statements(token.as_str());
        self.remove_pool(token.as_str());
    }

    /// Shuts the registry down: empties all three tables, whoever is attached.
    pub fn shutdown(&mut self)
        ensures
            final(self)@.wf(),
            final(self)@ == old(self)@.drained(),
    {
        self.drain_all();
    }
}

/// A tenant's managed pool is its own: no other token of the registry stands
/// for a pool with the same identity. In particular it is not the pool of the
/// unspecialised managed token.
pub proof fn lemma_managed_pool_is_distinct<S>(state: State<S>, source: Seq<char>, other: Seq<char>)
    requires
        state.wf(),
        state.pools.contains_key(managed_token(Some(source))),
        state.pools.contains_key(other),
        other != managed_token(Some(source)),
    ensures
        state.pools[managed_token(Some(source))].id != state.pools[other].id,
        managed_token(None) != managed_token(Some(source)),
{
    lemma_managed_tokens(source);
}

/// Once a tenant has joined a profile, its profile token stands for the very
/// pool that the profile's token stands for: same identity, same handle.
pub proof fn lemma_profile_pool_is_shared<S>(state: State<S>, name: Seq<char>, source: Seq<char>)
    requires
        state.wf(),
        state.pools.contains_key(profile_token(name, None)),
    ensures
        state.profile_joined(name, source).wf(),
        state.profile_joined(name, source).pools.contains_key(profile_token(name, Some(source))),
        state.profile_joined(name, source).pools.contains_key(profile_token(name, None)),
        state.profile_joined(name, source).pools[profile_token(name, Some(source))]
            == state.profile_joined(name, source).pools[profile_token(name, None)],
        state.profile_joined(name, source).pools_built == state.pools_built,
{
    lemma_profile_tokens(name, source);
    let from = profile_token(name, None);
    let to = profile_token(name, Some(source));
    let after = state.profile_joined(name, source);
    assert forall|a: Seq<char>, b: Seq<char>|
        after.pools.contains_key(a) && after.pools.contains_key(b) && a != b && (
        #[trigger] after.pools[a]).id == (#[trigger] after.pools[b]).id implies is_profile_token(a)
        && is_profile_token(b) && after.pools[a].handle == after.pools[b].handle by {
        let a0 = if a == to { from } else { a };
        let b0 = if b == to { from } else { b };
        assert(after.pools[a] == state.pools[a0]);
        assert(after.pools[b] == state.pools[b0]);
    }
    assert forall|t: Seq<char>| after.pools.contains_key(t) implies (#[trigger] after.pools[t]).id
        < after.pools_built by {
        let t0 = if t == to { from } else { t };
        assert(after.pools[t] == state.pools[t0]);
    }
}

/// A tenant that attaches with the name of a profile that has a pool ends up
/// on that very pool, whatever the managed step did after it.
pub proof fn lemma_attach_shares_profile_pool<S>(
    before: State<S>,
    after: State<S>,
    name: Seq<char>,
    source: Seq<char>,
    outcome: Result<(), AttachError>,
)
    requires
        before.wf(),
        before.pools.contains_key(profile_token(name, None)),
        before.profile_joined(name, source).managed_provisioned(after, source, outcome),
    ensures
        after.pools.contains_key(profile_token(name, Some(source))),
        after.pools.contains_key(profile_token(name, None)),
        after.pools[profile_token(name, Some(source))] == after.pools[profile_token(name, None)],
{
    lemma_profile_pool_is_shared(before, name, source);
    lemma_profile_tokens(name, source);
    lemma_managed_tokens(source);
}

/// With a managed template that a pool can be built from, attaching leaves the
/// tenant with a managed pool, and that pool is not the one of the
/// unspecialised managed token.
pub proof fn lemma_attach_provisions_managed_pool<S>(
    before: State<S>,
    after: State<S>,
    source: Seq<char>,
    outcome: Result<(), AttachError>,
)
    requires
        before.wf(),
        after.wf(),
        before.managed_provisioned(after, source, outcome),
        before.templates.contains_key(managed_token(None)),
        before.can_build(before.templates[managed_token(None)]),
    ensures
        outcome is Ok,
        after.pools.contains_key(managed_token(Some(source))),
        after.pools.contains_key(managed_token(None)) ==> after.pools[managed_token(
            Some(source),
        )].id != after.pools[managed_token(None)].id,
{
    lemma_managed_tokens(source);
}

/// After a tenant detached, its managed token has no pool and owns no
/// statement, while every profile token keeps its pool.
pub proof fn lemma_detach<S>(
    state: State<S>,
    source: Seq<char>,
    name: Seq<char>,
    tenant: Option<Seq<char>>,
)
    requires
        state.wf(),
    ensures
        state.detached(source).wf(),
        !state.detached(source).pools.contains_key(managed_token(Some(source))),
        forall|t: Seq<char>| #[trigger]
            state.detached(source).statements.contains_key(t) ==> state.detached(
                source,
            ).statements[t].owner != managed_token(Some(source)),
        state.pools.contains_key(profile_token(name, tenant)) ==> state.detached(
            source,
        ).pools.contains_key(profile_token(name, tenant)) && state.detached(
            source,
        ).pools[profile_token(name, tenant)] == state.pools[profile_token(name, tenant)],
{
    lemma_managed_tokens(source);
    match tenant {
        Some(t) => lemma_profile_tokens(name, t),
        None => lemma_profile_tokens(name, Seq::empty()),
    }
}

} // verus!
