//! The resource registry: connection templates, live pools and prepared
//! statements, each kept under its token.
//!
//! The registry gives every pool that it builds an identity of its own. Two
//! tokens stand for the same physical pool exactly when their entries carry the
//! same identity, and only the tokens of named profiles ever do.

use vstd::prelude::*;
use vstd::string::*;
use crate::config::{ConnectionCreateOptions, Template};
use crate::pool::{buildable, create_plain_pool, create_tls_pool, PoolHandle};
use crate::text::join;
use crate::text_map::TextMap;
use crate::token::is_profile_token;

verus! {

/// A live pool with the identity that the registry gave it.
pub struct PoolEntry {
    pub handle: PoolHandle,
    pub id: u64,
}

/// A prepared statement as the registry keeps it: the compiled statement and
/// the token of the connection it was prepared against.
pub struct StatementEntry<S> {
    pub statement: S,
    pub owner: String,
}

/// A prepared statement, as plain values.
pub struct Prepared<S> {
    pub statement: S,
    pub owner: Seq<char>,
}

impl<S> View for StatementEntry<S> {
    type V = Prepared<S>;

    open spec fn view(&self) -> Prepared<S> {
        Prepared { statement: self.statement, owner: self.owner@ }
    }
}

/// Why no pool was made.
#[derive(Clone, Copy, Debug, PartialEq, Eq)]
pub enum PoolError {
    /// The driver refused the template for a pool without TLS.
    Plain,
    /// The driver refused the template for a pool with TLS.
    Tls,
    /// The registry has no identity left to give.
    Exhausted,
}

/// What a registry holds: its three tables as maps, and how many pools it has
/// built so far.
pub struct State<S> {
    pub templates: Map<Seq<char>, Template>,
    pub pools: Map<Seq<char>, PoolEntry>,
    pub statements: Map<Seq<char>, Prepared<S>>,
    pub pools_built: nat,
}

impl<S> State<S> {
    /// The state of a registry that holds nothing and has built nothing.
    pub open spec fn empty() -> State<S> {
        State {
            templates: Map::empty(),
            pools: Map::empty(),
            statements: Map::empty(),
            pools_built: 0,
        }
    }

    /// What every registry keeps true. Each pool's identity is below the count
    /// of pools built, and two tokens share an identity only where both are
    /// profile tokens that stand for one pool.
    pub open spec fn wf(self) -> bool {
        &&& self.pools_built <= u64::MAX
        &&& forall|t: Seq<char>|
            self.pools.contains_key(t) ==> (#[trigger] self.pools[t]).id < self.pools_built
        &&& forall|a: Seq<char>, b: Seq<char>|
            self.pools.contains_key(a) && self.pools.contains_key(b) && a != b && (
            #[trigger] self.pools[a]).id == (#[trigger] self.pools[b]).id ==> is_profile_token(a)
                && is_profile_token(b) && self.pools[a].handle == self.pools[b].handle
    }

    /// The state with `template` under `token`, in place of what stood there.
    pub open spec fn with_template(self, token: Seq<char>, template: Template) -> State<S> {
        State { templates: self.templates.insert(token, template), ..self }
    }

    /// The state after a pool was built for `token`: the pool stands under the
    /// token with the next identity, and one more pool has been built.
    pub open spec fn with_pool(self, token: Seq<char>, handle: PoolHandle) -> State<S> {
        State {
            pools: self.pools.insert(token, PoolEntry { handle, id: self.pools_built as u64 }),
            pools_built: self.pools_built + 1,
            ..self
        }
    }

    /// The state in which `to` stands for the pool that `from` stands for.
    pub open spec fn with_shared_pool(self, from: Seq<char>, to: Seq<char>) -> State<S> {
        State { pools: self.pools.insert(to, self.pools[from]), ..self }
    }

    /// The state without a pool under `token`.
    pub open spec fn without_pool(self, token: Seq<char>) -> State<S> {
        State { pools: self.pools.remove(token), ..self }
    }

    /// The state with `statement`, owned by `owner`, under `token`.
    pub open spec fn with_statement(self, token: Seq<char>, statement: S, owner: Seq<char>) -> State<
        S,
    > {
        State { statements: self.statements.insert(token, Prepared { statement, owner }), ..self }
    }

    /// The state without the statements that `owner` owns.
    pub open spec fn without_statements_of(self, owner: Seq<char>) -> State<S> {
        State {
            statements: Map::new(
                |t: Seq<char>| self.statements.contains_key(t) && self.statements[t].owner != owner,
                |t: Seq<char>| self.statements[t],
            ),
            ..self
        }
    }

    /// The state with all three tables empty.
    pub open spec fn drained(self) -> State<S> {
        State {
            templates: Map::empty(),
            pools: Map::empty(),
            statements: Map::empty(),
            ..self
        }
    }

    /// How making sure of a pool under `token` changes the state, and what it
    /// returns: the token, or the error.
    ///
    /// A token that has a pool keeps it, and nothing is built. Else a pool is
    /// built from `template` and stored with an identity of its own, where one
    /// can be built; where none can, nothing changes.
    pub open spec fn pool_ensured(
        self,
        after: State<S>,
        token: Seq<char>,
        template: Template,
        stored: Result<Seq<char>, PoolError>,
    ) -> bool {
        if self.pools.contains_key(token) {
            after == self && stored == Ok::<Seq<char>, PoolError>(token)
        } else if self.can_build(template) {
            stored == Ok::<Seq<char>, PoolError>(token) && after.pools.contains_key(token) && after
                == self.with_pool(token, after.pools[token].handle)
        } else {
            after == self && stored == Err::<Seq<char>, PoolError>(self.refusal(template))
        }
    }

    /// Whether a pool can be made for a template: the driver accepts the
    /// template, and an identity is left.
    pub open spec fn can_build(self, template: Template) -> bool {
        buildable(template.database) && self.pools_built < u64::MAX
    }

    /// The error with which a pool for `template` is refused.
    pub open spec fn refusal(self, template: Template) -> PoolError {
        if self.pools_built >= u64::MAX {
            PoolError::Exhausted
        } else if template.tls_required {
            PoolError::Tls
        } else {
            PoolError::Plain
        }
    }
}

/// What making sure of a pool returned, as plain values.
pub open spec fn stored_token(stored: Result<String, PoolError>) -> Result<Seq<char>, PoolError> {
    match stored {
        Ok(token) => Ok(token@),
        Err(error) => Err(error),
    }
}

/// Making sure of a pool twice builds at most one pool: once the first call
/// has succeeded, a second call for the same token returns the same token and
/// leaves the registry as it is, whatever template it is given.
pub proof fn lemma_ensure_pool_is_idempotent<S>(
    before: State<S>,
    between: State<S>,
    after: State<S>,
    token: Seq<char>,
    first_template: Template,
    second_template: Template,
    first: Result<Seq<char>, PoolError>,
    second: Result<Seq<char>, PoolError>,
)
    requires
        before.pool_ensured(between, token, first_template, first),
        between.pool_ensured(after, token, second_template, second),
        first is Ok,
    ensures
        second == first,
        after == between,
        after.pools_built == between.pools_built,
        between.pools_built <= before.pools_built + 1,
{
}

/// Whether `c` is a digit of Crockford's base 32.
pub open spec fn is_crockford(c: char) -> bool {
    ('0' <= c && c <= '9') || ('A' <= c && c <= 'Z' && c != 'I' && c != 'L' && c != 'O' && c
        != 'U')
}

/// Whether a text has the shape of a fresh identifier: 26 digits of
/// Crockford's base 32.
pub open spec fn is_ulid(id: Seq<char>) -> bool {
    id.len() == 26 && forall|i: int| 0 <= i < id.len() ==> is_crockford(#[trigger] id[i])
}

/// Whether a token has the shape of a prepared statement's: `prepared-statement-`
/// and a fresh identifier.
pub open spec fn is_statement_token(token: Seq<char>) -> bool {
    exists|id: Seq<char>| is_ulid(id) && token == "prepared-statement-"@ + id
}

/// `ulid::Ulid::new` and `Ulid::to_string`: an identifier made from the clock
/// and from random bits, written as 26 digits of Crockford's base 32. Nothing
/// else holds of every outcome; two calls may give the same text.
#[verifier::external_body]
pub(crate) fn fresh_ulid() -> (id: String)
    ensures
        is_ulid(id@),
{
    ulid::Ulid::new().to_string()
}

/// The registry of templates, pools and prepared statements. `S` is the
/// driver's compiled statement, which the registry only keeps.
pub struct Registry<S> {
    templates: TextMap<ConnectionCreateOptions>,
    pools: TextMap<PoolEntry>,
    statements: TextMap<StatementEntry<S>>,
    pools_built: u64,
}

impl<S> View for Registry<S> {
    type V = State<S>;

    closed spec fn view(&self) -> State<S> {
        State {
            templates: self.templates@.map_values(|t: ConnectionCreateOptions| t@),
            pools: self.pools@,
            statements: self.statements@.map_values(|e: StatementEntry<S>| e@),
            pools_built: self.pools_built as nat,
        }
    }
}

impl<S> Registry<S> {
    #[verifier::type_invariant]
    spec fn well_formed(&self) -> bool {
        self@.wf()
    }

    /// A registry that holds nothing.
    pub fn new() -> (registry: Self)
        ensures
            registry@ == State::<S>::empty(),
            registry@.wf(),
    {
        let registry = Registry {
            templates: TextMap::new(),
            pools: TextMap::new(),
            statements: TextMap::new(),
            pools_built: 0,
        };
        assert(registry@.templates =~= Map::empty());
        assert(registry@.statements =~= Map::empty());
        registry
    }

    /// How many pools the registry has built since it was made.
    pub fn pools_built(&self) -> (count: u64)
        ensures
            count == self@.pools_built,
            self@.wf(),
    {
        proof {
            use_type_invariant(self);
        }
        self.pools_built
    }

    /// Stores `template` under `token`; the last write wins.
    pub fn put_template(&mut self, token: String, template: ConnectionCreateOptions)
        ensures
            final(self)@ == old(self)@.with_template(token@, template@),
            final(self)@.wf(),
    {
        proof {
            use_type_invariant(&*self);
        }
        let ghost before = self.templates@;
        let ghost pools = self@.pools;
        let mut templates: TextMap<ConnectionCreateOptions> = TextMap::new();
        core::mem::swap(&mut self.templates, &mut templates);
        assert(self@.pools == pools);
        assert(self@.templates =~= Map::empty());
        templates.insert(token, template);
        core::mem::swap(&mut self.templates, &mut templates);
        assert(self@.templates =~= before.map_values(|t: ConnectionCreateOptions| t@).insert(
            token@,
            template@,
        ));
    }

    /// The template stored under `token`, if any.
    pub fn get_template(&self, token: &str) -> (template: Option<&ConnectionCreateOptions>)
        ensures
            match template {
                Some(t) => self@.templates.contains_key(token@) && t@ == self@.templates[token@],
                None => !self@.templates.contains_key(token@),
            },
    {
        self.templates.get(token)
    }

    /// Whether a pool stands under `token`.
    pub fn has_pool(&self, token: &str) -> (there: bool)
        ensures
            there == self@.pools.contains_key(token@),
    {
        self.pools.contains_key(token)
    }

    /// The pool that stands under `token`, if any.
    pub fn get_pool(&self, token: &str) -> (pool: Option<&PoolHandle>)
        ensures
            match pool {
                Some(handle) => self@.pools.contains_key(token@) && *handle
                    == self@.pools[token@].handle,
                None => !self@.pools.contains_key(token@),
            },
    {
        match self.pools.get(token) {
            Some(entry) => Some(&entry.handle),
            None => None,
        }
    }

    /// The identity of the pool that stands under `token`, if any.
    pub fn pool_id(&self, token: &str) -> (id: Option<u64>)
        ensures
            match id {
                Some(id) => self@.pools.contains_key(token@) && id == self@.pools[token@].id,
                None => !self@.pools.contains_key(token@),
            },
            self@.wf(),
    {
        proof {
            use_type_invariant(self);
        }
        match self.pools.get(token) {
            Some(entry) => Some(entry.id),
            None => None,
        }
    }

    /// Takes in what the driver made for `token`, for a template with the TLS
    /// flag `tls`.
    ///
    /// Where a pool already stands under `token`, nothing changes and the token
    /// comes back. Where none stands there, the pool that was built is stored
    /// with the next identity; no built pool, or no identity left, is an error
    /// and changes nothing.
    pub fn admit_pool(&mut self, token: &str, built: Option<PoolHandle>, tls: bool) -> (stored:
        Result<String, PoolError>)
        ensures
            final(self)@.wf(),
            old(self)@.pools.contains_key(token@) ==> final(self)@ == old(self)@ && (
            stored matches Ok(t) && t@ == token@),
            !old(self)@.pools.contains_key(token@) ==> match stored {
                Ok(t) => t@ == token@ && old(self)@.pools_built < u64::MAX && built is Some
                    && final(self)@ == old(self)@.with_pool(token@, built->0),
                Err(e) => final(self)@ == old(self)@ && (old(self)@.pools_built >= u64::MAX
                    || built is None) && e == (if old(self)@.pools_built >= u64::MAX {
                    PoolError::Exhausted
                } else if tls {
                    PoolError::Tls
                } else {
                    PoolError::Plain
                }),
            },
    {
        proof {
            use_type_invariant(&*self);
        }
        if self.pools.contains_key(token) {
            return Ok(token.to_owned());
        }
        if self.pools_built == u64::MAX {
            return Err(PoolError::Exhausted);
        }
        match built {
            None => Err(
                if tls {
                    PoolError::Tls
                } else {
                    PoolError::Plain
                },
            ),
            Some(handle) => {
                let ghost before = self@;
                let id = self.pools_built;
                let mut pools: TextMap<PoolEntry> = TextMap::new();
                core::mem::swap(&mut self.pools, &mut pools);
                self.pools_built = id + 1;
                pools.insert(token.to_owned(), PoolEntry { handle, id });
                proof {
                    let after = before.with_pool(token@, handle);
                    assert(pools@ == after.pools);
                    assert forall|a: Seq<char>, b: Seq<char>|
                        after.pools.contains_key(a) && after.pools.contains_key(b) && a != b && (
                        #[trigger] after.pools[a]).id == (#[trigger] after.pools[b]).id implies is_profile_token(
                        a,
                    ) && is_profile_token(b) && after.pools[a].handle == after.pools[b].handle by {
                        if a != token@ {
                            assert(after.pools[a] == before.pools[a]);
                        }
                        if b != token@ {
                            assert(after.pools[b] == before.pools[b]);
                        }
                    }
                    assert(after.wf());
                }
                core::mem::swap(&mut self.pools, &mut pools);
                assert(self@ == before.with_pool(token@, handle));
                Ok(token.to_owned())
            },
        }
    }

    /// Makes sure that a pool stands under `token`, and returns the token.
    ///
    /// Where one stands there already, nothing is built and nothing changes.
    /// Otherwise a pool is built from `create_opts`, with TLS where the template
    /// asks for it, and stored with an identity of its own. That succeeds
    /// exactly when the driver accepts the template and an identity is left.
    pub fn ensure_pool(&mut self, token: &str, create_opts: ConnectionCreateOptions) -> (stored:
        Result<String, PoolError>)
        ensures
            final(self)@.wf(),
            old(self)@.pool_ensured(final(self)@, token@, create_opts@, stored_token(stored)),
    {
        proof {
            use_type_invariant(&*self);
        }
        if self.pools.contains_key(token) {
            return Ok(token.to_owned());
        }
        if self.pools_built == u64::MAX {
            return Err(PoolError::Exhausted);
        }
        let tls = create_opts.tls_required;
        let built = if tls {
            create_tls_pool(&create_opts)
        } else {
            create_plain_pool(&create_opts)
        };
        self.admit_pool(token, built, tls)
    }

    /// Lets `to` stand for the pool that `from` stands for, where there is one,
    /// and says whether there was. Both are profile tokens.
    pub(crate) fn share_pool(&mut self, from: &str, to: String) -> (shared: bool)
        requires
            is_profile_token(from@),
            is_profile_token(to@),
        ensures
            final(self)@.wf(),
            shared == old(self)@.pools.contains_key(from@),
            shared ==> final(self)@ == old(self)@.with_shared_pool(from@, to@),
            !shared ==> final(self)@ == old(self)@,
    {
        proof {
            use_type_invariant(&*self);
        }
        let ghost before = self@;
        let entry = match self.pools.get(from) {
            Some(existing) => PoolEntry { handle: existing.handle.share(), id: existing.id },
            None => {
                return false;
            },
        };
        assert(entry == before.pools[from@]);
        let mut pools: TextMap<PoolEntry> = TextMap::new();
        core::mem::swap(&mut self.pools, &mut pools);
        pools.insert(to, entry);
        proof {
            let after = before.with_shared_pool(from@, to@);
            assert(pools@ == after.pools);
            assert forall|a: Seq<char>, b: Seq<char>|
                after.pools.contains_key(a) && after.pools.contains_key(b) && a != b && (
                #[trigger] after.pools[a]).id == (#[trigger] after.pools[b]).id implies is_profile_token(
                a,
            ) && is_profile_token(b) && after.pools[a].handle == after.pools[b].handle by {
                let a0 = if a == to@ { from@ } else { a };
                let b0 = if b == to@ { from@ } else { b };
                assert(after.pools[a] == before.pools[a0]);
                assert(after.pools[b] == before.pools[b0]);
            }
            assert forall|t: Seq<char>| after.pools.contains_key(t) implies (
            #[trigger] after.pools[t]).id < after.pools_built by {
                let t0 = if t == to@ { from@ } else { t };
                assert(after.pools[t] == before.pools[t0]);
            }
            assert(after.wf());
        }
        core::mem::swap(&mut self.pools, &mut pools);
        assert(self@ == before.with_shared_pool(from@, to@));
        true
    }

    /// Drops the pool entry under `token`. Statements that the token owns stay.
    pub fn remove_pool(&mut self, token: &str)
        ensures
            final(self)@ == old(self)@.without_pool(token@),
            final(self)@.wf(),
    {
        proof {
            use_type_invariant(&*self);
        }
        let ghost before = self@;
        let mut pools: TextMap<PoolEntry> = TextMap::new();
        core::mem::swap(&mut self.pools, &mut pools);
        let _ = pools.remove(token);
        proof {
            let after = before.without_pool(token@);
            assert(pools@ == after.pools);
            assert(after.wf());
        }
        core::mem::swap(&mut self.pools, &mut pools);
        assert(self@ == before.without_pool(token@));
    }

    /// Empties all three tables.
    pub fn drain_all(&mut self)
        ensures
            final(self)@ == old(self)@.drained(),
            final(self)@.wf(),
    {
        proof {
            use_type_invariant(&*self);
        }
        let mut templates: TextMap<ConnectionCreateOptions> = TextMap::new();
        let mut pools: TextMap<PoolEntry> = TextMap::new();
        let mut statements: TextMap<StatementEntry<S>> = TextMap::new();
        core::mem::swap(&mut self.pools, &mut pools);
        core::mem::swap(&mut self.templates, &mut templates);
        core::mem::swap(&mut self.statements, &mut statements);
        assert(self@.templates =~= Map::empty());
        assert(self@.statements =~= Map::empty());
    }

    /// Stores `statement`, prepared against the connection `owner`, under
    /// `token`.
    pub fn admit_statement(&mut self, token: String, statement: S, owner: &str)
        ensures
            final(self)@ == old(self)@.with_statement(token@, statement, owner@),
            final(self)@.wf(),
    {
        proof {
            use_type_invariant(&*self);
        }
        let ghost before = self.statements@;
        let ghost pools = self@.pools;
        let entry = StatementEntry { statement, owner: owner.to_owned() };
        let mut statements: TextMap<StatementEntry<S>> = TextMap::new();
        core::mem::swap(&mut self.statements, &mut statements);
        assert(self@.pools == pools);
        assert(self@.statements =~= Map::empty());
        statements.insert(token, entry);
        core::mem::swap(&mut self.statements, &mut statements);
        assert(self@.statements =~= before.map_values(|e: StatementEntry<S>| e@).insert(
            token@,
            entry@,
        ));
    }

    /// Stores `statement`, prepared against the connection `owner`, under a
    /// fresh token, and returns the token.
    pub fn register_statement(&mut self, statement: S, owner: &str) -> (token: String)
        ensures
            is_statement_token(token@),
            final(self)@ == old(self)@.with_statement(token@, statement, owner@),
            final(self)@.wf(),
    {
        let id = fresh_ulid();
        let token = join("prepared-statement-", id.as_str());
        self.admit_statement(token.clone(), statement, owner);
        token
    }

    /// The statement stored under `token` and the token of its connection, if
    /// any.
    pub fn get_statement(&self, token: &str) -> (found: Option<(&S, &String)>)
        ensures
            match found {
                Some((statement, owner)) => self@.statements.contains_key(token@) && *statement
                    == self@.statements[token@].statement && owner@
                    == self@.statements[token@].owner,
                None => !self@.statements.contains_key(token@),
            },
    {
        match self.statements.get(token) {
            Some(entry) => Some((&entry.statement, &entry.owner)),
            None => None,
        }
    }

    /// Drops every statement that `owner` owns.
    pub fn purge_statements(&mut self, owner: &str)
        ensures
            final(self)@ == old(self)@.without_statements_of(owner@),
            final(self)@.wf(),
    {
        proof {
            use_type_invariant(&*self);
        }
        let ghost before = self.statements@;
        let ghost pools = self@.pools;
        let mut statements: TextMap<StatementEntry<S>> = TextMap::new();
        core::mem::swap(&mut self.statements, &mut statements);
        assert(self@.pools == pools);
        assert(self@.statements =~= Map::empty());
        let mut i: usize = 0;
        let mut count = statements.len();
        while i < count
            invariant
                i <= count,
                count == statements.keys().len(),
                statements.keys().no_duplicates(),
                forall|k: Seq<char>| #[trigger]
                    statements@.contains_key(k) <==> statements.keys().contains(k),
                forall|k: Seq<char>| #[trigger]
                    statements@.contains_key(k) ==> before.contains_key(k) && statements@[k]
                        == before[k],
                forall|k: Seq<char>|
                    before.contains_key(k) && !(#[trigger] statements@.contains_key(k))
                        ==> before[k].owner@ == owner@,
                forall|j: int|
                    0 <= j < i ==> statements@[#[trigger] statements.keys()[j]].owner@ != owner@,
            decreases count - i,
        {
            let ghost keys = statements.keys();
            let ghost held = statements@;
            let mine = crate::text::same_text(statements.value_at(i).owner.as_str(), owner);
            if mine {
                let _ = statements.remove_at(i);
                count = statements.len();
                proof {
                    assert forall|j: int| 0 <= j < i implies statements@[#[trigger] statements.keys()[j]].owner@
                        != owner@ by {
                        assert(statements.keys()[j] == keys[j]);
                        assert(keys[j] != keys[i as int]);
                        assert(held.contains_key(keys[j]));
                    }
                }
            } else {
                i = i + 1;
            }
        }
        core::mem::swap(&mut self.statements, &mut statements);
        proof {
            let kept = self.statements@;
            let wanted = old(self)@.without_statements_of(owner@).statements;
            assert forall|k: Seq<char>| kept.contains_key(k) implies kept[k].owner@ != owner@ by {
                assert(self.statements.keys().contains(k));
                let j = choose|j: int|
                    0 <= j < self.statements.keys().len() && self.statements.keys()[j] == k;
                assert(kept[self.statements.keys()[j]].owner@ != owner@);
            }
            assert(self@.statements =~= wanted);
        }
    }
}

} // verus!
