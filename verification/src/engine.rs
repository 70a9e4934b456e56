//! The query engine's decisions: which pool a query, a prepare or an execute
//! call runs against, which token a connect call resolves to, and how each
//! failure is reported.
//!
//! The calls to the database themselves are made by the caller. It asks the
//! registry for the pool, talks to the driver, and comes back with what the
//! driver said; every failure is reported as a tagged error with a message and
//! never as a partial result.

use vstd::prelude::*;
use vstd::string::*;
use crate::config::{ConnectionCreateOptions, Template};
use crate::lifecycle::pool_error_text;
use crate::pool::PoolHandle;
use crate::registry::{PoolError, Registry, State};
use crate::text::{decimal_text, join, join3, normalize, normalized, render_port};
use crate::token::{
    managed_connection_token_id,
    managed_token,
    named_profile_connection_token_id,
    profile_token,
};

verus! {

/// A query failed.
#[derive(Debug, PartialEq, Eq)]
pub enum QueryError {
    Unexpected(String),
}

/// Preparing a statement failed.
#[derive(Debug, PartialEq, Eq)]
pub enum StatementPrepareError {
    Unexpected(String),
}

/// Executing a prepared statement failed.
#[derive(Debug, PartialEq, Eq)]
pub enum PreparedStatementExecError {
    Unexpected(String),
}

/// Creating a connection failed.
#[derive(Debug, PartialEq, Eq)]
pub enum CreateConnectionError {
    Unexpected(String),
}

impl QueryError {
    /// The error's message.
    pub open spec fn text(self) -> Seq<char> {
        match self {
            QueryError::Unexpected(message) => message@,
        }
    }

    /// The error's message.
    pub fn message(&self) -> (message: &String)
        ensures
            message@ == self.text(),
    {
        match self {
            QueryError::Unexpected(message) => message,
        }
    }
}

impl StatementPrepareError {
    /// The error's message.
    pub open spec fn text(self) -> Seq<char> {
        match self {
            StatementPrepareError::Unexpected(message) => message@,
        }
    }

    /// The error's message.
    pub fn message(&self) -> (message: &String)
        ensures
            message@ == self.text(),
    {
        match self {
            StatementPrepareError::Unexpected(message) => message,
        }
    }
}

impl PreparedStatementExecError {
    /// The error's message.
    pub open spec fn text(self) -> Seq<char> {
        match self {
            PreparedStatementExecError::Unexpected(message) => message@,
        }
    }

    /// The error's message.
    pub fn message(&self) -> (message: &String)
        ensures
            message@ == self.text(),
    {
        match self {
            PreparedStatementExecError::Unexpected(message) => message,
        }
    }
}

impl CreateConnectionError {
    /// The error's message.
    pub open spec fn text(self) -> Seq<char> {
        match self {
            CreateConnectionError::Unexpected(message) => message@,
        }
    }

    /// The error's message.
    pub fn message(&self) -> (message: &String)
        ensures
            message@ == self.text(),
    {
        match self {
            CreateConnectionError::Unexpected(message) => message,
        }
    }
}

/// The step of a query at which the driver failed.
#[derive(Clone, Copy, Debug, PartialEq, Eq)]
pub enum QueryStep {
    /// No client could be had from the pool.
    Acquire,
    /// The database refused the query.
    Query,
    /// A row of the result could not be read.
    Decode,
}

/// The step of a prepare call at which the driver failed.
#[derive(Clone, Copy, Debug, PartialEq, Eq)]
pub enum PrepareStep {
    /// No client could be had from the pool.
    Acquire,
    /// The database refused the statement.
    Prepare,
}

/// The step of an execute call at which the driver failed.
#[derive(Clone, Copy, Debug, PartialEq, Eq)]
pub enum ExecStep {
    /// No client could be had from the pool.
    Acquire,
    /// The database refused the execution.
    Execute,
}

/// What is reported when the caller's identity is not known.
pub open spec fn missing_source_text() -> Seq<char> {
    "failed to get source ID from context"@
}

/// What is reported when a query names a token without a pool.
pub open spec fn missing_query_pool_text(token: Seq<char>) -> Seq<char> {
    "missing connection pool for token ["@ + token + "] while querying"@
}

/// What is reported when a prepare call names a token without a pool.
pub open spec fn missing_prepare_pool_text(token: Seq<char>) -> Seq<char> {
    "failed to find connection pool for token ["@ + token + "]"@
}

/// What is reported when an execute call names a statement that is not there.
pub open spec fn missing_statement_text(statement_token: Seq<char>) -> Seq<char> {
    "missing prepared statement with statement ID ["@ + statement_token + "]"@
}

/// What is reported when the pool that a statement was prepared against is gone.
pub open spec fn missing_statement_pool_text(
    connection_token: Seq<char>,
    statement_token: Seq<char>,
) -> Seq<char> {
    "missing connection pool for token ["@ + connection_token + "], statement ID ["@
        + statement_token + "]"@
}

/// What is reported when the driver failed during a query; `detail` is the
/// driver's own message.
pub open spec fn query_failure_text(step: QueryStep, detail: Seq<char>) -> Seq<char> {
    match step {
        QueryStep::Acquire => "failed to build client from pool: "@ + detail,
        QueryStep::Query => "failed to perform query: "@ + detail,
        QueryStep::Decode => "failed to evaluate full row: "@ + detail,
    }
}

/// What is reported when the driver failed during a prepare call.
pub open spec fn prepare_failure_text(step: PrepareStep, detail: Seq<char>) -> Seq<char> {
    match step {
        PrepareStep::Acquire => "failed to build client from pool: "@ + detail,
        PrepareStep::Prepare => "failed to prepare query: "@ + detail,
    }
}

/// What is reported when the driver failed during an execute call.
pub open spec fn exec_failure_text(
    step: ExecStep,
    statement_token: Seq<char>,
    detail: Seq<char>,
) -> Seq<char> {
    match step {
        ExecStep::Acquire => "failed to build client from pool: "@ + detail,
        ExecStep::Execute => "failed to execute prepared statement with token ["@
            + statement_token + "]: "@ + detail,
    }
}

/// The error for a failure of the driver during a query.
pub fn query_failure(step: QueryStep, detail: &str) -> (error: QueryError)
    ensures
        error.text() == query_failure_text(step, detail@),
{
    QueryError::Unexpected(
        match step {
            QueryStep::Acquire => join("failed to build client from pool: ", detail),
            QueryStep::Query => join("failed to perform query: ", detail),
            QueryStep::Decode => join("failed to evaluate full row: ", detail),
        },
    )
}

/// The error for a failure of the driver during a prepare call.
pub fn prepare_failure(step: PrepareStep, detail: &str) -> (error: StatementPrepareError)
    ensures
        error.text() == prepare_failure_text(step, detail@),
{
    StatementPrepareError::Unexpected(
        match step {
            PrepareStep::Acquire => join("failed to build client from pool: ", detail),
            PrepareStep::Prepare => join("failed to prepare query: ", detail),
        },
    )
}

/// The error for a failure of the driver during an execute call.
pub fn exec_failure(step: ExecStep, statement_token: &str, detail: &str) -> (error:
    PreparedStatementExecError)
    ensures
        error.text() == exec_failure_text(step, statement_token@, detail@),
{
    PreparedStatementExecError::Unexpected(
        match step {
            ExecStep::Acquire => join("failed to build client from pool: ", detail),
            ExecStep::Execute => {
                let head = join3(
                    "failed to execute prepared statement with token [",
                    statement_token,
                    "]: ",
                );
                join(head.as_str(), detail)
            },
        },
    )
}

/// The position of the first row that failed, if one did.
pub open spec fn first_failure<R>(rows: Seq<Result<R, String>>) -> Option<int>
    decreases rows.len(),
{
    if rows.len() == 0 {
        None
    } else {
        match first_failure(rows.drop_last()) {
            Some(i) => Some(i),
            None => if rows.last() is Err {
                Some(rows.len() - 1)
            } else {
                None
            },
        }
    }
}

/// The first failure is a failed row with only good rows before it; without
/// one every row is good.
pub proof fn lemma_first_failure<R>(rows: Seq<Result<R, String>>)
    ensures
        match first_failure(rows) {
            Some(i) => 0 <= i < rows.len() && rows[i] is Err && forall|j: int|
                0 <= j < i ==> (#[trigger] rows[j]) is Ok,
            None => forall|j: int| 0 <= j < rows.len() ==> (#[trigger] rows[j]) is Ok,
        },
    decreases rows.len(),
{
    if rows.len() > 0 {
        let front = rows.drop_last();
        lemma_first_failure(front);
        match first_failure(front) {
            Some(i) => {
                assert(front[i] == rows[i]);
                assert forall|j: int| 0 <= j < i implies (#[trigger] rows[j]) is Ok by {
                    assert(front[j] == rows[j]);
                }
            },
            None => {
                assert forall|j: int| 0 <= j < rows.len() - 1 implies (#[trigger] rows[j]) is Ok by {
                    assert(front[j] == rows[j]);
                }
            },
        }
    }
}

/// Gathers the rows of a result: all of them in their order where every row is
/// good, and the first failure, as a decode error, where one is not. A result
/// is never handed on in part.
pub fn collect_rows<R>(rows: Vec<Result<R, String>>) -> (gathered: Result<Vec<R>, QueryError>)
    ensures
        match gathered {
            Ok(good) => first_failure(rows@) is None && good@.len() == rows@.len() && forall|
                j: int,
            |
                0 <= j < rows@.len() ==> (#[trigger] rows@[j]) == Ok::<R, String>(good@[j]),
            Err(error) => first_failure(rows@) is Some && error.text() == query_failure_text(
                QueryStep::Decode,
                rows@[first_failure(rows@)->0]->Err_0@,
            ),
        },
{
    let ghost all = rows@;
    let mut rest = rows;
    let mut backwards: Vec<R> = Vec::new();
    let mut failure: Option<String> = None;
    while rest.len() > 0
        invariant
            rest@.len() <= all.len(),
            rest@ == all.subrange(0, rest@.len() as int),
            match failure {
                Some(detail) => first_failure(all.subrange(rest@.len() as int, all.len() as int))
                    is Some && all[rest@.len() + first_failure(
                    all.subrange(rest@.len() as int, all.len() as int),
                )->0]->Err_0@ == detail@,
                None => first_failure(all.subrange(rest@.len() as int, all.len() as int))
                    is None && backwards@.len() == all.len() - rest@.len() && forall|j: int|
                    rest@.len() <= j < all.len() ==> (#[trigger] all[j]) == Ok::<R, String>(
                        backwards@[all.len() - 1 - j],
                    ),
            },
        decreases rest@.len(),
    {
        let ghost n = rest@.len() as int;
        let ghost tail = all.subrange(n, all.len() as int);
        let ghost longer = all.subrange(n - 1, all.len() as int);
        let ghost held = backwards@;
        let row = rest.pop().unwrap();
        proof {
            assert(row == all[n - 1]);
            assert(rest@ =~= all.subrange(0, n - 1));
            lemma_first_failure(tail);
            lemma_first_failure(longer);
            assert forall|j: int| 0 <= j < tail.len() implies tail[j] == longer[j + 1] by {}
            assert(longer[0] == all[n - 1]);
            match first_failure(longer) {
                Some(i) => {
                    if i > 0 {
                        assert(longer[i] == tail[i - 1]);
                        match first_failure(tail) {
                            Some(k) => {
                                assert(tail[k] == longer[k + 1]);
                                if k + 1 < i {
                                    assert(longer[k + 1] is Ok);
                                }
                                if i < k + 1 {
                                    assert(tail[i - 1] is Ok);
                                }
                            },
                            None => {
                                assert(tail[i - 1] is Ok);
                            },
                        }
                    }
                },
                None => {
                    assert(longer[0] is Ok);
                    match first_failure(tail) {
                        Some(k) => {
                            assert(longer[k + 1] is Ok);
                        },
                        None => {},
                    }
                },
            }
        }
        match row {
            Ok(good) => {
                if failure.is_none() {
                    backwards.push(good);
                    proof {
                        assert forall|j: int| n - 1 <= j < all.len() implies (#[trigger] all[j])
                            == Ok::<R, String>(backwards@[all.len() - 1 - j]) by {
                            if j >= n {
                                assert(backwards@[all.len() - 1 - j] == held[all.len() - 1 - j]);
                            }
                        }
                    }
                }
            },
            Err(detail) => {
                failure = Some(detail);
            },
        }
    }
    proof {
        assert(all.subrange(0, all.len() as int) =~= all);
    }
    match failure {
        Some(detail) => Err(query_failure(QueryStep::Decode, detail.as_str())),
        None => {
            let mut good: Vec<R> = Vec::new();
            let ghost taken = backwards@;
            while backwards.len() > 0
                invariant
                    backwards@.len() <= taken.len(),
                    backwards@ == taken.subrange(0, backwards@.len() as int),
                    good@.len() == taken.len() - backwards@.len(),
                    forall|j: int|
                        0 <= j < good@.len() ==> #[trigger] good@[j] == taken[taken.len() - 1 - j],
                decreases backwards@.len(),
            {
                let ghost before = good@;
                let row = backwards.pop().unwrap();
                good.push(row);
                proof {
                    assert forall|j: int| 0 <= j < good@.len() implies #[trigger] good@[j]
                        == taken[taken.len() - 1 - j] by {
                        if j < before.len() {
                            assert(good@[j] == before[j]);
                        }
                    }
                }
            }
            Ok(good)
        },
    }
}

/// How a caller selects a connection.
#[derive(Debug, PartialEq, Eq)]
pub enum ConnectionOptions {
    /// The managed template.
    Managed,
    /// The template of a named profile.
    NamedProfile(String),
    /// Options that the caller gives in full.
    Manual(ConnectionCreateOptions),
}

/// How a caller selects a connection, as plain values.
pub enum Selector {
    Managed,
    NamedProfile(Seq<char>),
    Manual(Template),
}

impl View for ConnectionOptions {
    type V = Selector;

    open spec fn view(&self) -> Selector {
        match self {
            ConnectionOptions::Managed => Selector::Managed,
            ConnectionOptions::NamedProfile(name) => Selector::NamedProfile(name@),
            ConnectionOptions::Manual(options) => Selector::Manual(options@),
        }
    }
}

/// The token of the tenant `source` for options that it gives in full:
/// `manual-<source>-<user>@<host>:<port>/<database>`, with `+tls` behind it
/// where TLS is asked for. The password is no part of it, so two sets of
/// options that differ in nothing else share a token.
pub open spec fn manual_token(options: Template, source: Seq<char>) -> Seq<char> {
    "manual-"@ + normalized(source) + "-"@ + options.username + "@"@ + options.host + ":"@
        + decimal_text(options.port as nat) + "/"@ + options.database + (if options.tls_required {
        "+tls"@
    } else {
        Seq::<char>::empty()
    })
}

/// The token that a selection of the tenant `source` resolves to. It depends
/// on the selection and the tenant alone.
pub open spec fn connection_token(selector: Selector, source: Seq<char>) -> Seq<char> {
    match selector {
        Selector::Managed => managed_token(None),
        Selector::NamedProfile(name) => profile_token(name, None),
        Selector::Manual(options) => manual_token(options, source),
    }
}

/// What is reported when a selection names a template that is not there.
pub open spec fn missing_details_text(selector: Selector) -> Seq<char> {
    match selector {
        Selector::NamedProfile(name) => "missing profile connection details, were PROFILE_"@
            + name + "_* named config values specified?"@,
        _ => "missing managed connection details, were MANAGED_* named config values specified?"@,
    }
}

/// What is reported when the pool of a new connection could not be made.
pub open spec fn pool_failure_text(error: PoolError) -> Seq<char> {
    "failed to create pool: "@ + pool_error_text(error)
}

impl ConnectionOptions {
    /// The token that this selection of the tenant `source_id` resolves to.
    pub fn connection_token(&self, source_id: &str) -> (token: String)
        ensures
            token@ == connection_token(self@, source_id@),
    {
        match self {
            ConnectionOptions::Managed => managed_connection_token_id(None),
            ConnectionOptions::NamedProfile(name) => named_profile_connection_token_id(
                name.as_str(),
                None,
            ),
            ConnectionOptions::Manual(options) => {
                let source = normalize(source_id);
                let mut token = join3("manual-", source.as_str(), "-");
                token.append(options.username.as_str());
                token.append("@");
                token.append(options.host.as_str());
                token.append(":");
                token.append(render_port(options.port).as_str());
                token.append("/");
                token.append(options.database.as_str());
                if options.tls_required {
                    token.append("+tls");
                } else {
                    assert(token@ + Seq::<char>::empty() =~= token@);
                }
                token
            },
        }
    }
}

/// What an execute call finds for a statement token.
pub enum Execution<S> {
    /// The statement and the pool to run it against.
    Ready { statement: S, pool: PoolHandle },
    /// No statement stands under the token.
    StatementNotFound,
    /// The statement is there, but the pool of its connection `owner` is gone.
    ConnectionNotFound { owner: Seq<char> },
}

impl<S> State<S> {
    /// What an execute call for `statement_token` finds in this state.
    pub open spec fn execution(self, statement_token: Seq<char>) -> Execution<S> {
        if !self.statements.contains_key(statement_token) {
            Execution::StatementNotFound
        } else if !self.pools.contains_key(self.statements[statement_token].owner) {
            Execution::ConnectionNotFound { owner: self.statements[statement_token].owner }
        } else {
            Execution::Ready {
                statement: self.statements[statement_token].statement,
                pool: self.pools[self.statements[statement_token].owner].handle,
            }
        }
    }

    /// The template that a connect call builds from, where it has to build:
    /// the stored one for a managed or profile selection, the caller's own for
    /// options given in full.
    pub open spec fn template_for(self, selector: Selector, token: Seq<char>) -> Option<Template> {
        match selector {
            Selector::Manual(options) => Some(options),
            _ => if self.templates.contains_key(token) {
                Some(self.templates[token])
            } else {
                None
            },
        }
    }

    /// How a connect call of the tenant `source` changes the state, and what it
    /// returns: the token, or the message of its error.
    ///
    /// A token that has a pool is returned as it is. Else the pool is built
    /// from the selection's template, with an identity of its own; a template
    /// that is missing or that no pool can be built from is an error and
    /// changes nothing.
    pub open spec fn connected(
        self,
        after: State<S>,
        source: Seq<char>,
        selector: Selector,
        outcome: Result<Seq<char>, Seq<char>>,
    ) -> bool {
        let token = connection_token(selector, source);
        if self.pools.contains_key(token) {
            after == self && outcome == Ok::<Seq<char>, Seq<char>>(token)
        } else {
            match self.template_for(selector, token) {
                None => after == self && outcome == Err::<Seq<char>, Seq<char>>(
                    missing_details_text(selector),
                ),
                Some(template) => if self.can_build(template) {
                    outcome == Ok::<Seq<char>, Seq<char>>(token) && after.pools.contains_key(token)
                        && after == self.with_pool(token, after.pools[token].handle)
                } else {
                    after == self && outcome == Err::<Seq<char>, Seq<char>>(
                        pool_failure_text(self.refusal(template)),
                    )
                },
            }
        }
    }
}

/// What a connect call returned, as plain values.
pub open spec fn connect_outcome(result: Result<String, CreateConnectionError>) -> Result<
    Seq<char>,
    Seq<char>,
> {
    match result {
        Ok(token) => Ok(token@),
        Err(error) => Err(error.text()),
    }
}

/// The token that a managed query of the caller `source` runs against: the
/// caller's own managed token, whatever else it may hold. A caller that is not
/// known cannot query.
pub fn managed_query_token(source: Option<&str>) -> (token: Result<String, QueryError>)
    ensures
        match token {
            Ok(t) => source matches Some(s) && t@ == managed_token(Some(s@)),
            Err(error) => source is None && error.text() == missing_source_text(),
        },
{
    match source {
        Some(source_id) => Ok(managed_connection_token_id(Some(source_id))),
        None => Err(QueryError::Unexpected("failed to get source ID from context".to_owned())),
    }
}

impl<S> Registry<S> {
    /// The pool that a query against `connection_token` runs on.
    pub fn query_pool(&self, connection_token: &str) -> (pool: Result<&PoolHandle, QueryError>)
        ensures
            match pool {
                Ok(handle) => self@.pools.contains_key(connection_token@) && *handle
                    == self@.pools[connection_token@].handle,
                Err(error) => !self@.pools.contains_key(connection_token@) && error.text()
                    == missing_query_pool_text(connection_token@),
            },
    {
        match self.get_pool(connection_token) {
            Some(handle) => Ok(handle),
            None => Err(
                QueryError::Unexpected(
                    join3(
                        "missing connection pool for token [",
                        connection_token,
                        "] while querying",
                    ),
                ),
            ),
        }
    }

    /// The pool that a statement for `connection_token` is prepared on.
    pub fn prepare_pool(&self, connection_token: &str) -> (pool: Result<
        &PoolHandle,
        StatementPrepareError,
    >)
        ensures
            match pool {
                Ok(handle) => self@.pools.contains_key(connection_token@) && *handle
                    == self@.pools[connection_token@].handle,
                Err(error) => !self@.pools.contains_key(connection_token@) && error.text()
                    == missing_prepare_pool_text(connection_token@),
            },
    {
        match self.get_pool(connection_token) {
            Some(handle) => Ok(handle),
            None => Err(
                StatementPrepareError::Unexpected(
                    join3("failed to find connection pool for token [", connection_token, "]"),
                ),
            ),
        }
    }

    /// The statement under `statement_token` and the pool to execute it on.
    ///
    /// The pool is looked up under the token that the statement was prepared
    /// against; whether that pool is still the one of the time is not asked.
    pub fn execute_target(&self, statement_token: &str) -> (target: Result<
        (&S, &PoolHandle),
        PreparedStatementExecError,
    >)
        ensures
            match target {
                Ok((statement, pool)) => self@.execution(statement_token@) == (Execution::Ready {
                    statement: *statement,
                    pool: *pool,
                }),
                Err(error) => match self@.execution(statement_token@) {
                    Execution::Ready { .. } => false,
                    Execution::StatementNotFound => error.text() == missing_statement_text(
                        statement_token@,
                    ),
                    Execution::ConnectionNotFound { owner } => error.text()
                        == missing_statement_pool_text(owner, statement_token@),
                },
            },
    {
        let (statement, owner) = match self.get_statement(statement_token) {
            Some(found) => found,
            None => {
                return Err(
                    PreparedStatementExecError::Unexpected(
                        join3(
                            "missing prepared statement with statement ID [",
                            statement_token,
                            "]",
                        ),
                    ),
                );
            },
        };
        match self.get_pool(owner.as_str()) {
            Some(pool) => Ok((statement, pool)),
            None => {
                let head = join3("missing connection pool for token [", owner.as_str(), "], statement ID [");
                Err(PreparedStatementExecError::Unexpected(join3(head.as_str(), statement_token, "]")))
            },
        }
    }

    /// Resolves a connect call of the caller `source` to a token, and makes
    /// sure that the token has a pool.
    pub fn create_connection(&mut self, source: Option<&str>, opts: ConnectionOptions) -> (created:
        Result<String, CreateConnectionError>)
        ensures
            final(self)@.wf(),
            match source {
                Some(s) => old(self)@.connected(final(self)@, s@, opts@, connect_outcome(created)),
                None => final(self)@ == old(self)@ && connect_outcome(created) == Err::<
                    Seq<char>,
                    Seq<char>,
                >(missing_source_text()),
            },
    {
        let _ = self.pools_built();
        let source_id = match source {
            Some(source_id) => source_id,
            None => {
                return Err(
                    CreateConnectionError::Unexpected(
                        "failed to get source ID from context".to_owned(),
                    ),
                );
            },
        };
        let token = opts.connection_token(source_id);
        if self.has_pool(token.as_str()) {
            return Ok(token);
        }
        let create_connection_opts = match opts {
            ConnectionOptions::Managed => match self.get_template(token.as_str()) {
                Some(template) => template.clone(),
                None => {
                    return Err(
                        CreateConnectionError::Unexpected(
                            "missing managed connection details, were MANAGED_* named config values specified?".to_owned(),
                        ),
                    );
                },
            },
            ConnectionOptions::NamedProfile(name) => match self.get_template(token.as_str()) {
                Some(template) => template.clone(),
                None => {
                    return Err(
                        CreateConnectionError::Unexpected(
                            join3(
                                "missing profile connection details, were PROFILE_",
                                name.as_str(),
                                "_* named config values specified?",
                            ),
                        ),
                    );
                },
            },
            ConnectionOptions::Manual(options) => options,
        };
        match self.ensure_pool(token.as_str(), create_connection_opts) {
            Ok(token) => Ok(token),
            Err(error) => Err(
                CreateConnectionError::Unexpected(
                    join("failed to create pool: ", error.message().as_str()),
                ),
            ),
        }
    }
}

/// A statement whose pool was removed is found without its connection: the
/// execute call fails with the error for a missing connection, and neither
/// finds the statement missing nor runs.
pub proof fn lemma_execute_after_pool_removed<S>(state: State<S>, statement_token: Seq<char>)
    requires
        state.statements.contains_key(statement_token),
    ensures
        state.without_pool(state.statements[statement_token].owner).execution(statement_token)
            == (Execution::<S>::ConnectionNotFound {
            owner: state.statements[statement_token].owner,
        }),
{
}

/// A connect call that succeeded leaves a pool under its token, so the same
/// call made again returns the same token and builds nothing.
pub proof fn lemma_connect_is_idempotent<S>(
    before: State<S>,
    between: State<S>,
    after: State<S>,
    source: Seq<char>,
    selector: Selector,
    first: Result<Seq<char>, Seq<char>>,
    second: Result<Seq<char>, Seq<char>>,
)
    requires
        before.connected(between, source, selector, first),
        between.connected(after, source, selector, second),
        first is Ok,
    ensures
        second == first,
        after == between,
        after.pools_built == between.pools_built,
{
}

} // verus!
