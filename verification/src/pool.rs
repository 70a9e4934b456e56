//! Live connection pools, and the calls that make them.

use vstd::prelude::*;
use crate::config::ConnectionCreateOptions;

verus! {

/// A live, shareable handle over the physical connections to one database: a
/// `deadpool_postgres::Pool`.
///
/// The handle is opaque to the verifier. Nothing stated in this crate depends on
/// what is inside it; the registry tells pools apart by the identities that it
/// gives them, not by their contents.
#[verifier::external_body]
pub struct PoolHandle {
    pub pool: deadpool_postgres::Pool,
}

impl PoolHandle {
    /// `Clone::clone` of `deadpool_postgres::Pool`: a second handle on the same
    /// physical pool. The pool counts its handles; no connection is opened.
    #[verifier::external_body]
    pub(crate) fn share(&self) -> (shared: PoolHandle)
        ensures
            shared == *self,
    {
        PoolHandle { pool: self.pool.clone() }
    }
}

/// Whether the driver accepts a template for a pool: it refuses one whose
/// database name is empty, and no other.
pub open spec fn buildable(database: Seq<char>) -> bool {
    database.len() > 0
}

/// `deadpool_postgres::Config::create_pool` without TLS, on a configuration
/// that holds the template's host, port, user, password and database name.
///
/// The call opens no connection. With these fields set and a runtime named, it
/// fails on an empty database name and on nothing else.
#[verifier::external_body]
pub(crate) fn create_plain_pool(options: &ConnectionCreateOptions) -> (pool: Option<PoolHandle>)
    ensures
        pool is Some <==> buildable(options.database@),
{
    let mut cfg = deadpool_postgres::Config::new();
    cfg.host = Some(options.host.clone());
    cfg.port = Some(options.port);
    cfg.user = Some(options.username.clone());
    cfg.password = Some(options.password.clone());
    cfg.dbname = Some(options.database.clone());
    cfg.create_pool(Some(deadpool_postgres::Runtime::Tokio1), tokio_postgres::NoTls)
        .ok()
        .map(|pool| PoolHandle { pool })
}

/// `deadpool_postgres::Config::create_pool` with a rustls connector that
/// trusts no root certificate and presents no client certificate, on the same
/// configuration as `create_plain_pool`.
///
/// The call opens no connection, and fails on an empty database name and on
/// nothing else. `rustls::ClientConfig::builder` takes the process's default
/// crypto provider; this crate builds rustls with the `ring` provider alone,
/// so that one is always found.
#[verifier::external_body]
pub(crate) fn create_tls_pool(options: &ConnectionCreateOptions) -> (pool: Option<PoolHandle>)
    ensures
        pool is Some <==> buildable(options.database@),
{
    let mut cfg = deadpool_postgres::Config::new();
    cfg.host = Some(options.host.clone());
    cfg.port = Some(options.port);
    cfg.user = Some(options.username.clone());
    cfg.password = Some(options.password.clone());
    cfg.dbname = Some(options.database.clone());
    let tls = rustls::ClientConfig::builder()
        .with_root_certificates(rustls::RootCertStore::empty())
        .with_no_client_auth();
    cfg.create_pool(
        Some(deadpool_postgres::Runtime::Tokio1),
        tokio_postgres_rustls::MakeRustlsConnect::new(tls),
    ).ok().map(|pool| PoolHandle { pool })
}

} // verus!
