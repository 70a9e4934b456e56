use sqldb_postgres::config::ConnectionCreateOptions;
use sqldb_postgres::lifecycle::{AttachError, AttachOutcome};
use sqldb_postgres::registry::{PoolError, Registry};
use sqldb_postgres::text_map::TextMap;

fn template(database: &str, tls: bool) -> ConnectionCreateOptions {
    ConnectionCreateOptions {
        host: "db".to_string(),
        port: 5432,
        username: "u".to_string(),
        password: "p".to_string(),
        database: database.to_string(),
        tls_required: tls,
    }
}

fn same_pool(registry: &Registry<u32>, a: &str, b: &str) -> bool {
    std::ptr::eq(
        registry.get_pool(a).unwrap().pool.manager(),
        registry.get_pool(b).unwrap().pool.manager(),
    )
}

fn managed_config() -> TextMap<String> {
    let mut config = TextMap::new();
    for (key, value) in [
        ("MANAGED_HOST", "db"),
        ("MANAGED_PORT", "5432"),
        ("MANAGED_USERNAME", "u"),
        ("MANAGED_PASSWORD", "p"),
        ("MANAGED_DATABASE", "d"),
        ("MANAGED_TLS_REQUIRED", "false"),
    ] {
        config.insert(key.to_string(), value.to_string());
    }
    config
}

fn link_config(profile: Option<&str>) -> TextMap<String> {
    let mut config = TextMap::new();
    if let Some(name) = profile {
        config.insert("CONNECTION_PROFILE".to_string(), name.to_string());
    }
    config
}

#[test]
fn new_registry_is_empty() {
    let registry: Registry<u32> = Registry::new();
    assert_eq!(registry.pools_built(), 0);
    assert!(!registry.has_pool("managed"));
    assert!(registry.get_pool("managed").is_none());
    assert!(registry.get_template("managed").is_none());
    assert!(registry.get_statement("s").is_none());
    assert_eq!(registry.pool_id("managed"), None);
}

#[test]
fn ensure_pool_builds_one_pool_per_token() {
    let mut registry: Registry<u32> = Registry::new();
    assert_eq!(registry.ensure_pool("a", template("d", false)), Ok("a".to_string()));
    assert_eq!(registry.pools_built(), 1);
    assert_eq!(registry.pool_id("a"), Some(0));
    assert!(registry.has_pool("a"));
    assert_eq!(registry.ensure_pool("a", template("other", true)), Ok("a".to_string()));
    assert_eq!(registry.pools_built(), 1);
    assert_eq!(registry.pool_id("a"), Some(0));
    assert_eq!(registry.ensure_pool("b", template("d", false)), Ok("b".to_string()));
    assert_eq!(registry.pools_built(), 2);
    assert_eq!(registry.pool_id("b"), Some(1));
}

#[test]
fn ensure_pool_keeps_the_first_pool() {
    let mut registry: Registry<u32> = Registry::new();
    registry.ensure_pool("a", template("first", false)).unwrap();
    let before = registry.get_pool("a").unwrap().pool.clone();
    registry.ensure_pool("a", template("second", false)).unwrap();
    let after = registry.get_pool("a").unwrap().pool.clone();
    assert!(std::ptr::eq(before.manager(), after.manager()));
    assert!(format!("{:?}", after.manager()).contains("first"));
}

#[test]
fn built_pool_carries_the_template() {
    let mut registry: Registry<u32> = Registry::new();
    let options = ConnectionCreateOptions {
        host: "pg.example".to_string(),
        port: 6543,
        username: "alice".to_string(),
        password: "secret".to_string(),
        database: "orders".to_string(),
        tls_required: false,
    };
    registry.ensure_pool("a", options).unwrap();
    let described = format!("{:?}", registry.get_pool("a").unwrap().pool.manager());
    assert!(described.contains("pg.example"), "{described}");
    assert!(described.contains("6543"), "{described}");
    assert!(described.contains("alice"), "{described}");
    assert!(described.contains("orders"), "{described}");
}

#[test]
fn tls_pool_is_built_where_the_template_asks_for_it() {
    let mut registry: Registry<u32> = Registry::new();
    assert_eq!(registry.ensure_pool("t", template("d", true)), Ok("t".to_string()));
    assert_eq!(registry.pools_built(), 1);
    assert!(registry.get_pool("t").is_some());
}

#[test]
fn empty_database_is_refused() {
    let mut registry: Registry<u32> = Registry::new();
    assert_eq!(registry.ensure_pool("a", template("", false)), Err(PoolError::Plain));
    assert_eq!(registry.ensure_pool("a", template("", true)), Err(PoolError::Tls));
    assert_eq!(registry.pools_built(), 0);
    assert!(!registry.has_pool("a"));
}

#[test]
fn admit_pool_states_each_outcome() {
    let mut registry: Registry<u32> = Registry::new();
    assert_eq!(registry.admit_pool("a", None, false), Err(PoolError::Plain));
    assert_eq!(registry.admit_pool("a", None, true), Err(PoolError::Tls));
    registry.ensure_pool("seed", template("d", false)).unwrap();
    let handle = sqldb_postgres::pool::PoolHandle {
        pool: registry.get_pool("seed").unwrap().pool.clone(),
    };
    assert_eq!(registry.admit_pool("a", Some(handle), false), Ok("a".to_string()));
    assert_eq!(registry.pool_id("a"), Some(1));
    assert_eq!(registry.admit_pool("a", None, false), Ok("a".to_string()));
    assert_eq!(registry.pools_built(), 2);
}

#[test]
fn templates_are_last_write_wins() {
    let mut registry: Registry<u32> = Registry::new();
    registry.put_template("managed".to_string(), template("one", false));
    registry.put_template("managed".to_string(), template("two", true));
    let stored = registry.get_template("managed").unwrap();
    assert_eq!(stored.database, "two");
    assert!(stored.tls_required);
    assert!(registry.get_template("profile-x").is_none());
}

#[test]
fn remove_pool_leaves_statements() {
    let mut registry: Registry<u32> = Registry::new();
    registry.ensure_pool("a", template("d", false)).unwrap();
    let token = registry.register_statement(7, "a");
    registry.remove_pool("a");
    assert!(!registry.has_pool("a"));
    assert_eq!(registry.get_statement(&token), Some((&7, &"a".to_string())));
    registry.remove_pool("a");
    assert_eq!(registry.pools_built(), 1);
}

#[test]
fn statement_tokens_are_fresh() {
    let mut registry: Registry<u32> = Registry::new();
    let first = registry.register_statement(1, "a");
    let second = registry.register_statement(2, "a");
    assert_ne!(first, second);
    for token in [&first, &second] {
        let id = token.strip_prefix("prepared-statement-").expect("the prefix");
        assert_eq!(id.len(), 26);
        assert!(id.chars().all(|c| "0123456789ABCDEFGHJKMNPQRSTVWXYZ".contains(c)));
    }
    assert_eq!(registry.get_statement(&first), Some((&1, &"a".to_string())));
    assert_eq!(registry.get_statement(&second), Some((&2, &"a".to_string())));
}

#[test]
fn admit_statement_overwrites() {
    let mut registry: Registry<&str> = Registry::new();
    registry.admit_statement("s".to_string(), "one", "a");
    registry.admit_statement("s".to_string(), "two", "b");
    assert_eq!(registry.get_statement("s"), Some((&"two", &"b".to_string())));
}

#[test]
fn purge_drops_the_statements_of_one_owner() {
    let mut registry: Registry<u32> = Registry::new();
    for (token, owner) in [("1", "a"), ("2", "b"), ("3", "a"), ("4", "a"), ("5", "c")] {
        registry.admit_statement(token.to_string(), 0, owner);
    }
    registry.purge_statements("a");
    assert!(registry.get_statement("1").is_none());
    assert!(registry.get_statement("3").is_none());
    assert!(registry.get_statement("4").is_none());
    assert_eq!(registry.get_statement("2"), Some((&0, &"b".to_string())));
    assert_eq!(registry.get_statement("5"), Some((&0, &"c".to_string())));
    registry.purge_statements("nobody");
    assert!(registry.get_statement("2").is_some());
}

#[test]
fn drain_all_empties_the_three_tables() {
    let mut registry: Registry<u32> = Registry::new();
    registry.put_template("managed".to_string(), template("d", false));
    registry.ensure_pool("a", template("d", false)).unwrap();
    let token = registry.register_statement(1, "a");
    registry.drain_all();
    assert!(registry.get_template("managed").is_none());
    assert!(!registry.has_pool("a"));
    assert!(registry.get_statement(&token).is_none());
    assert_eq!(registry.pools_built(), 1);
    registry.ensure_pool("a", template("d", false)).unwrap();
    assert_eq!(registry.pool_id("a"), Some(1));
}

#[test]
fn ingest_stores_managed_and_profile_templates() {
    let mut config = managed_config();
    for (key, value) in [
        ("PROFILE_Main_HOST", "h"),
        ("PROFILE_Main_PORT", "1"),
        ("PROFILE_Main_USERNAME", "u"),
        ("PROFILE_Main_PASSWORD", "p"),
        ("PROFILE_Main_DATABASE", "d"),
        ("PROFILE_Main_TLS_REQUIRED", "yes"),
        ("PROFILE_half_HOST", "h"),
    ] {
        config.insert(key.to_string(), value.to_string());
    }
    let mut registry: Registry<u32> = Registry::new();
    registry.put_template("other".to_string(), template("keep", false));
    registry.ingest_connection_configs_from_map(&config);
    assert_eq!(registry.get_template("managed").unwrap().host, "db");
    let main = registry.get_template("profile-main").unwrap();
    assert_eq!(main.port, 1);
    assert!(main.tls_required);
    assert!(registry.get_template("profile-half").is_none());
    assert!(registry.get_template("profile-Main").is_none());
    assert_eq!(registry.get_template("other").unwrap().database, "keep");
    assert_eq!(registry.pools_built(), 0);
}

#[test]
fn init_with_nothing_to_ingest_changes_nothing() {
    let mut registry: Registry<u32> = Registry::new();
    registry.put_template("managed".to_string(), template("keep", false));
    registry.init(&TextMap::new());
    assert_eq!(registry.get_template("managed").unwrap().database, "keep");
}

#[test]
fn attach_gives_the_tenant_its_own_managed_pool() {
    let mut registry: Registry<u32> = Registry::new();
    registry.init(&managed_config());
    registry.ensure_pool("managed", template("d", false)).unwrap();
    let outcome = registry.receive_link_config_as_target("svc-a", &link_config(None));
    assert_eq!(outcome, AttachOutcome { profile: None, managed: Ok(()) });
    assert!(outcome.managed_attached());
    assert!(!outcome.profile_attached());
    assert!(registry.has_pool("managed-svc-a"));
    assert_ne!(registry.pool_id("managed-svc-a"), registry.pool_id("managed"));
    assert!(!same_pool(&registry, "managed-svc-a", "managed"));
    let again = registry.receive_link_config_as_target("SVC-A ", &link_config(None));
    assert!(again.managed_attached());
    assert_eq!(registry.pools_built(), 2);
}

#[test]
fn attach_without_managed_template_reports_it() {
    let mut registry: Registry<u32> = Registry::new();
    let outcome = registry.receive_link_config_as_target("svc-a", &link_config(None));
    assert_eq!(outcome.managed, Err(AttachError::MissingTemplate));
    assert!(!registry.has_pool("managed-svc-a"));
    assert_eq!(
        AttachError::MissingTemplate.message(""),
        "failed to find connection options for token [managed]"
    );
}

#[test]
fn attach_with_unbuildable_template_reports_the_pool_error() {
    let mut registry: Registry<u32> = Registry::new();
    registry.put_template("managed".to_string(), template("", true));
    let outcome = registry.receive_link_config_as_target("svc-a", &link_config(None));
    assert_eq!(outcome.managed, Err(AttachError::Pool(PoolError::Tls)));
    assert_eq!(
        AttachError::Pool(PoolError::Tls).message(""),
        "failed to create TLS-enabled connection pool"
    );
    assert_eq!(PoolError::Plain.message(), "failed to create non-TLS postgres pool");
    assert_eq!(
        PoolError::Exhausted.message(),
        "failed to create postgres pool: no pool identity is left"
    );
}

#[test]
fn attach_joins_the_profile_pool() {
    let mut registry: Registry<u32> = Registry::new();
    registry.init(&managed_config());
    registry.ensure_pool("profile-main", template("d", false)).unwrap();
    let outcome = registry.receive_link_config_as_target("svc-a", &link_config(Some(" Main")));
    assert_eq!(outcome, AttachOutcome { profile: Some(Ok(())), managed: Ok(()) });
    assert!(outcome.profile_attached());
    assert_eq!(registry.pool_id("profile-main-svc-a"), registry.pool_id("profile-main"));
    assert!(same_pool(&registry, "profile-main-svc-a", "profile-main"));
    assert!(!same_pool(&registry, "managed-svc-a", "profile-main"));
    assert_eq!(registry.pools_built(), 2);
}

#[test]
fn attach_with_missing_profile_still_provisions_the_managed_pool() {
    let mut registry: Registry<u32> = Registry::new();
    registry.init(&managed_config());
    let outcome = registry.receive_link_config_as_target("svc-a", &link_config(Some("ghost")));
    assert_eq!(outcome.profile, Some(Err(AttachError::MissingProfile)));
    assert_eq!(outcome.managed, Ok(()));
    assert!(!registry.has_pool("profile-ghost-svc-a"));
    assert!(registry.has_pool("managed-svc-a"));
    assert_eq!(
        AttachError::MissingProfile.message("ghost"),
        "no existing named profile [ghost] connection (was initial config specified?)"
    );
}

#[test]
fn profile_steps_alone() {
    let mut registry: Registry<u32> = Registry::new();
    assert_eq!(
        registry.create_named_profile_connection_config_for_source("p", "s"),
        Err(AttachError::MissingProfile)
    );
    assert_eq!(
        registry.create_managed_connection_config_for_source("s"),
        Err(AttachError::MissingTemplate)
    );
    registry.ensure_pool("profile-p", template("d", false)).unwrap();
    assert_eq!(registry.create_named_profile_connection_config_for_source("p", "s"), Ok(()));
    assert_eq!(registry.pool_id("profile-p-s"), Some(0));
}

#[test]
fn detach_releases_the_managed_pool_and_its_statements() {
    let mut registry: Registry<u32> = Registry::new();
    registry.init(&managed_config());
    registry.ensure_pool("profile-main", template("d", false)).unwrap();
    registry.receive_link_config_as_target("svc-a", &link_config(Some("main")));
    registry.receive_link_config_as_target("svc-b", &link_config(None));
    let mine = registry.register_statement(1, "managed-svc-a");
    let theirs = registry.register_statement(2, "managed-svc-b");
    let shared = registry.register_statement(3, "profile-main-svc-a");
    registry.delete_link("Svc-A");
    assert!(!registry.has_pool("managed-svc-a"));
    assert!(registry.get_statement(&mine).is_none());
    assert!(registry.has_pool("managed-svc-b"));
    assert!(registry.get_statement(&theirs).is_some());
    assert!(registry.has_pool("profile-main-svc-a"));
    assert!(registry.has_pool("profile-main"));
    assert!(registry.get_statement(&shared).is_some());
    assert!(registry.get_template("managed").is_some());
    registry.delete_link("never-attached");
    assert!(registry.has_pool("managed-svc-b"));
}

#[test]
fn shutdown_drains_everything() {
    let mut registry: Registry<u32> = Registry::new();
    registry.init(&managed_config());
    registry.receive_link_config_as_target("svc-a", &link_config(None));
    let token = registry.register_statement(1, "managed-svc-a");
    registry.shutdown();
    assert!(!registry.has_pool("managed-svc-a"));
    assert!(registry.get_statement(&token).is_none());
    assert!(registry.get_template("managed").is_none());
}
