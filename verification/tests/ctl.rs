use sqldb_postgres::ctl::{
    CtlResponse, ScaleComponentCommand, StartProviderCommand, StopHostCommand,
    StopProviderCommand, UpdateComponentCommand,
};
use sqldb_postgres::otel::OtelConfig;

#[test]
fn ok_carries_the_payload() {
    let reply = CtlResponse::ok(5);
    assert!(reply.success);
    assert_eq!(reply.message, "");
    assert_eq!(reply.response, Some(5));
    assert!(reply.succeeded());
    assert_eq!(reply.into_data(), Some(5));
}

#[test]
fn success_has_no_payload() {
    let reply = CtlResponse::success();
    assert!(reply.success);
    assert_eq!(reply.message, "");
    assert_eq!(reply.response, None);
}

#[test]
fn error_carries_the_message() {
    let reply = CtlResponse::error("no such host");
    assert!(!reply.success);
    assert!(!reply.succeeded());
    assert_eq!(reply.message, "no such host");
    assert_eq!(reply.response, None);
    assert_eq!(reply.into_data(), None);
}

#[test]
fn commands_default_to_empty() {
    let scale = ScaleComponentCommand::default();
    assert_eq!(scale.component_ref, "");
    assert_eq!(scale.component_id, "");
    assert_eq!(scale.annotations, None);
    assert_eq!(scale.max_instances, 0);
    assert_eq!(scale.host_id, "");
    assert!(scale.config.is_empty());
    assert!(!scale.allow_update);
    let start = StartProviderCommand::default();
    assert_eq!(start.provider_id, "");
    assert_eq!(start.provider_ref, "");
    assert_eq!(start.host_id, "");
    assert_eq!(start.annotations, None);
    assert!(start.config.is_empty());
    assert_eq!(StopHostCommand::default(), StopHostCommand { host_id: String::new(), timeout: None });
    assert_eq!(
        StopProviderCommand::default(),
        StopProviderCommand { host_id: String::new(), provider_id: String::new() }
    );
    let update = UpdateComponentCommand::default();
    assert_eq!(update.component_id, "");
    assert_eq!(update.new_component_ref, "");
    assert_eq!(update.annotations, None);
    assert_eq!(update.clone(), update);
    let otel = OtelConfig::default();
    assert_eq!(otel.traces_exporter, None);
    assert_eq!(otel.exporter_otlp_endpoint, None);
}
