use sqldb_postgres::cli::link::{
    delete_link_failure, link_name_or_default, link_put_failure, link_put_output,
    link_put_progress, links_or_none,
};
use sqldb_postgres::cli::output::{
    default_timeout_ms, CliConnectionOpts, CommandOutput, OutputValue,
};
use sqldb_postgres::cli::provider::{
    file_reference, file_uri_path, plan_resolve_ref, resolve_failure, RefPlan,
};
use sqldb_postgres::cli::session::{
    classify_start_failure, current_file_version, host_id_in_line, jetstream_dir_name, nats_host,
    nats_listen_address, nats_port, FileVersion, HostIdLine, Service, SessionMetadata,
    StartFailure, WashDevSession, SESSION_ID_LEN,
};
use sqldb_postgres::cli::start::{
    auction_failure, auction_host, bad_host_id, component_start_output, provider_start_requested,
    provider_started, start_ack_refusal, start_failed, start_timeout_ms, start_wait_timed_out,
    Workload,
};
use sqldb_postgres::cli::stop::{
    after_stop_ack, component_on_host, find_component, host_running_component,
    host_runs_provider, hosts_with_provider, no_host_runs_component, plan_stop_hosts,
    should_remove_pid_file, single_match, stop_ack_refusal, stop_component_output,
    stop_host_output, stop_provider_output, stopped_hosts, AfterStopAck, ComponentDescription,
    FindIdError, HostInventory, Match, StopPlan,
};
use sqldb_postgres::ctl::CtlResponse;
use sqldb_postgres::text::{contains_text, find_text, starts_with};

fn text(value: &str) -> OutputValue {
    OutputValue::Text(value.to_string())
}

fn entries(output: &CommandOutput) -> Vec<(String, OutputValue)> {
    let mut all = Vec::new();
    for i in 0..output.map.len() {
        all.push((output.map.key_at(i).clone(), output.map.value_at(i).clone()));
    }
    all.sort_by(|a, b| a.0.cmp(&b.0));
    all
}

fn inventory(host: &str, components: &[(&str, &str)], providers: &[&str]) -> HostInventory {
    HostInventory {
        host_id: host.to_string(),
        friendly_name: format!("friendly-{host}"),
        components: components
            .iter()
            .map(|(id, image)| ComponentDescription {
                id: id.to_string(),
                image_ref: image.to_string(),
            })
            .collect(),
        providers: providers.iter().map(|p| p.to_string()).collect(),
    }
}

#[test]
fn text_search() {
    assert!(starts_with("file://x", "file://"));
    assert!(starts_with("abc", ""));
    assert!(!starts_with("fil", "file://"));
    assert!(!starts_with("xfile://", "file://"));
    assert_eq!(find_text("a host_id=\"N\"", "host_id=\""), Some(2));
    assert_eq!(find_text("éé-x-x", "-x"), Some(2));
    assert_eq!(find_text("abc", ""), Some(0));
    assert_eq!(find_text("abc", "abcd"), None);
    assert_eq!(find_text("abc", "d"), None);
    assert!(contains_text("port already listening on 4222", "already listening"));
    assert!(!contains_text("already listen", "already listening"));
}

#[test]
fn connection_opts_default_to_the_default_timeout() {
    let opts = CliConnectionOpts::default();
    assert_eq!(opts.timeout_ms, 2000);
    assert_eq!(default_timeout_ms(), 2000);
    assert_eq!(opts.ctl_host, None);
    assert_eq!(opts.lattice, None);
}

#[test]
fn output_from_key_and_text() {
    let output = CommandOutput::from_key_and_text("result", "done".to_string());
    assert_eq!(output.text, "done");
    assert_eq!(entries(&output), vec![("result".to_string(), text("done"))]);
    assert_eq!(OutputValue::from_option(None), OutputValue::Null);
    assert_eq!(OutputValue::from_option(Some("x".to_string())), text("x"));
}

#[test]
fn link_put_reports() {
    assert_eq!(link_name_or_default(None), "default");
    assert_eq!(link_name_or_default(Some("mine".to_string())), "mine");
    assert_eq!(link_put_progress("a", "b"), "Defining link a -> b ... ");
    assert_eq!(link_put_failure(Err("no route".to_string())), Some("no route".to_string()));
    assert_eq!(link_put_failure(Ok(CtlResponse::success())), None);
    assert_eq!(link_put_failure(Ok(CtlResponse::error("denied"))), Some("denied".to_string()));
    let output = link_put_output("a", "b", None).ok().unwrap();
    assert_eq!(output.text, "Published link (a) -> (b) successfully");
    assert_eq!(
        entries(&output),
        vec![("source_id".to_string(), text("a")), ("target".to_string(), text("b"))]
    );
    assert_eq!(
        link_put_output("a", "b", Some("denied".to_string())).err().unwrap(),
        "Error putting link: denied"
    );
    assert_eq!(
        delete_link_failure("src", "default", "wasi", "http"),
        "Failed to remove link from src on wasi:http with link name default"
    );
}

#[test]
fn query_without_data_gives_no_links() {
    let none: CtlResponse<Vec<u8>> = CtlResponse { success: true, message: String::new(), response: None };
    assert_eq!(links_or_none(none), Vec::<u8>::new());
    assert_eq!(links_or_none(CtlResponse::ok(vec![1u8, 2])), vec![1, 2]);
}

#[test]
fn start_timeouts() {
    assert_eq!(start_timeout_ms(Workload::Provider, 2000), 60_000);
    assert_eq!(start_timeout_ms(Workload::Component, 2000), 10_000);
    assert_eq!(start_timeout_ms(Workload::Provider, 1999), 1999);
    assert_eq!(start_timeout_ms(Workload::Component, 0), 0);
    assert_eq!(start_timeout_ms(Workload::Component, 60_000), 60_000);
}

#[test]
fn auction_picks_the_first_host_named() {
    let none: Vec<CtlResponse<String>> = vec![];
    assert_eq!(
        auction_host(Workload::Provider, "ref", &none),
        Err("No suitable hosts found for provider ref".to_string())
    );
    assert_eq!(
        auction_host(Workload::Component, "ref", &none),
        Err("No suitable hosts found for component ref".to_string())
    );
    let empty = vec![
        CtlResponse { success: true, message: String::new(), response: None },
        CtlResponse { success: false, message: "x".to_string(), response: None },
    ];
    assert_eq!(
        auction_host(Workload::Provider, "ref", &empty),
        Err("No suitable hosts found".to_string())
    );
    let some = vec![
        CtlResponse { success: true, message: String::new(), response: None },
        CtlResponse::ok("NB".to_string()),
        CtlResponse::ok("NC".to_string()),
    ];
    assert_eq!(auction_host(Workload::Provider, "ref", &some), Ok(&"NB".to_string()));
}

#[test]
fn start_reports() {
    assert_eq!(bad_host_id("x"), "Failed to parse host id: x");
    assert_eq!(
        auction_failure(Workload::Provider, "ref", "default"),
        "Failed to auction provider ref with link name default to hosts in lattice"
    );
    assert_eq!(
        auction_failure(Workload::Component, "ref", "default"),
        "Failed to auction component ref to hosts in lattice"
    );
    assert_eq!(start_ack_refusal(&CtlResponse::success()), None);
    assert_eq!(
        start_ack_refusal(&CtlResponse::error("busy")),
        Some("Start provider ack not accepted: busy".to_string())
    );
    assert_eq!(
        start_wait_timed_out("ref", "NH"),
        "Timed out waiting for start event for provider ref on host NH"
    );
    assert_eq!(start_failed("ref", "NH"), "Failed starting provider ref on host NH");
    let requested = provider_start_requested("ref", "default", "NH");
    assert_eq!(requested.text, "Start provider request received: ref");
    assert_eq!(
        entries(&requested),
        vec![
            ("host_id".to_string(), text("NH")),
            ("link_name".to_string(), text("default")),
            ("provider_ref".to_string(), text("ref")),
            ("result".to_string(), text("Start provider request received: ref")),
        ]
    );
    let started = provider_started("pid", "ref", "NH");
    assert_eq!(started.text, "Provider [pid] (ref: [ref]) started on host [NH]");
    assert_eq!(
        entries(&started),
        vec![
            ("host_id".to_string(), text("NH")),
            ("provider_id".to_string(), text("pid")),
            ("provider_ref".to_string(), text("ref")),
            ("result".to_string(), text("Provider [pid] (ref: [ref]) started on host [NH]")),
        ]
    );
    assert_eq!(
        component_start_output(true, "cid", "ref", "NH").text,
        "Start component [ref] request received on host [NH]"
    );
    let component = component_start_output(false, "cid", "ref", "NH");
    assert_eq!(component.text, "Component [cid] (ref: [ref]) started on host [NH]");
    assert_eq!(
        entries(&component),
        vec![
            ("component_id".to_string(), text("cid")),
            ("component_ref".to_string(), text("ref")),
            ("host_id".to_string(), text("NH")),
            ("result".to_string(), text("Component [cid] (ref: [ref]) started on host [NH]")),
        ]
    );
}

#[test]
fn hosts_are_found_by_what_they_run() {
    let inventories = vec![
        inventory("NA", &[("comp-a", "img1")], &["prov-a"]),
        inventory("NB", &[("comp-b", "img2"), ("comp-a", "img1b")], &["prov-b", "prov-a"]),
        inventory("NC", &[], &[]),
    ];
    assert!(host_runs_provider(&inventories[0], "prov-a"));
    assert!(!host_runs_provider(&inventories[0], "prov-b"));
    assert_eq!(
        hosts_with_provider("prov-a", &inventories),
        vec![
            ("NA".to_string(), "friendly-NA".to_string()),
            ("NB".to_string(), "friendly-NB".to_string()),
        ]
    );
    assert_eq!(hosts_with_provider("prov-z", &inventories), vec![]);
    assert_eq!(find_component(&inventories[1], "comp-a"), Some(1));
    assert_eq!(find_component(&inventories[2], "comp-a"), None);
    assert_eq!(host_running_component(&inventories, "comp-b"), Some(1));
    assert_eq!(host_running_component(&inventories, "comp-a"), Some(0));
    assert_eq!(host_running_component(&inventories, "comp-z"), None);
    assert_eq!(
        component_on_host(&inventories[1], "comp-a"),
        Ok(("NB".to_string(), "img1b".to_string()))
    );
    assert_eq!(
        component_on_host(&inventories[0], "comp-b"),
        Err("No component with id [comp-b] found on host [NA]".to_string())
    );
    assert_eq!(no_host_runs_component("comp-z"), "No host found running component [comp-z]");
}

#[test]
fn a_search_wants_one_match() {
    assert_eq!(single_match(vec![]), Err(FindIdError::NoMatches));
    assert_eq!(single_match(vec![("NA".to_string(), "a".to_string())]), Ok("NA".to_string()));
    assert_eq!(
        single_match(vec![
            ("NA".to_string(), "a".to_string()),
            ("NB".to_string(), "b".to_string()),
            ("NC".to_string(), "c".to_string()),
        ]),
        Err(FindIdError::MultipleMatches(vec![
            Match { id: "NA".to_string(), friendly_name: Some("a".to_string()) },
            Match { id: "NB".to_string(), friendly_name: Some("b".to_string()) },
            Match { id: "NC".to_string(), friendly_name: Some("c".to_string()) },
        ]))
    );
}

#[test]
fn stopping_hosts_is_planned() {
    let two = vec!["NA".to_string(), "NB".to_string()];
    let named = "NX".to_string();
    assert_eq!(
        plan_stop_hosts(two.clone(), Some(&named), false),
        StopPlan::StopNamed { host_id: "NX".to_string(), hosts_remain: true }
    );
    assert_eq!(
        plan_stop_hosts(vec!["NA".to_string()], Some(&named), true),
        StopPlan::StopNamed { host_id: "NX".to_string(), hosts_remain: false }
    );
    assert_eq!(plan_stop_hosts(vec![], None, true), StopPlan::Nothing);
    assert_eq!(
        plan_stop_hosts(vec!["NA".to_string()], None, false),
        StopPlan::StopOnly { host_id: "NA".to_string() }
    );
    assert_eq!(plan_stop_hosts(two.clone(), None, true), StopPlan::StopAll { host_ids: two.clone() });
    assert_eq!(
        plan_stop_hosts(two.clone(), None, false),
        StopPlan::Ambiguous { running_hosts: two }
    );
}

#[test]
fn stopped_hosts_are_counted() {
    assert_eq!(stopped_hosts(&vec![]), (vec![], false));
    assert_eq!(
        stopped_hosts(&vec![Some("NA".to_string()), None, Some("NC".to_string())]),
        (vec!["NA".to_string(), "NC".to_string()], true)
    );
    assert_eq!(
        stopped_hosts(&vec![Some("NA".to_string()), Some("NB".to_string())]),
        (vec!["NA".to_string(), "NB".to_string()], false)
    );
    assert_eq!(stopped_hosts(&vec![None]), (vec![], true));
}

#[test]
fn stop_reports() {
    assert!(should_remove_pid_file(false, true));
    assert!(!should_remove_pid_file(true, true));
    assert!(!should_remove_pid_file(false, false));
    let host = stop_host_output("NA");
    assert_eq!(host.text, "Host NA acknowledged stop request");
    assert_eq!(
        entries(&host),
        vec![("result".to_string(), text("Host NA acknowledged stop request"))]
    );
    assert_eq!(
        stop_component_output(true, "comp-a", "NA").text,
        "Request to stop component [comp-a] received"
    );
    let component = stop_component_output(false, "comp-a", "NA");
    assert_eq!(component.text, "Component [comp-a] stopped");
    assert_eq!(
        entries(&component),
        vec![
            ("component_id".to_string(), text("comp-a")),
            ("host_id".to_string(), text("NA")),
            ("result".to_string(), text("Component [comp-a] stopped")),
        ]
    );
    assert_eq!(stop_provider_output(true, "prov-a", None).text, "Provider prov-a stop request received");
    let provider = stop_provider_output(false, "prov-a", Some("NA".to_string()));
    assert_eq!(provider.text, "Provider [prov-a] stopped successfully");
    assert_eq!(
        entries(&provider),
        vec![
            ("host_id".to_string(), text("NA")),
            ("provider_id".to_string(), text("prov-a")),
            ("result".to_string(), text("Provider [prov-a] stopped successfully")),
        ]
    );
    assert_eq!(
        entries(&stop_provider_output(false, "prov-a", None))[0],
        ("host_id".to_string(), OutputValue::Null)
    );
    assert_eq!(stop_ack_refusal(&CtlResponse::success()), None);
    assert_eq!(
        stop_ack_refusal(&CtlResponse::error("nope")),
        Some("Operation failed: nope".to_string())
    );
    assert_eq!(after_stop_ack(true), AfterStopAck::Done);
    assert_eq!(after_stop_ack(false), AfterStopAck::AwaitEvent);
}

#[test]
fn references_are_resolved() {
    assert_eq!(
        plan_resolve_ref("/abs/path.wasm", false, false),
        RefPlan::Resolved("file:///abs/path.wasm".to_string())
    );
    assert_eq!(
        plan_resolve_ref("/abs/path.wasm", true, true),
        RefPlan::Resolved("file:///abs/path.wasm".to_string())
    );
    assert_eq!(
        plan_resolve_ref("rel/path.wasm", true, false),
        RefPlan::Canonicalize("rel/path.wasm".to_string())
    );
    assert_eq!(
        plan_resolve_ref("file://rel/path.wasm", false, true),
        RefPlan::Canonicalize("rel/path.wasm".to_string())
    );
    assert_eq!(
        plan_resolve_ref("file://rel/path.wasm", false, false),
        RefPlan::Resolved("file://rel/path.wasm".to_string())
    );
    assert_eq!(
        plan_resolve_ref("ghcr.io/x/y:1", false, true),
        RefPlan::Resolved("ghcr.io/x/y:1".to_string())
    );
    assert_eq!(file_uri_path("file://a/b"), Some("a/b"));
    assert_eq!(file_uri_path("file:/a/b"), None);
    assert_eq!(file_reference("/a/b"), "file:///a/b");
    assert_eq!(resolve_failure("x"), "failed to resolve absolute path: x");
}

fn session(id: &str, path: &str, in_use: bool) -> WashDevSession {
    WashDevSession {
        id: id.to_string(),
        project_path: path.to_string(),
        host_data: None,
        in_use,
        created_at: 1,
        last_used_at: 2,
    }
}

#[test]
fn sessions_are_found_or_made() {
    let empty = SessionMetadata::default();
    assert_eq!(empty.version, FileVersion { major: 0, minor: 1, patch: 0 });
    assert_eq!(current_file_version(), empty.version);
    assert!(empty.sessions.is_empty());
    let mut metadata = SessionMetadata {
        version: current_file_version(),
        sessions: vec![session("a", "/p", true), session("b", "/q", false), session("c", "/p", false)],
    };
    assert_eq!(metadata.find_free_session("/p"), Some(2));
    assert_eq!(metadata.find_free_session("/q"), Some(1));
    assert_eq!(metadata.find_free_session("/r"), None);
    let found = metadata.session_for("/p", "fresh".to_string(), 9);
    assert_eq!(found, session("c", "/p", false));
    assert_eq!(metadata.sessions.len(), 3);
    let made = metadata.session_for("/r", "fresh".to_string(), 9);
    assert_eq!(
        made,
        WashDevSession {
            id: "fresh".to_string(),
            project_path: "/r".to_string(),
            host_data: None,
            in_use: true,
            created_at: 9,
            last_used_at: 9,
        }
    );
    assert_eq!(metadata.sessions.len(), 4);
    assert_eq!(metadata.sessions[3], made);
    let random = WashDevSession::from_sessions(&mut metadata, "/s", 11);
    assert_eq!(random.id.len(), SESSION_ID_LEN);
    assert_eq!(random.id.len(), 6);
    assert!(random.id.chars().all(|c| c.is_ascii_alphanumeric()));
    assert!(random.in_use);
    assert_eq!(random.project_path, "/s");
    assert_eq!(metadata.sessions.len(), 5);
    let other = WashDevSession::from_sessions(&mut metadata, "/t", 11);
    assert!(other.id != random.id || other.id.len() == 6);
}

#[test]
fn sessions_are_updated_in_place() {
    let mut metadata = SessionMetadata {
        version: current_file_version(),
        sessions: vec![session("a", "/p", true), session("b", "/q", false), session("a", "/z", false)],
    };
    let mut changed = session("a", "/p", false);
    changed.set_host("NHOST".to_string(), "/log".to_string());
    assert!(!changed.needs_host());
    assert!(session("x", "/", true).needs_host());
    assert!(metadata.update_session(&changed));
    assert_eq!(metadata.sessions[0], changed);
    assert_eq!(metadata.sessions[1], session("b", "/q", false));
    assert_eq!(metadata.sessions[2], session("a", "/z", false));
    assert!(!metadata.update_session(&session("nobody", "/", true)));
    assert_eq!(metadata.sessions.len(), 3);
}

#[test]
fn bus_address() {
    assert_eq!(nats_host(Some("n".to_string()), Some("c".to_string())), "n");
    assert_eq!(nats_host(None, Some("c".to_string())), "c");
    assert_eq!(nats_host(None, None), "127.0.0.1");
    assert_eq!(nats_port(Some(1), Some(2)), 1);
    assert_eq!(nats_port(None, Some(2)), 2);
    assert_eq!(nats_port(None, None), 4222);
    assert_eq!(nats_listen_address("127.0.0.1", 4222), "127.0.0.1:4222");
    assert_eq!(jetstream_dir_name(4222), "wash-jetstream-4222");
}

#[test]
fn start_failures_are_classified() {
    assert_eq!(
        classify_start_failure(Service::Nats, "port 4222 already listening"),
        StartFailure::AlreadyRunning
    );
    assert_eq!(
        classify_start_failure(Service::Wadm, "already listening"),
        StartFailure::AlreadyRunning
    );
    assert_eq!(
        classify_start_failure(Service::Nats, "no binary"),
        StartFailure::Fatal("failed to start NATS server for wash dev: no binary".to_string())
    );
    assert_eq!(
        classify_start_failure(Service::Wadm, "no binary"),
        StartFailure::Fatal("failed to start wadm for wash dev: no binary".to_string())
    );
    assert_eq!(
        classify_start_failure(Service::NatsKvSecrets, "no binary"),
        StartFailure::Fatal("failed to start nats-kv-secrets for wash dev: no binary".to_string())
    );
    assert_eq!(
        classify_start_failure(Service::Wasmcloud, "already listening"),
        StartFailure::Fatal("failed to start wasmCloud instance: already listening".to_string())
    );
}

#[test]
fn host_id_is_read_from_a_log_line() {
    assert_eq!(
        host_id_in_line("2024 INFO host started host_id=\"NABC123\""),
        HostIdLine::Found("NABC123".to_string())
    );
    assert_eq!(
        host_id_in_line("host_id=\"NA\" host_id=\"NB\""),
        HostIdLine::Found("NA\" host_id=\"NB".to_string())
    );
    assert_eq!(host_id_in_line("host_id=\"x"), HostIdLine::Found(String::new()));
    assert_eq!(host_id_in_line("nothing here"), HostIdLine::Absent);
    assert_eq!(host_id_in_line("host_id=N"), HostIdLine::Absent);
    assert_eq!(host_id_in_line("host_id=\""), HostIdLine::Uncut);
    assert_eq!(host_id_in_line("host_id=\"Né"), HostIdLine::Uncut);
    let line = "x host_id=\"NABC\"";
    let std_way = line.split_once("host_id=\"").map(|(_, rhs)| &rhs[0..rhs.len() - 1]);
    assert_eq!(host_id_in_line(line), HostIdLine::Found(std_way.unwrap().to_string()));
}
