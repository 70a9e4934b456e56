use sqldb_postgres::config::{
    parse_managed_config, parse_prefixed_config_from_map, parse_profile_configs,
    profile_name_of, ConnectionCreateOptions, POSTGRES_DEFAULT_PORT,
};
use sqldb_postgres::text_map::TextMap;

fn config_of(pairs: &[(&str, &str)]) -> TextMap<String> {
    let mut config = TextMap::new();
    for (key, value) in pairs {
        config.insert(key.to_string(), value.to_string());
    }
    config
}

fn six(prefix: &str, port: &str, tls: &str) -> Vec<(String, String)> {
    vec![
        (format!("{prefix}HOST"), "db".to_string()),
        (format!("{prefix}PORT"), port.to_string()),
        (format!("{prefix}USERNAME"), "u".to_string()),
        (format!("{prefix}PASSWORD"), "p".to_string()),
        (format!("{prefix}DATABASE"), "d".to_string()),
        (format!("{prefix}TLS_REQUIRED"), tls.to_string()),
    ]
}

fn config_from(groups: Vec<Vec<(String, String)>>) -> TextMap<String> {
    let mut config = TextMap::new();
    for group in groups {
        for (key, value) in group {
            config.insert(key, value);
        }
    }
    config
}

#[test]
fn managed_group_round_trips() {
    let config = config_of(&[
        ("MANAGED_HOST", "db"),
        ("MANAGED_PORT", "5432"),
        ("MANAGED_USERNAME", "u"),
        ("MANAGED_PASSWORD", "p"),
        ("MANAGED_DATABASE", "d"),
        ("MANAGED_TLS_REQUIRED", "false"),
    ]);
    let template = parse_managed_config(&config);
    assert_eq!(
        template,
        Some(ConnectionCreateOptions {
            host: "db".to_string(),
            port: 5432,
            username: "u".to_string(),
            password: "p".to_string(),
            database: "d".to_string(),
            tls_required: false,
        })
    );
}

#[test]
fn partial_group_yields_no_template() {
    let mut group = six("MANAGED_", "5432", "false");
    group.remove(3);
    let config = config_from(vec![group]);
    assert_eq!(parse_managed_config(&config), None);
    assert_eq!(parse_managed_config(&TextMap::new()), None);
}

#[test]
fn each_missing_key_yields_no_template() {
    for missing in 0..6 {
        let mut group = six("MANAGED_", "1", "yes");
        group.remove(missing);
        assert_eq!(parse_managed_config(&config_from(vec![group])), None);
    }
}

#[test]
fn unparsable_port_falls_back_to_default() {
    let config = config_from(vec![six("MANAGED_", "not-a-number", "false")]);
    let template = parse_managed_config(&config).expect("a template");
    assert_eq!(template.port, POSTGRES_DEFAULT_PORT);
    assert_eq!(template.port, 5432);
}

#[test]
fn ports_parse_as_unsigned_sixteen_bit_decimals() {
    let cases: [(&str, u16); 12] = [
        ("0", 0),
        ("1", 1),
        ("+80", 80),
        ("0005433", 5433),
        ("65535", 65535),
        ("65536", 5432),
        ("99999999999999999999", 5432),
        ("", 5432),
        ("+", 5432),
        ("-1", 5432),
        (" 80", 5432),
        ("8 0", 5432),
    ];
    for (text, port) in cases {
        let config = config_from(vec![six("MANAGED_", text, "false")]);
        assert_eq!(parse_managed_config(&config).unwrap().port, port, "port text {text:?}");
        let std_port = text.parse::<u16>().unwrap_or(5432);
        assert_eq!(port, std_port);
    }
}

#[test]
fn tls_flag_accepts_true_and_yes_in_any_case() {
    let cases = [
        ("true", true),
        ("TRUE", true),
        ("True", true),
        ("yes", true),
        ("YES", true),
        ("yEs", true),
        ("false", false),
        ("no", false),
        ("1", false),
        ("", false),
        (" true", false),
        ("y", false),
    ];
    for (text, flag) in cases {
        let config = config_from(vec![six("MANAGED_", "5432", text)]);
        assert_eq!(parse_managed_config(&config).unwrap().tls_required, flag, "flag {text:?}");
    }
}

#[test]
fn prefix_is_free() {
    let config = config_from(vec![six("X", "7", "yes")]);
    let template = parse_prefixed_config_from_map("X", &config).unwrap();
    assert_eq!(template.port, 7);
    assert!(template.tls_required);
    assert_eq!(parse_prefixed_config_from_map("Y", &config), None);
}

#[test]
fn profiles_come_out_once_each() {
    let config = config_from(vec![
        six("PROFILE_alpha_", "1", "yes"),
        six("MANAGED_", "2", "no"),
        six("PROFILE_beta_", "3", "no"),
    ]);
    let mut profiles = parse_profile_configs(&config);
    profiles.sort_by(|a, b| a.0.cmp(&b.0));
    assert_eq!(profiles.len(), 2);
    assert_eq!(profiles[0].0, "alpha");
    assert_eq!(profiles[0].1.port, 1);
    assert!(profiles[0].1.tls_required);
    assert_eq!(profiles[1].0, "beta");
    assert_eq!(profiles[1].1.port, 3);
    assert_eq!(profiles[1].1.host, "db");
}

#[test]
fn partial_profile_is_left_out() {
    let mut partial = six("PROFILE_half_", "1", "yes");
    partial.pop();
    let config = config_from(vec![partial, six("PROFILE_whole_", "9", "no")]);
    let profiles = parse_profile_configs(&config);
    assert_eq!(profiles.len(), 1);
    assert_eq!(profiles[0].0, "whole");
    assert_eq!(parse_profile_configs(&TextMap::new()).len(), 0);
}

#[test]
fn profile_names_end_at_the_next_underscore() {
    assert_eq!(profile_name_of("PROFILE_main_HOST"), Some("main"));
    assert_eq!(profile_name_of("PROFILE_main_TLS_REQUIRED"), Some("main"));
    assert_eq!(profile_name_of("PROFILE_main"), Some("main"));
    assert_eq!(profile_name_of("PROFILE__HOST"), Some(""));
    assert_eq!(profile_name_of("PROFILE_"), Some(""));
    assert_eq!(profile_name_of("PROFILE"), None);
    assert_eq!(profile_name_of("MANAGED_HOST"), None);
    assert_eq!(profile_name_of("profile_main_HOST"), None);
    assert_eq!(profile_name_of(""), None);
    assert_eq!(profile_name_of("PROFILE_né_HOST"), Some("né"));
}

#[test]
fn text_map_last_write_wins() {
    let mut map: TextMap<u32> = TextMap::new();
    assert_eq!(map.len(), 0);
    map.insert("a".to_string(), 1);
    map.insert("b".to_string(), 2);
    map.insert("a".to_string(), 3);
    assert_eq!(map.len(), 2);
    assert_eq!(map.get("a"), Some(&3));
    assert_eq!(map.get("b"), Some(&2));
    assert_eq!(map.get("c"), None);
    assert!(map.contains_key("a"));
    assert_eq!(map.key_at(0), "a");
    assert_eq!(map.value_at(1), &2);
    assert_eq!(map.remove("a"), Some(3));
    assert_eq!(map.remove("a"), None);
    assert_eq!(map.len(), 1);
    assert_eq!(map.remove_at(0), ("b".to_string(), 2));
    map.insert("z".to_string(), 9);
    map.clear();
    assert_eq!(map.len(), 0);
    assert!(!map.contains_key("z"));
}
