use sqldb_postgres::text::{join, join3, normalize, parse_port, render_port, trim};
use sqldb_postgres::token::{managed_connection_token_id, named_profile_connection_token_id};

#[test]
fn managed_tokens() {
    assert_eq!(managed_connection_token_id(None), "managed");
    assert_eq!(managed_connection_token_id(Some("svc-a")), "managed-svc-a");
    assert_eq!(managed_connection_token_id(Some("")), "managed-");
}

#[test]
fn profile_tokens() {
    assert_eq!(named_profile_connection_token_id("main", None), "profile-main");
    assert_eq!(named_profile_connection_token_id("main", Some("svc-a")), "profile-main-svc-a");
    assert_eq!(named_profile_connection_token_id(" Main ", Some(" SVC ")), "profile-main-svc");
}

#[test]
fn names_collide_by_case_and_outer_white_space() {
    assert_eq!(
        managed_connection_token_id(Some("Foo ")),
        managed_connection_token_id(Some("foo"))
    );
    assert_eq!(managed_connection_token_id(Some("\t FOO\n")), "managed-foo");
    assert_eq!(
        named_profile_connection_token_id("Foo ", None),
        named_profile_connection_token_id("foo", None)
    );
    assert_ne!(
        managed_connection_token_id(Some("f oo")),
        managed_connection_token_id(Some("foo"))
    );
}

#[test]
fn trim_matches_the_standard_trim() {
    let cases = [
        "",
        " ",
        "a",
        " a",
        "a ",
        "  a b  ",
        "\u{a0}x\u{2003}",
        "\t\n\r x y \u{3000}",
        "é ",
        "   ",
        "a\u{200b}",
    ];
    for case in cases {
        assert_eq!(trim(case), case.trim(), "trim of {case:?}");
        assert_eq!(normalize(case), case.trim().to_lowercase());
    }
    assert_eq!(trim("  a b  "), "a b");
    assert_eq!(normalize("  MiXed Case "), "mixed case");
}

#[test]
fn joins() {
    assert_eq!(join("ab", "cd"), "abcd");
    assert_eq!(join("", ""), "");
    assert_eq!(join3("a", "b", "c"), "abc");
}

#[test]
fn ports_render_and_parse_back() {
    assert_eq!(render_port(0), "0");
    assert_eq!(render_port(7), "7");
    assert_eq!(render_port(10), "10");
    assert_eq!(render_port(5432), "5432");
    assert_eq!(render_port(65535), "65535");
    for port in [0u16, 1, 9, 10, 99, 100, 1000, 5432, 40000, 65535] {
        assert_eq!(render_port(port), port.to_string());
        assert_eq!(parse_port(&render_port(port)), Some(port));
    }
    assert_eq!(parse_port("65536"), None);
    assert_eq!(parse_port("x"), None);
    assert_eq!(parse_port("+12"), Some(12));
}
