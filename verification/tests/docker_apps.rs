use dockpanel_agent::apps::{
    check_exec_command, is_valid_cert_alias, is_valid_image_ref, masked_env_value, parse_stats,
    proxy_site_config, shell_for, take_chars, TlsIntent,
};

#[test]
fn an_older_panel_that_sends_no_mode_keeps_the_address_rule() {
    assert_eq!(
        TlsIntent::from_request(None, Some("ops@example.com"), None, false),
        Ok(TlsIntent::Acme { email: "ops@example.com" })
    );
    assert_eq!(TlsIntent::from_request(None, None, None, false), Ok(TlsIntent::NoTls));
    assert_eq!(TlsIntent::from_request(None, None, Some("wild"), false), Ok(TlsIntent::NoTls));
}

#[test]
fn each_mode_needs_its_own_field() {
    assert_eq!(TlsIntent::from_request(Some("none"), Some("x@y.z"), None, false), Ok(TlsIntent::NoTls));
    assert_eq!(
        TlsIntent::from_request(Some("acme"), Some("x@y.z"), None, false),
        Ok(TlsIntent::Acme { email: "x@y.z" })
    );
    assert!(TlsIntent::from_request(Some("acme"), None, None, false).is_err());
    assert!(TlsIntent::from_request(Some("acme"), Some("   "), None, false).is_err());
    assert_eq!(
        TlsIntent::from_request(Some("provided"), None, Some("wildcard-2026"), false),
        Ok(TlsIntent::Provided { alias: "wildcard-2026" })
    );
    assert!(TlsIntent::from_request(Some("provided"), None, None, false).is_err());
    assert!(TlsIntent::from_request(Some("provided"), None, Some("../ssl"), false).is_err());
    assert!(TlsIntent::from_request(Some("provided"), None, Some("Upper"), false).is_err());
    assert!(TlsIntent::from_request(Some("letsencrypt"), Some("x@y.z"), None, false).is_err());
}

#[test]
fn provided_mode_is_refused_through_traefik_before_any_container_exists() {
    assert!(TlsIntent::from_request(Some("provided"), None, Some("wildcard-2026"), true).is_err());
    assert_eq!(
        TlsIntent::from_request(Some("provided"), None, Some("wildcard-2026"), false),
        Ok(TlsIntent::Provided { alias: "wildcard-2026" })
    );
    assert_eq!(TlsIntent::from_request(Some("none"), None, None, true), Ok(TlsIntent::NoTls));
    assert_eq!(
        TlsIntent::from_request(Some("acme"), Some("x@y.z"), None, true),
        Ok(TlsIntent::Acme { email: "x@y.z" })
    );
}

#[test]
fn the_answer_uses_the_shared_vocabulary() {
    assert_eq!(TlsIntent::NoTls.mode(), "none");
    assert_eq!(TlsIntent::Acme { email: "x@y.z" }.mode(), "acme");
    assert_eq!(TlsIntent::Provided { alias: "a" }.mode(), "provided");
}

#[test]
fn tls_refusals_say_why() {
    assert_eq!(
        TlsIntent::from_request(Some("letsencrypt"), None, None, false),
        Err("unknown tls_mode 'letsencrypt': expected none, acme or provided".to_string())
    );
    assert_eq!(
        TlsIntent::from_request(Some("provided"), None, Some("Upper"), false),
        Err("'Upper' is not a certificate alias — 1 to 64 lowercase letters, digits or hyphens, starting and ending with a letter or digit".to_string())
    );
    assert_eq!(
        TlsIntent::from_request(Some("provided"), None, Some("w"), true),
        Err("tls_mode provided cannot be served through Traefik: its file provider has no per-route certificate form for 'w'. Switch the reverse proxy to nginx, or use tls_mode acme or none.".to_string())
    );
    assert_eq!(
        TlsIntent::from_request(Some("acme"), None, None, false),
        Err("tls_mode acme needs an ssl_email — the address the Let's Encrypt account is registered under".to_string())
    );
    assert_eq!(
        TlsIntent::from_request(Some("provided"), None, None, false),
        Err("tls_mode provided needs tls_certificate — the alias of a registered certificate".to_string())
    );
}

#[test]
fn certificate_aliases_follow_the_registry_grammar() {
    assert!(is_valid_cert_alias("a"));
    assert!(is_valid_cert_alias("wildcard-2026"));
    assert!(!is_valid_cert_alias(""));
    assert!(!is_valid_cert_alias("-a"));
    assert!(!is_valid_cert_alias("a-"));
    assert!(!is_valid_cert_alias(&"a".repeat(65)));
    assert!(is_valid_cert_alias(&"a".repeat(64)));
}

#[test]
fn image_references_are_plain_characters() {
    assert!(is_valid_image_ref("nginx:1.27"));
    assert!(is_valid_image_ref("ghcr.io/org/app@sha256:abc"));
    assert!(!is_valid_image_ref(""));
    assert!(!is_valid_image_ref("-rm"));
    assert!(!is_valid_image_ref("nginx; rm -rf /"));
    assert!(!is_valid_image_ref(&"a".repeat(257)));
}

#[test]
fn the_proxy_vhost_points_at_the_port() {
    let c = proxy_site_config(8080);
    assert_eq!(c.runtime, "proxy");
    assert_eq!(c.proxy_port, Some(8080));
    assert!(c.ssl.is_none() && c.root.is_none());
}

#[test]
fn stats_are_split_into_six_fields() {
    let s = parse_stats("1.5%|10MiB / 1GiB|0.98%|1kB / 2kB|0B / 0B|7\n").unwrap();
    assert_eq!(s.cpu_percent, "1.5");
    assert_eq!(s.memory_usage, "10MiB / 1GiB");
    assert_eq!(s.memory_percent, "0.98");
    assert_eq!(s.pids, "7");
    let spaced = parse_stats(" 2% | a | 3% | b | c | 1 ").unwrap();
    assert_eq!(spaced.cpu_percent, "2%");
    assert!(parse_stats("").is_none());
}

#[test]
fn commands_that_could_leave_the_container_are_refused() {
    assert_eq!(check_exec_command("ls -la"), Ok(()));
    assert_eq!(check_exec_command(""), Err("Invalid command".to_string()));
    assert_eq!(check_exec_command(&"x".repeat(1001)), Err("Invalid command".to_string()));
    assert_eq!(check_exec_command("NSENTER -t 1"), Err("Blocked command: contains 'nsenter'".to_string()));
    assert_eq!(check_exec_command("cat /proc/1/environ"), Err("Blocked command: contains '/proc/1/'".to_string()));
}

#[test]
fn secrets_are_masked_unless_the_catalogue_says_otherwise() {
    assert_eq!(masked_env_value("db_password", "hunter2", false), "********");
    assert_eq!(masked_env_value("KEYCLOAK_ADMIN", "admin", true), "admin");
    assert_eq!(masked_env_value("PORT", "80", false), "80");
}

#[test]
fn shells_and_output_limits() {
    assert_eq!(shell_for(true, true), "/bin/bash");
    assert_eq!(shell_for(false, true), "/bin/sh");
    assert_eq!(shell_for(false, false), "");
    assert_eq!(take_chars("héllo", 2), "hé");
    assert_eq!(take_chars("ab", 10), "ab");
}
