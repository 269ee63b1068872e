use dockpanel_agent::mail_settings::{mail_health, password_schemes, webmail_heal, webmail_port, webmail_state, MailProbe};
use dockpanel_agent::mail_settings::{
    check_restore, dkim_paths, is_valid_backup_file, is_valid_queue_id, mailbox_parts, panel_server_name_in,
    panel_tls_paths, parse_rate, rate_limit_status, rate_main_cf, relay_files, relayhost, strip_block,
    tls_main_cf, webmail_nginx_block, ConfigBlock,
};

#[test]
fn the_webmail_fragment_carries_the_port() {
    let b = webmail_nginx_block(8888);
    assert!(b.starts_with("# DockPanel webmail (Roundcube) reverse-proxy — managed by agent, do not edit\n"));
    assert!(b.contains("location /webmail/ {\n    proxy_pass http://127.0.0.1:8888/;\n"));
    assert!(b.contains("    add_header X-Frame-Options \"SAMEORIGIN\" always;\n"));
    assert!(b.ends_with("}\n"));
}

#[test]
fn panel_host_and_certificate_paths() {
    assert_eq!(
        panel_tls_paths("panel.example.com"),
        (
            "/etc/letsencrypt/live/panel.example.com/fullchain.pem".to_string(),
            "/etc/letsencrypt/live/panel.example.com/privkey.pem".to_string()
        )
    );
    assert_eq!(
        panel_server_name_in("server {\n  server_name _;\n  server_name panel.example.com www.example.com;;\n}"),
        Some("panel.example.com".to_string())
    );
    assert_eq!(panel_server_name_in("server { listen 80; }"), None);
}

#[test]
fn queue_ids_and_dkim_requests() {
    assert!(is_valid_queue_id(" A1B2C3D4E5 "));
    assert!(!is_valid_queue_id(""));
    assert!(!is_valid_queue_id("A1B2C3D4E5*"));
    assert!(!is_valid_queue_id(&"A".repeat(21)));
    let p = dkim_paths(" example.com ", "mail").unwrap();
    assert_eq!(p.private_path, "/etc/dockpanel/dkim/example.com/mail.private");
    assert_eq!(p.public_path, "/etc/dockpanel/dkim/example.com/mail.public");
    assert!(matches!(dkim_paths("", "s"), Err(m) if m == "Domain and selector required"));
    assert!(matches!(dkim_paths("a..b", "s"), Err(m) if m == "Invalid domain format"));
    assert!(matches!(dkim_paths("a.com", "../x"), Err(m) if m == "Invalid selector format"));
}

#[test]
fn relay_settings_rewrite_their_own_block() {
    let cf = "myhostname = x\nrelayhost = [old]:25\nsmtp_sasl_auth_enable = yes\n# DockPanel relay configuration\nkeep = y\n";
    let f = relay_files("smtp.example.com", 587, "u", "p", cf).unwrap();
    assert_eq!(f.sasl_passwd, "[smtp.example.com]:587 u:p\n");
    assert!(f.main_cf.starts_with("myhostname = x\nkeep = y\n# DockPanel relay configuration\nrelayhost = [smtp.example.com]:587\n"));
    assert!(matches!(relay_files("", 1, "u", "p", ""), Err(m) if m == "Relay host required"));
    assert!(matches!(relay_files("h\n", 1, "u", "p", ""), Err(m) if m == "Invalid characters in relay config"));
    assert_eq!(relayhost(&f.main_cf), Some("[smtp.example.com]:587".to_string()));
    assert_eq!(relayhost("x = y"), None);
}

#[test]
fn rates_parse_and_render() {
    let l = parse_rate("100/hour").unwrap();
    assert_eq!((l.count, l.delay_secs), (100, 36));
    let l = parse_rate("+7/minute").unwrap();
    assert_eq!((l.count, l.delay_secs), (7, 8));
    assert!(matches!(parse_rate(""), Err(m) if m == "Rate required"));
    assert!(matches!(parse_rate("100"), Err(m) if m == "Rate format: N/hour or N/day"));
    assert!(matches!(parse_rate("x/hour"), Err(m) if m == "Invalid count"));
    assert!(matches!(parse_rate("4294967296/day"), Err(m) if m == "Invalid count"));
    assert!(matches!(parse_rate("0/day"), Err(m) if m == "Count must be > 0"));
    assert!(matches!(parse_rate("5/week"), Err(m) if m == "Period must be minute, hour, or day"));
    let cf = rate_main_cf("a = b", "500/day", &parse_rate("500/day").unwrap());
    assert_eq!(cf, "a = b\n# DockPanel rate limit: 500/day\nsmtp_destination_rate_delay = 172s\nsmtp_extra_recipient_limit = 50\n");
    assert_eq!(rate_limit_status(&cf), Some("500/day".to_string()));
    assert_eq!(strip_block(&cf, ConfigBlock::RateLimit), "a = b");
}

#[test]
fn tls_levels_are_checked() {
    assert_eq!(
        tls_main_cf("smtpd_tls_security_level = may\nx = 1", "encrypt", "may"),
        Ok("x = 1\nsmtpd_tls_security_level = encrypt\nsmtp_tls_security_level = may\n".to_string())
    );
    assert!(tls_main_cf("", "always", "may").is_err());
}

#[test]
fn mailbox_backup_paths_are_confined() {
    assert_eq!(mailbox_parts(" user@example.com "), Ok(("user".to_string(), "example.com".to_string())));
    assert!(matches!(mailbox_parts("nope"), Err(m) if m == "Invalid email"));
    assert!(matches!(mailbox_parts("../x@example.com"), Err(m) if m == "Invalid email format"));
    assert!(is_valid_backup_file("/var/lib/dockpanel/mail-backups/u_d_1.tar.gz"));
    assert!(!is_valid_backup_file("/var/lib/dockpanel/mail-backups/../../etc/passwd"));
    assert!(!is_valid_backup_file("/tmp/x.tar.gz"));
    assert!(matches!(check_restore("u@d", "/tmp/x"), Err(m) if m == "Invalid backup file path"));
    assert!(matches!(check_restore("u@d", "/var/lib/dockpanel/mail-backups/.."), Err(m) if m == "Path traversal not allowed"));
    assert!(matches!(check_restore("@d", "/var/lib/dockpanel/mail-backups/a"), Err(m) if m == "Invalid email format"));
    assert_eq!(check_restore("u@d", "/var/lib/dockpanel/mail-backups/a"), Ok(("u".to_string(), "d".to_string())));
}

#[test]
fn password_schemes_are_upper_cased_words() {
    let out = "SHA1 ssha256 BLF-CRYPT\n  argon2i\tplain-md5 é\n";
    assert_eq!(
        password_schemes(out),
        vec!["SHA1", "SSHA256", "BLF-CRYPT", "ARGON2I", "PLAIN-MD5", "é"]
    );
    assert!(password_schemes("").is_empty());
    assert!(password_schemes(" \n\t ").is_empty());
}

fn probe(main_cf: Option<&str>) -> MailProbe {
    MailProbe {
        postfix_installed: true,
        dovecot_installed: true,
        opendkim_installed: true,
        postfix_running: true,
        dovecot_running: true,
        opendkim_running: false,
        dkim_conf_present: true,
        trusted_hosts_present: true,
        main_cf: main_cf.map(|s| s.to_string()),
    }
}

#[test]
fn mail_health_needs_the_configuration_and_all_three_daemons() {
    let h = mail_health(&probe(Some("a = b\n# DockPanel mail configuration\n")));
    assert!(h.configured);
    assert!(h.installed);
    assert!(!h.running);
    let h = mail_health(&probe(Some("a = b\n")));
    assert!(!h.configured && !h.installed && !h.running);
    let h = mail_health(&probe(None));
    assert!(!h.configured && !h.installed);
    let mut p = probe(Some("# DockPanel mail configuration"));
    p.opendkim_running = true;
    let h = mail_health(&p);
    assert!(h.running && h.installed && h.configured);
    p.trusted_hosts_present = false;
    let h = mail_health(&p);
    assert!(!h.running && !h.installed && !h.configured);
}

#[test]
fn webmail_state_reads_docker_inspect() {
    let s = webmail_state("true\n", "8090\n");
    assert!(s.running && s.installed);
    assert_eq!(s.port, 8090);
    let s = webmail_state("false\n", "\n");
    assert!(!s.running && !s.installed);
    assert_eq!(s.port, 0);
    let s = webmail_state("false", "9000");
    assert!(!s.running && s.installed);
    assert_eq!(s.port, 9000);
    let s = webmail_state("", "70000");
    assert!(!s.installed);
    assert_eq!(s.port, 0);
    assert_eq!(webmail_state("True", "+81").port, 81);
    assert!(!webmail_state("True", "").running);
}

#[test]
fn webmail_heal_keeps_the_served_port() {
    let current = webmail_nginx_block(9000);
    assert_eq!(webmail_port(&current), 9000);
    assert!(webmail_heal(&current).is_none());
    let old = "location /webmail/ {\n    proxy_pass http://127.0.0.1:9001/;\n}\n";
    assert_eq!(webmail_port(old), 9001);
    assert_eq!(webmail_heal(old), Some((9001, webmail_nginx_block(9001))));
    assert_eq!(webmail_port("location /webmail/ {\n}\n"), 8888);
    assert_eq!(webmail_port("  proxy_pass http://127.0.0.1:abc/;\n  proxy_pass http://127.0.0.1:9002/;\n"), 8888);
    assert_eq!(webmail_port("proxy_pass http://127.0.0.1: 8443 "), 8443);
    assert_eq!(webmail_port("proxy_pass http://127.0.0.1:99999/"), 8888);
}

#[test]
fn every_webmail_block_reads_back_its_own_port() {
    for port in [0u16, 1, 80, 8888, 65535] {
        let b = webmail_nginx_block(port);
        assert_eq!(webmail_port(&b), port);
        assert!(webmail_heal(&b).is_none());
        let hits: Vec<&str> = b.lines().filter(|l| l.trim().starts_with("proxy_pass http://127.0.0.1:")).collect();
        assert_eq!(hits, vec![format!("    proxy_pass http://127.0.0.1:{port}/;")]);
    }
    assert_ne!(webmail_nginx_block(8080), webmail_nginx_block(8081));
}
