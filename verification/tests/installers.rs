use dockpanel_agent::installers::{mapping_refusal, mapping_source, MappingSource};
use dockpanel_agent::installers::{
    apt_default_php, certbot_reply, check_tunnel_token, config_without_waf, php_core_packages,
    php_extension_packages, php_fpm_package, php_install_version, php_removal_command, tunnel_token_env,
    tunnel_unit_text, ufw_install_message, CertbotAction, CertbotEvent, CertbotInstall, CertbotReply, CertbotStage,
};

#[test]
fn php_version_prefers_streams_then_archive_then_default() {
    let streams = vec!["8.3".to_string(), "8.2".to_string()];
    assert_eq!(php_install_version(&streams, Some("8.1".into())), "8.3");
    assert_eq!(php_install_version(&vec![], Some("8.4".into())), "8.4");
    assert_eq!(php_install_version(&vec![], None), "8.3");
}

#[test]
fn php_packages_are_versioned() {
    assert_eq!(php_core_packages("8.4"), vec!["php8.4-fpm", "php8.4-cli"]);
    let ext = php_extension_packages("8.2");
    assert_eq!(ext.len(), 12);
    assert_eq!(ext[0], "php8.2-mysql");
    assert_eq!(ext[11], "php8.2-opcache");
    assert_eq!(php_fpm_package("8.5"), "php8.5-fpm");
}

#[test]
fn php_removal_differs_by_family() {
    assert_eq!(php_removal_command(true, "8.3"), "dnf remove -y 'php-*'");
    assert_eq!(
        php_removal_command(false, "8.3"),
        "DEBIAN_FRONTEND=noninteractive apt-get purge -y php8.3-* && apt-get autoremove -y"
    );
}

#[test]
fn apt_cache_depends_names_the_default() {
    let out = "php-fpm\n  Depends: php8.3-fpm\n  Depends: php-common\n";
    assert_eq!(apt_default_php(out).as_deref(), Some("8.3"));
    assert_eq!(apt_default_php("php-fpm\n  Depends: phpX-fpm\n"), None);
    assert_eq!(apt_default_php("php-fpm\n  Depends: php-fpm\n"), None);
    assert_eq!(apt_default_php(""), None);
}

#[test]
fn ufw_message_lists_what_failed() {
    assert_eq!(ufw_install_message(&vec![]), "UFW installed — SSH, HTTP, HTTPS, SMTP, IMAPS ports opened");
    assert_eq!(
        ufw_install_message(&vec!["587".into(), "993".into()]),
        "UFW installed, but these ports could not be opened: 587, 993"
    );
}

#[test]
fn tunnel_token_rules() {
    assert_eq!(check_tunnel_token(""), Err("Missing tunnel token".to_string()));
    assert_eq!(check_tunnel_token("abc"), Err("Invalid tunnel token format".to_string()));
    let good = "eyJhIjoiYjEyMzQ1Njc4OTAiLCJ0IjoiYWJjZGVmIiwicyI6Inh5ejEyMzQ1Njc4OTAifQ==";
    assert_eq!(check_tunnel_token(good), Ok(()));
    let bad = format!("{good};rm");
    assert_eq!(check_tunnel_token(&bad), Err("Invalid tunnel token format".to_string()));
    assert_eq!(check_tunnel_token(&"a".repeat(4097)), Err("Invalid tunnel token format".to_string()));
    assert_eq!(tunnel_token_env("tok"), "TUNNEL_TOKEN=tok\n");
    let unit = tunnel_unit_text("/etc/cloudflared/token.env");
    assert!(unit.contains("EnvironmentFile=/etc/cloudflared/token.env\n"));
    assert!(unit.contains("ExecStart=/usr/bin/cloudflared tunnel run\n"));
}

#[test]
fn waf_lines_are_dropped_and_nothing_else() {
    let conf = "server {\n    modsecurity on;\n    modsecurity_rules_file /etc/modsecurity/sites/x.conf;\n    listen 80;\n}\n";
    assert_eq!(config_without_waf(conf).as_deref(), Some("server {\n    listen 80;\n}"));
    assert_eq!(config_without_waf("server {\n    listen 80;\n}\n"), None);
}

#[test]
fn certbot_ladder_on_debian_falls_back_to_pip() {
    let mut c = CertbotInstall::new();
    assert_eq!(c.step(CertbotEvent::Begin { rpm: false }), Some(CertbotAction::PurgeAptCertbot));
    assert_eq!(c.step(CertbotEvent::Ran { ok: true }), Some(CertbotAction::InstallSnap));
    assert_eq!(c.step(CertbotEvent::Ran { ok: false }), Some(CertbotAction::InstallWithPip));
    assert_eq!(c.step(CertbotEvent::Ran { ok: true }), Some(CertbotAction::WritePipTimer));
    assert_eq!(c.step(CertbotEvent::Ran { ok: true }), Some(CertbotAction::Reply(CertbotReply::Pip)));
    assert_eq!(c.stage, CertbotStage::Done);
    assert_eq!(c.step(CertbotEvent::Ran { ok: true }), None);
}

#[test]
fn certbot_on_rpm_uses_packages_only() {
    let mut c = CertbotInstall::new();
    assert_eq!(c.step(CertbotEvent::Begin { rpm: true }), Some(CertbotAction::InstallPackages));
    assert_eq!(c.step(CertbotEvent::Ran { ok: false }), Some(CertbotAction::Reply(CertbotReply::PackagesFailed)));
    assert_eq!(
        certbot_reply(CertbotReply::PackagesFailed, "no match"),
        Err("Certbot install failed: no match".to_string())
    );
    assert_eq!(
        certbot_reply(CertbotReply::AllFailed, ""),
        Err("Certbot install failed: both snap and pip methods failed".to_string())
    );
    assert!(certbot_reply(CertbotReply::Snap, "").unwrap().starts_with("Certbot 4.x installed via snap"));
}

#[test]
fn unicode_mapping_sources() {
    assert_eq!(mapping_source(Some(5000), &vec![Some(9000)]), MappingSource::KeepSystem);
    assert_eq!(mapping_source(Some(0), &vec![None, Some(10), Some(2048), Some(4096)]), MappingSource::Distro(2));
    assert_eq!(mapping_source(None, &vec![Some(1024)]), MappingSource::Embedded);
    assert_eq!(mapping_source(None, &vec![]), MappingSource::Embedded);
    assert_eq!(mapping_refusal(Ok("20127\n0x00:0x00")), None);
    assert!(mapping_refusal(Ok("")).unwrap().starts_with("unicode.mapping is present but does not define code page 20127"));
    assert_eq!(mapping_refusal(Err("gone")), Some("unicode.mapping unreadable after install: gone".to_string()));
}
