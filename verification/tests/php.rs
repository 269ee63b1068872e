use dockpanel_agent::php::{
    available_extensions, check_version, extension_package, extension_prefix, installed_extensions,
    is_allowed_version, not_installed_reply, os_release_value, purge_command, purge_reply, version_row, PhpAction,
    PhpEvent, PhpInstall, PurgeOutcome,
};

fn respond(a: PhpAction) -> (u16, bool, String) {
    match a {
        PhpAction::Respond(r) => (r.status, r.success, r.message),
        other => panic!("expected a response, got {other:?}"),
    }
}

#[test]
fn versions_offered() {
    for v in ["8.1", "8.2", "8.3", "8.4", "8.5"] {
        assert!(is_allowed_version(v));
    }
    assert!(!is_allowed_version("7.4"));
    assert_eq!(check_version(" 8.3 "), Ok("8.3".to_string()));
    assert_eq!(check_version("9.0"), Err("Invalid version. Allowed: 8.1, 8.2, 8.3, 8.4, 8.5".to_string()));
}

#[test]
fn version_row_uses_the_real_socket_when_found() {
    let r = version_row("8.3", true, false, Some("/run/php-fpm/www.sock".into()));
    assert!(r.fpm_running);
    assert_eq!(r.socket, "/run/php-fpm/www.sock");
    let r = version_row("8.2", true, false, None);
    assert!(!r.fpm_running);
    assert_eq!(r.socket, "/run/php/php8.2-fpm.sock");
    let r = version_row("8.2", false, true, None);
    assert!(!r.fpm_running);
}

#[test]
fn install_refuses_an_unknown_version() {
    let (_, a) = PhpInstall::begin("7.0");
    let (status, success, message) = respond(a);
    assert_eq!(status, 400);
    assert!(!success);
    assert_eq!(message, "Invalid version. Allowed: 8.1, 8.2, 8.3, 8.4, 8.5");
}

#[test]
fn install_from_a_module_stream_waits_for_the_socket() {
    let (mut p, a) = PhpInstall::begin("8.3");
    assert!(matches!(a, PhpAction::CheckInstalled));
    assert!(matches!(p.step(PhpEvent::Answer(false)), PhpAction::ListStreams));
    assert!(matches!(p.step(PhpEvent::Streams(vec!["8.2".into(), "8.3".into()])), PhpAction::EnableStream));
    match p.step(PhpEvent::Done) {
        PhpAction::InstallPackages(pk) => assert_eq!(pk, vec!["php8.3-fpm", "php8.3-cli"]),
        other => panic!("{other:?}"),
    }
    assert!(matches!(p.step(PhpEvent::Done), PhpAction::InstallAvailable(_)));
    assert!(matches!(p.step(PhpEvent::Done), PhpAction::RestartFpm));
    assert!(matches!(p.step(PhpEvent::Done), PhpAction::CheckSocket { attempt: 0 }));
    assert!(matches!(p.step(PhpEvent::Answer(false)), PhpAction::CheckSocket { attempt: 1 }));
    let (status, success, message) = respond(p.step(PhpEvent::Answer(true)));
    assert_eq!(status, 200);
    assert!(success);
    assert_eq!(message, "PHP 8.3 was installed and PHP-FPM is running");
}

#[test]
fn stream_not_offered_is_refused() {
    let (mut p, _) = PhpInstall::begin("8.5");
    p.step(PhpEvent::Answer(false));
    let (status, success, message) = respond(p.step(PhpEvent::Streams(vec!["8.1".into(), "8.2".into()])));
    assert_eq!(status, 501);
    assert!(!success);
    assert!(message.starts_with("PHP 8.5 is not offered by this system's package repositories. Available versions here: 8.1, 8.2."));
}

#[test]
fn failed_repo_script_is_rolled_back() {
    let (mut p, _) = PhpInstall::begin("8.4");
    p.step(PhpEvent::Answer(false));
    assert!(matches!(p.step(PhpEvent::Streams(vec![])), PhpAction::ProbeApt));
    assert!(matches!(p.step(PhpEvent::Answer(false)), PhpAction::ReadOsRelease));
    let osr = "PRETTY_NAME=\"Debian GNU/Linux 12\"\nID=debian\nVERSION_CODENAME=bookworm\n";
    assert!(matches!(p.step(PhpEvent::Text(osr.into())), PhpAction::RunRepoScript(_)));
    let a = p.step(PhpEvent::Exited { ok: false, stdout: String::new(), stderr: "gpg: no valid OpenPGP data".into() });
    assert!(matches!(a, PhpAction::RollbackRepo));
    let (status, success, message) = respond(p.step(PhpEvent::Done));
    assert_eq!(status, 500);
    assert!(!success);
    assert_eq!(message, "Failed to configure PHP repo: gpg: no valid OpenPGP data");
}

#[test]
fn socket_wait_is_bounded() {
    let (mut p, _) = PhpInstall::begin("8.2");
    assert!(matches!(p.step(PhpEvent::Answer(true)), PhpAction::StartFpm));
    p.step(PhpEvent::Done);
    let mut n = 0;
    loop {
        match p.step(PhpEvent::Answer(false)) {
            PhpAction::CheckSocket { .. } => n += 1,
            PhpAction::ServiceName => break,
            other => panic!("{other:?}"),
        }
    }
    assert_eq!(n, 24);
    let (status, success, message) = respond(p.step(PhpEvent::Text("php8.2-fpm".into())));
    assert_eq!(status, 200);
    assert!(!success);
    assert!(message.starts_with("PHP 8.2 was already installed, but PHP-FPM did not open its socket"));
}

#[test]
fn os_release_values() {
    let osr = "NAME=\"Ubuntu\"\nID=ubuntu\nVERSION_CODENAME=noble\n";
    assert_eq!(os_release_value(osr, "ID"), "ubuntu");
    assert_eq!(os_release_value(osr, "VERSION_CODENAME"), "noble");
    assert_eq!(os_release_value(osr, "NAME"), "Ubuntu");
    assert_eq!(os_release_value(osr, "MISSING"), "");
}

#[test]
fn extension_listings() {
    let installed = installed_extensions("[PHP Modules]\nCore\nPDO\nmbstring\n\n[Zend Modules]\n");
    assert_eq!(installed, vec!["core", "pdo", "mbstring"]);
    // The package name is cut at its first dot, which on apt falls inside
    // the version, so an apt search offers nothing.
    let search = "php8.3-redis - PHP extension for Redis\nphp8.3-gd - GD\n";
    assert!(available_extensions(search, "php8.3-").is_empty());
    let rpm = "php-redis.x86_64 : redis\nphp-mbstring.x86_64 : multibyte\nphp-common.x86_64 : common\nphp-gd.x86_64 : gd\nphp-redis.noarch : again\n";
    assert_eq!(available_extensions(rpm, "php-"), vec!["gd", "mbstring", "redis"]);
    assert_eq!(extension_prefix(true, "8.3"), "php-");
    assert_eq!(extension_prefix(false, "8.3"), "php8.3-");
}

#[test]
fn extension_package_names() {
    assert_eq!(extension_package(Some("8.2"), Some("redis")), Ok("php8.2-redis".to_string()));
    assert_eq!(extension_package(None, Some("imagick")), Ok("php8.3-imagick".to_string()));
    assert_eq!(extension_package(Some("7.4"), Some("redis")), Err("Invalid PHP version. Allowed: 8.1, 8.2, 8.3, 8.4, 8.5".to_string()));
    assert_eq!(extension_package(Some("8.2"), Some("re dis")), Err("Invalid extension name".to_string()));
    assert_eq!(extension_package(Some("8.2"), None), Err("Invalid extension name".to_string()));
}

#[test]
fn uninstall_replies() {
    assert_eq!(purge_command(true, "8.3"), "dnf remove -y 'php-*' 2>&1");
    assert_eq!(purge_command(false, "8.3"), "apt-get purge -y php8.3-* 2>&1");
    assert_eq!(not_installed_reply("8.1"), "PHP 8.1 is not installed");
    let ok = PurgeOutcome::Exited { ok: true, stdout: String::new(), stderr: String::new() };
    assert_eq!(purge_reply("8.1", &ok), Ok("PHP 8.1 has been uninstalled".to_string()));
    let bad = PurgeOutcome::Exited { ok: false, stdout: "out".into(), stderr: "err".into() };
    assert_eq!(purge_reply("8.1", &bad), Err("apt purge failed:\nout\nerr".to_string()));
    assert_eq!(purge_reply("8.1", &PurgeOutcome::TimedOut), Err("Uninstall timed out (5 min limit)".to_string()));
    assert_eq!(
        purge_reply("8.1", &PurgeOutcome::SpawnFailed("no bash".into())),
        Err("Purge command failed: no bash".to_string())
    );
}
