use dockpanel_agent::apps::TlsIntent;
use dockpanel_agent::expose::{
    remove_domain_certs, vhost_cleanup, ExposeAction, ExposeEvent, Exposure, ProxyKind,
};

#[test]
fn acme_over_nginx_orders_a_certificate_after_the_proxy_is_up() {
    let mut x = Exposure::new("app.example.com", TlsIntent::Acme { email: "ops@example.com" }, false);
    assert_eq!(x.step(ExposeEvent::Begin), ExposeAction::Render { tls: false });
    assert_eq!(x.step(ExposeEvent::Succeeded), ExposeAction::WriteVhost);
    assert_eq!(x.step(ExposeEvent::Written { live: true }), ExposeAction::TestConfig);
    assert_eq!(x.step(ExposeEvent::Succeeded), ExposeAction::Reload);
    assert_eq!(x.step(ExposeEvent::Succeeded), ExposeAction::LookupDns { attempt: 0 });
    assert_eq!(x.report.proxy, ProxyKind::Nginx);
    assert!(x.report.domain);
    assert_eq!(x.step(ExposeEvent::Resolved(true)), ExposeAction::LoadAccount);
    assert_eq!(x.step(ExposeEvent::Succeeded), ExposeAction::ProvisionCert);
    assert_eq!(x.step(ExposeEvent::Succeeded), ExposeAction::EnableSsl);
    assert_eq!(x.step(ExposeEvent::Succeeded), ExposeAction::Finish);
    assert!(x.report.ssl);
    assert!(!x.report.ssl_pending);
}

#[test]
fn dns_wait_gives_up_after_five_retries() {
    let mut x = Exposure::new("app.example.com", TlsIntent::Acme { email: "ops@example.com" }, false);
    x.step(ExposeEvent::Begin);
    x.step(ExposeEvent::Succeeded);
    x.step(ExposeEvent::Written { live: true });
    x.step(ExposeEvent::Succeeded);
    assert_eq!(x.step(ExposeEvent::Succeeded), ExposeAction::LookupDns { attempt: 0 });
    for n in 1..=5u32 {
        assert_eq!(x.step(ExposeEvent::Resolved(false)), ExposeAction::LookupDns { attempt: n });
    }
    assert_eq!(x.step(ExposeEvent::Resolved(false)), ExposeAction::LoadAccount);
    assert_eq!(x.step(ExposeEvent::Failed("rate limited".into())), ExposeAction::Finish);
    assert!(x.report.ssl_pending);
    assert_eq!(x.report.ssl_warning.as_deref(), Some("ACME account failed: rate limited — retry from panel"));
    assert!(!x.report.ssl);
}

#[test]
fn traefik_refuses_a_registered_certificate() {
    let mut x = Exposure::new("app.example.com", TlsIntent::Provided { alias: "corp" }, true);
    assert_eq!(x.step(ExposeEvent::Begin), ExposeAction::Finish);
    assert!(x.report.tls_refused);
    assert!(!x.report.ssl);
    assert_eq!(
        x.report.proxy_warning.as_deref(),
        Some("registered certificates are served by nginx; this server proxies through Traefik")
    );
}

#[test]
fn unregistered_certificate_leaves_the_vhost_alone() {
    let mut x = Exposure::new("app.example.com", TlsIntent::Provided { alias: "corp" }, false);
    assert_eq!(x.step(ExposeEvent::Begin), ExposeAction::ReadRegisteredCert);
    assert_eq!(x.step(ExposeEvent::Failed("missing".into())), ExposeAction::Finish);
    assert!(x.report.tls_refused);
    assert!(!x.report.domain);
    assert!(x.report.proxy_warning.unwrap().starts_with("no certificate named corp is registered"));
}

#[test]
fn registered_certificate_is_served_over_tls() {
    let mut x = Exposure::new("app.example.com", TlsIntent::Provided { alias: "corp" }, false);
    x.step(ExposeEvent::Begin);
    assert_eq!(x.step(ExposeEvent::Succeeded), ExposeAction::CheckCover);
    assert_eq!(x.step(ExposeEvent::Succeeded), ExposeAction::Render { tls: true });
    x.step(ExposeEvent::Succeeded);
    x.step(ExposeEvent::Written { live: true });
    assert_eq!(x.step(ExposeEvent::Succeeded), ExposeAction::Reload);
    assert_eq!(x.step(ExposeEvent::Succeeded), ExposeAction::Finish);
    assert!(x.report.ssl && x.report.tls_certificate && x.report.domain);
}

#[test]
fn refused_config_is_rolled_back() {
    let mut x = Exposure::new("app.example.com", TlsIntent::NoTls, false);
    x.step(ExposeEvent::Begin);
    x.step(ExposeEvent::Succeeded);
    x.step(ExposeEvent::Written { live: true });
    assert_eq!(x.step(ExposeEvent::Refused("bad directive".into())), ExposeAction::RestoreVhost);
    assert_eq!(x.step(ExposeEvent::Restored(" (previous config restored)".into())), ExposeAction::Finish);
    assert_eq!(
        x.report.proxy_warning.as_deref(),
        Some("Nginx config test failed: bad directive (previous config restored)")
    );
    assert!(!x.report.domain);
}

#[test]
fn traefik_route_with_acme() {
    let mut x = Exposure::new("app.example.com", TlsIntent::Acme { email: "a@b.c" }, true);
    assert_eq!(x.step(ExposeEvent::Begin), ExposeAction::WriteTraefikRoute { ssl: true });
    assert_eq!(x.step(ExposeEvent::Succeeded), ExposeAction::Finish);
    assert_eq!(x.report.proxy, ProxyKind::Traefik);
    assert!(x.report.ssl);
}

#[test]
fn vhost_of_another_app_stays() {
    let c = vhost_cleanup("app.example.com", true, false);
    assert!(!c.remove_vhost);
    assert_eq!(
        c.warning.as_deref(),
        Some("The nginx configuration for app.example.com is serving something else and was left in place.")
    );
    let c = vhost_cleanup("app.example.com", true, true);
    assert!(c.remove_vhost && c.warning.is_none());
    let c = vhost_cleanup("app.example.com", false, false);
    assert!(!c.remove_vhost && c.warning.is_none());
    assert!(remove_domain_certs(true, true, false));
    assert!(!remove_domain_certs(false, true, false));
    assert!(!remove_domain_certs(true, true, true));
}
