use dockpanel_agent::mail_settings::{dkim_tables, DkimDir};
use dockpanel_agent::mail_setup::{
    dovecot_config_v, main_cf_with_mail, master_cf_with_submission, postconf_settings_v, runs_submission,
};
use dockpanel_agent::order::{lex_lt_v, sorted_descending, sorted_unique};
use dockpanel_agent::validation::{audited, authorize, AuthDecision};
use dockpanel_agent::mail_settings::tls_status;
use dockpanel_agent::mail_filters::rspamd_main_cf;
use dockpanel_agent::mail_filters::{EnforceAction, SenderEnforcement};

#[test]
fn mail_block_is_added_once() {
    let cf = "myhostname = mail.example.com\n";
    let once = main_cf_with_mail(cf).unwrap();
    assert!(once.starts_with(cf));
    assert!(once.contains("\n# DockPanel mail configuration\nvirtual_mailbox_domains = /etc/postfix/virtual_domains\n"));
    assert!(once.contains("mydestination = localhost\n"));
    assert!(main_cf_with_mail(&once).is_none());
}

#[test]
fn submission_is_added_once() {
    let cf = "smtp inet n - y - - smtpd\n#submission inet n - y - - smtpd\n";
    assert!(!runs_submission(cf));
    let once = master_cf_with_submission(cf).unwrap();
    assert!(once.ends_with("\n\nsubmission inet n - y - - smtpd\n  -o syslog_name=postfix/submission\n  -o smtpd_tls_security_level=encrypt\n  -o smtpd_sasl_auth_enable=yes\n  -o smtpd_recipient_restrictions=permit_sasl_authenticated,reject\n"));
    assert!(runs_submission(&once));
    assert!(master_cf_with_submission(&once).is_none());
}

#[test]
fn dovecot_and_postconf() {
    let d = dovecot_config_v(Some(("/etc/le/fullchain.pem", "/etc/le/privkey.pem")));
    assert!(d.starts_with("# DockPanel Dovecot configuration\n"));
    assert!(d.ends_with("ssl = required\nssl_cert = </etc/le/fullchain.pem\nssl_key = </etc/le/privkey.pem\n"));
    assert!(dovecot_config_v(None).ends_with("# SSL\nssl = required\n"));
    assert_eq!(
        postconf_settings_v(Some("mail.ex.com"), Some(("c.pem", "k.pem"))),
        vec![
            "inet_interfaces=all",
            "myhostname=mail.ex.com",
            "mydestination=localhost",
            "smtpd_tls_cert_file=c.pem",
            "smtpd_tls_key_file=k.pem"
        ]
    );
    assert_eq!(postconf_settings_v(None, None), vec!["inet_interfaces=all"]);
}

#[test]
fn dkim_tables_list_every_valid_key() {
    let dirs = vec![
        DkimDir { domain: "ex.com".into(), files: vec!["mail.private".into(), "mail.public".into(), "bad sel.private".into()] },
        DkimDir { domain: "bad domain".into(), files: vec!["mail.private".into()] },
        DkimDir { domain: "two.org".into(), files: vec!["s1.private".into(), "s2.private".into()] },
    ];
    let t = dkim_tables(&dirs);
    assert_eq!(
        t.key_table,
        "mail._domainkey.ex.com ex.com:mail:/etc/dockpanel/dkim/ex.com/mail.private\n\
s1._domainkey.two.org two.org:s1:/etc/dockpanel/dkim/two.org/s1.private\n\
s2._domainkey.two.org two.org:s2:/etc/dockpanel/dkim/two.org/s2.private"
    );
    assert_eq!(
        t.signing_table,
        "*@ex.com mail._domainkey.ex.com\n*@two.org s1._domainkey.two.org\n*@two.org s2._domainkey.two.org"
    );
    let empty = dkim_tables(&vec![]);
    assert_eq!(empty.key_table, "");
}

#[test]
fn bearer_token_and_audit() {
    assert_eq!(authorize("/health", None, "t"), AuthDecision::Allow);
    assert_eq!(authorize("/sites", Some("Bearer t"), "t"), AuthDecision::Allow);
    assert_eq!(authorize("/sites", Some("Bearer x"), "t"), AuthDecision::Unauthorized);
    assert_eq!(authorize("/sites", Some("t"), "t"), AuthDecision::Unauthorized);
    assert_eq!(authorize("/sites", None, "t"), AuthDecision::Unauthorized);
    assert!(audited("POST") && audited("PUT") && audited("DELETE"));
    assert!(!audited("GET"));
}

#[test]
fn orderings() {
    let a: Vec<char> = "abc".chars().collect();
    let b: Vec<char> = "abd".chars().collect();
    let ab: Vec<char> = "ab".chars().collect();
    assert!(lex_lt_v(&a, &b));
    assert!(!lex_lt_v(&b, &a));
    assert!(lex_lt_v(&ab, &a));
    assert!(!lex_lt_v(&a, &a));
    let items = vec!["pear".to_string(), "apple".into(), "pear".into(), "fig".into()];
    assert_eq!(sorted_unique(items.clone()), vec!["apple", "fig", "pear"]);
    assert_eq!(sorted_descending(items), vec!["pear", "pear", "fig", "apple"]);
}

#[test]
fn tls_status_reads_the_first_setting() {
    let main_cf = "smtpd_tls_security_level = encrypt\nsmtp_tls_security_level=may\nsmtpd_tls_security_level = none\n";
    let s = tls_status(main_cf, "ssl = required\nssl_cert = </x\n");
    assert_eq!(s.inbound_tls, "encrypt");
    assert!(s.inbound_enforced);
    assert_eq!(s.outbound_tls, "may");
    assert!(!s.outbound_enforced);
    assert_eq!(s.dovecot_ssl, "required");
    let s = tls_status("", "");
    assert_eq!((s.inbound_tls.as_str(), s.dovecot_ssl.as_str()), ("", ""));
}

#[test]
fn rspamd_milter_edit() {
    let cf = "smtpd_milters = inet:127.0.0.1:8891\nnon_smtpd_milters = inet:127.0.0.1:8891\n";
    let edited = rspamd_main_cf(cf).unwrap().unwrap();
    assert!(edited.contains("smtpd_milters = inet:127.0.0.1:8891, inet:127.0.0.1:11332\n"));
    assert_eq!(rspamd_main_cf(&edited), Ok(None));
    assert_eq!(
        rspamd_main_cf("myhostname = x\n"),
        Err("Postfix has no smtpd_milters setting — install the mail server before the spam filter".to_string())
    );
}

#[test]
fn sender_check_is_armed_only_over_a_hashed_non_empty_map() {
    let mut e = SenderEnforcement::new("a@ex.com a@ex.com\n");
    assert_eq!(e.step(true), EnforceAction::WriteMap);
    assert_eq!(e.step(true), EnforceAction::Postmap);
    assert_eq!(e.step(true), EnforceAction::SetLoginMaps);
    assert_eq!(e.step(true), EnforceAction::SetRestriction);
    assert_eq!(e.step(true), EnforceAction::Stop);
    let mut e = SenderEnforcement::new("  \n");
    e.step(true);
    e.step(true);
    assert_eq!(e.step(true), EnforceAction::Stop);
    let mut e = SenderEnforcement::new("a@ex.com a@ex.com\n");
    e.step(true);
    assert_eq!(e.step(true), EnforceAction::Postmap);
    assert_eq!(e.step(false), EnforceAction::Stop);
}
