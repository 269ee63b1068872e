use dockpanel_agent::mail::{
    add_milter, plan_mail_sync, build_sender_login_map, check_sync, local_part_is_safe, mail_tables, SyncAccount, SyncAlias,
    SyncDomain, SyncRequest, NO_AUTHORISED_SENDER, OPENDKIM_MILTER, RSPAMD_MILTER,
};

#[test]
fn appends_beside_whatever_milter_is_already_there() {
    for existing in [OPENDKIM_MILTER, "unix:opendkim/opendkim.sock", "inet:localhost:8891"] {
        let cf = format!("mydomain = x\nsmtpd_milters = {existing}\nnon_smtpd_milters = {existing}\n");
        let out = add_milter(&cf, RSPAMD_MILTER).expect("milter keys present");
        assert!(out.contains(&format!("smtpd_milters = {existing}, {RSPAMD_MILTER}")), "got: {out}");
        assert!(out.contains(&format!("non_smtpd_milters = {existing}, {RSPAMD_MILTER}")), "got: {out}");
        assert!(out.ends_with('\n'));
    }
}

#[test]
fn is_idempotent() {
    let cf = format!("smtpd_milters = {OPENDKIM_MILTER}\nnon_smtpd_milters = {OPENDKIM_MILTER}\n");
    let once = add_milter(&cf, RSPAMD_MILTER).unwrap();
    let twice = add_milter(&once, RSPAMD_MILTER).unwrap();
    assert_eq!(once, twice);
    assert_eq!(twice.matches(RSPAMD_MILTER).count(), 2);
}

#[test]
fn absent_keys_report_absence_rather_than_a_no_op() {
    assert!(add_milter("mydomain = example.com\n", RSPAMD_MILTER).is_none());
    assert!(add_milter("", RSPAMD_MILTER).is_none());
}

#[test]
fn ignores_comments_and_lookalike_keys() {
    assert!(add_milter("# smtpd_milters = inet:127.0.0.1:8891\n", RSPAMD_MILTER).is_none());
    assert!(add_milter("smtpd_milters_extra = x\n", RSPAMD_MILTER).is_none());
}

#[test]
fn fills_an_empty_list_without_a_leading_comma() {
    let out = add_milter("smtpd_milters =\n", RSPAMD_MILTER).unwrap();
    assert!(out.contains(&format!("smtpd_milters = {RSPAMD_MILTER}")), "got: {out}");
    assert!(!out.contains(", "), "got: {out}");
}

fn domain(name: &str, enabled: bool) -> SyncDomain {
    SyncDomain { domain: name.into(), enabled, catch_all: None }
}

fn account(email: &str, enabled: bool) -> SyncAccount {
    SyncAccount {
        email: email.into(),
        password_hash: "{PLAIN}x".into(),
        quota_mb: 100,
        enabled,
        forward_to: None,
    }
}

/// Look up a key the way Postfix does: the full address first, then `@domain`.
fn owners_of(table: &str, sender: &str) -> Option<String> {
    let domain_key = sender.split_once('@').map(|(_, d)| format!("@{d}"));
    let find = |key: &str| {
        table.lines()
            .filter_map(|l| l.split_once('\t'))
            .find(|(k, _)| *k == key)
            .map(|(_, v)| v.to_string())
    };
    find(sender).or_else(|| domain_key.and_then(|k| find(&k)))
}

fn may_send_as(table: &str, login: &str, sender: &str) -> bool {
    owners_of(table, sender)
        .map(|v| v.split(',').any(|o| o == login))
        .unwrap_or(false)
}

fn two_tenants() -> SyncRequest {
    SyncRequest {
        domains: vec![domain("tenant-a.com", true), domain("tenant-b.com", true)],
        accounts: vec![account("sales@tenant-a.com", true), account("info@tenant-b.com", true)],
        aliases: vec![],
    }
}

#[test]
fn a_mailbox_may_send_as_itself() {
    let t = build_sender_login_map(&two_tenants());
    assert!(may_send_as(&t, "sales@tenant-a.com", "sales@tenant-a.com"));
    assert!(may_send_as(&t, "info@tenant-b.com", "info@tenant-b.com"));
}

#[test]
fn a_tenant_may_not_send_as_another_tenants_domain() {
    let t = build_sender_login_map(&two_tenants());
    assert!(!may_send_as(&t, "sales@tenant-a.com", "info@tenant-b.com"));
    assert!(!may_send_as(&t, "sales@tenant-a.com", "ceo@tenant-b.com"));
    assert!(!may_send_as(&t, "info@tenant-b.com", "sales@tenant-a.com"));
}

#[test]
fn an_invented_local_part_at_a_hosted_domain_is_still_owned() {
    let t = build_sender_login_map(&two_tenants());
    assert!(owners_of(&t, "no-such-mailbox@tenant-b.com").is_some());
    assert!(!may_send_as(&t, "sales@tenant-a.com", "no-such-mailbox@tenant-b.com"));
}

#[test]
fn a_domain_with_no_mailbox_is_owned_by_nobody() {
    let mut req = two_tenants();
    req.domains.push(domain("parked.com", true));
    let t = build_sender_login_map(&req);
    assert_eq!(owners_of(&t, "anyone@parked.com").as_deref(), Some(NO_AUTHORISED_SENDER));
    assert!(!may_send_as(&t, "sales@tenant-a.com", "anyone@parked.com"));
    assert!(!may_send_as(&t, "info@tenant-b.com", "anyone@parked.com"));
}

#[test]
fn a_disabled_mailbox_owns_neither_itself_nor_its_domain() {
    let req = SyncRequest {
        domains: vec![domain("tenant-a.com", true)],
        accounts: vec![account("sales@tenant-a.com", false)],
        aliases: vec![],
    };
    let t = build_sender_login_map(&req);
    assert!(!t.contains("sales@tenant-a.com\tsales@tenant-a.com"));
    assert_eq!(owners_of(&t, "sales@tenant-a.com").as_deref(), Some(NO_AUTHORISED_SENDER));
}

#[test]
fn a_subdomain_is_not_its_parent_domain() {
    let req = SyncRequest {
        domains: vec![domain("example.com", true), domain("mail.example.com", true)],
        accounts: vec![account("a@example.com", true), account("b@mail.example.com", true)],
        aliases: vec![],
    };
    let t = build_sender_login_map(&req);
    assert!(!may_send_as(&t, "b@mail.example.com", "a@example.com"));
    assert!(!may_send_as(&t, "a@example.com", "anything@mail.example.com"));
    assert!(!may_send_as(&t, "b@mail.example.com", "invented@example.com"));
}

#[test]
fn an_address_at_no_hosted_domain_is_refused() {
    let t = build_sender_login_map(&two_tenants());
    assert!(owners_of(&t, "anyone@external.example").is_none());
    assert!(!may_send_as(&t, "sales@tenant-a.com", "anyone@external.example"));
}

#[test]
fn a_subdomain_that_was_never_added_is_refused() {
    let t = build_sender_login_map(&two_tenants());
    assert!(owners_of(&t, "orders@shop.tenant-a.com").is_none());
    assert!(!may_send_as(&t, "sales@tenant-a.com", "orders@shop.tenant-a.com"));
}

#[test]
fn mailboxes_within_one_domain_may_send_as_each_other() {
    let req = SyncRequest {
        domains: vec![domain("tenant-a.com", true)],
        accounts: vec![account("sales@tenant-a.com", true), account("ceo@tenant-a.com", true)],
        aliases: vec![],
    };
    let t = build_sender_login_map(&req);
    assert!(may_send_as(&t, "sales@tenant-a.com", "invoices@tenant-a.com"));
}

#[test]
fn every_line_is_a_well_formed_two_column_row() {
    let mut req = two_tenants();
    req.domains.push(domain("disabled.com", false));
    let t = build_sender_login_map(&req);
    assert!(!t.is_empty());
    for line in t.lines() {
        let cols: Vec<&str> = line.split('\t').collect();
        assert_eq!(cols.len(), 2, "not two columns: {line:?}");
        assert!(!cols[0].is_empty() && !cols[1].is_empty(), "empty column: {line:?}");
        assert!(!cols[1].contains(",,"), "empty owner in list: {line:?}");
    }
    assert!(!t.contains("@disabled.com"), "a disabled domain must get no row");
}

#[test]
fn the_sender_map_text_is_exact() {
    let req = SyncRequest {
        domains: vec![domain("a.com", true), domain("p.com", true)],
        accounts: vec![account("x@a.com", true), account("y@a.com", true)],
        aliases: vec![],
    };
    assert_eq!(
        build_sender_login_map(&req),
        "x@a.com\tx@a.com\ny@a.com\ty@a.com\n@a.com\tx@a.com,y@a.com\n@p.com\tdockpanel-no-authorised-sender"
    );
}

#[test]
fn local_parts_must_be_path_safe() {
    assert!(local_part_is_safe("a@example.com"));
    assert!(local_part_is_safe(".a@example.com"));
    assert!(!local_part_is_safe("..@example.com"));
    assert!(!local_part_is_safe("@example.com"));
    assert!(!local_part_is_safe("a@"));
    assert!(!local_part_is_safe("example.com"));
}

#[test]
fn sync_checks_report_the_first_problem() {
    let mut req = two_tenants();
    assert_eq!(check_sync(&req), Ok(()));
    req.accounts.push(account("bad user@a.com", true));
    assert_eq!(check_sync(&req), Err("Invalid characters in email address".to_string()));
    req.accounts.pop();
    req.accounts.push(account("a@b@c.com", true));
    assert_eq!(check_sync(&req), Err("Invalid email format".to_string()));
    req.accounts.pop();
    req.accounts.push(account("..@c.com", true));
    assert_eq!(check_sync(&req), Err("Invalid email local part".to_string()));
    req.accounts.pop();
    let mut acc = account("ok@c.com", true);
    acc.password_hash = "a:b".into();
    req.accounts.push(acc);
    assert_eq!(check_sync(&req), Err("Invalid characters in password hash".to_string()));
    req.accounts.pop();
    let mut acc = account("ok@c.com", true);
    acc.forward_to = Some("x y@z.com".into());
    req.accounts.push(acc);
    assert_eq!(check_sync(&req), Err("Invalid characters in forward_to address".to_string()));
    req.accounts.pop();
    req.aliases.push(SyncAlias { source: "@a.com".into(), destination: "x@a.com".into() });
    assert_eq!(check_sync(&req), Err("Invalid alias source local part".to_string()));
    req.aliases.pop();
    req.aliases.push(SyncAlias { source: "s@a.com".into(), destination: "x@a.com y".into() });
    assert_eq!(check_sync(&req), Err("Invalid characters in alias data".to_string()));
    req.aliases.pop();
    req.domains.push(SyncDomain { domain: "c.com".into(), enabled: true, catch_all: Some("x y".into()) });
    assert_eq!(check_sync(&req), Err("Invalid characters in catch-all address".to_string()));
}

#[test]
fn the_sync_tables_are_exact() {
    let mut acc = account("sales@a.com", true);
    acc.forward_to = Some("boss@b.com".into());
    let req = SyncRequest {
        domains: vec![
            SyncDomain { domain: "a.com".into(), enabled: true, catch_all: Some("sales@a.com".into()) },
            domain("off.com", false),
        ],
        accounts: vec![acc, account("gone@a.com", false)],
        aliases: vec![SyncAlias { source: "info@a.com".into(), destination: "sales@a.com".into() }],
    };
    let t = mail_tables(&req);
    assert_eq!(t.virtual_domains, "a.com");
    assert_eq!(t.virtual_mailbox_maps, "sales@a.com\ta.com/sales/\n@a.com\tsales@a.com");
    assert_eq!(t.virtual_alias_maps, "info@a.com\tsales@a.com\nsales@a.com\tboss@b.com");
    assert_eq!(
        t.dovecot_users,
        "sales@a.com:{PLAIN}x::::/var/vmail/a.com/sales::userdb_quota_rule=*:storage=100M"
    );
    assert_eq!(t.maildirs, vec!["/var/vmail/a.com/sales".to_string()]);
}

#[test]
fn add_milter_twice_is_adding_it_once() {
    let cf = "smtpd_milters = inet:127.0.0.1:8891\nnon_smtpd_milters = inet:127.0.0.1:8891\n";
    let m = "inet:127.0.0.1:11332";
    let once = add_milter(cf, m).unwrap();
    let twice = add_milter(&once, m).unwrap();
    assert_eq!(twice, once);
    assert_eq!(twice.matches(m).count(), 2);
    // Windows line endings read back as plain lines, and re-run unchanged.
    let crlf = "myhostname = x\r\nsmtpd_milters = a\r\n";
    let once = add_milter(crlf, m).unwrap();
    assert_eq!(once, format!("myhostname = x\nsmtpd_milters = a, {m}\n"));
    assert_eq!(add_milter(&once, m).unwrap(), once);
    // A kept line that still ends in a carriage return after its line ending
    // is read loses it on the next pass.
    let odd = "note = x\r\r\nsmtpd_milters = a\n";
    let once = add_milter(odd, m).unwrap();
    assert_ne!(add_milter(&once, m).unwrap(), once);
}

#[test]
fn a_refused_sync_is_a_400_with_nothing_to_write() {
    let mut bad = account("sales@a.com", true);
    bad.password_hash = "x:y".into();
    let req = SyncRequest { domains: vec![domain("a.com", true)], accounts: vec![bad], aliases: vec![] };
    match plan_mail_sync(&req) {
        Err((status, m)) => {
            assert_eq!(status, 400);
            assert_eq!(m, "Invalid characters in password hash");
        }
        Ok(_) => panic!("a bad hash must be refused"),
    }
    let req = SyncRequest {
        domains: vec![domain("a.com", true)],
        accounts: vec![account("sales@a.com", true)],
        aliases: vec![],
    };
    let plan = plan_mail_sync(&req).ok().unwrap();
    assert_eq!(plan.tables.virtual_domains, "a.com");
    assert_eq!(plan.tables.maildirs, vec!["/var/vmail/a.com/sales".to_string()]);
    assert_eq!(plan.sender_login_map, build_sender_login_map(&req));
}
