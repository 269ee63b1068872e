//! The configuration the mail installer writes: its Postfix block, the
//! submission service, the Dovecot file, and the `postconf` settings it
//! applies. Each addition is made once: a re-run of the installer finds it
//! and leaves the file alone.
use vstd::prelude::*;
use crate::mail::OPENDKIM_MILTER;
use crate::text::{
    append, chars_of, contains, find_from_v, is_ws, lemma_find_from, lines, lines_v, occurs_at, split_on, starts_with_v,
    string_of, strip_cr, trim_start, trim_start_v, views, lemma_split_on_concat, lemma_split_on_none, lemma_split_on_len,
};

verus! {

pub open spec fn mail_marker() -> Seq<char> {
    "DockPanel mail configuration"@
}

pub open spec fn postfix_head() -> Seq<char> {
    "\nvirtual_mailbox_domains = /etc/postfix/virtual_domains\nvirtual_mailbox_maps = hash:/etc/postfix/virtual_mailbox_maps\n# Nothing is delivered by the local transport. mydestination defaults to\n# include $myhostname, and when the panel host is also a hosted mail domain\n# that default silently outranks virtual_mailbox_domains: mail for a real\n# mailbox is handed to `local`, which has no such Unix user, and bounces\n# \"unknown user\". A virtual-mailbox host must claim nothing but localhost.\nmydestination = localhost\nvirtual_alias_maps = hash:/etc/postfix/virtual_alias_maps\nvirtual_mailbox_base = /var/vmail\nvirtual_uid_maps = static:5000\nvirtual_gid_maps = static:5000\nvirtual_transport = lmtp:unix:private/dovecot-lmtp\n\n# SMTP authentication via Dovecot\nsmtpd_sasl_type = dovecot\nsmtpd_sasl_path = private/auth\nsmtpd_sasl_auth_enable = yes\n# Trust only this host's own addresses (not the whole subnet) so permit_mynetworks can't let a\n# same-subnet neighbour relay unauthenticated on shared-network hosts.\nmynetworks_style = host\nsmtpd_recipient_restrictions = permit_sasl_authenticated, permit_mynetworks, reject_unauth_destination\n\n# TLS\nsmtpd_tls_security_level = may\nsmtpd_tls_auth_only = yes\n\n# SMTP smuggling prevention (CVE-2023-51764)\nsmtpd_forbid_bare_newline = yes\n\n# OpenDKIM milter\nmilter_protocol = 6\nmilter_default_action = accept\nsmtpd_milters = "@
}

pub open spec fn postfix_between() -> Seq<char> {
    "\nnon_smtpd_milters = "@
}

pub open spec fn postfix_tail() -> Seq<char> {
    "\n"@
}

pub open spec fn dovecot_base() -> Seq<char> {
    "# DockPanel Dovecot configuration\nprotocols = imap pop3 lmtp\n\nmail_location = maildir:/var/vmail/%d/%n\nmail_uid = 5000\nmail_gid = 5000\nfirst_valid_uid = 5000\n\n# Authentication\npassdb {\n  driver = passwd-file\n  args = /etc/dovecot/users\n}\n\nuserdb {\n  driver = passwd-file\n  args = /etc/dovecot/users\n  default_fields = uid=5000 gid=5000 home=/var/vmail/%d/%n\n}\n\n# LMTP for Postfix delivery\nservice lmtp {\n  unix_listener /var/spool/postfix/private/dovecot-lmtp {\n    mode = 0600\n    user = postfix\n    group = postfix\n  }\n}\n\n# SASL auth for Postfix\nservice auth {\n  unix_listener /var/spool/postfix/private/auth {\n    mode = 0660\n    user = postfix\n    group = postfix\n  }\n}\n\n# SSL\n"@
}

/// The block appended to `main.cf`: the marker comment, the virtual-mailbox
/// settings, SASL through Dovecot, TLS, and the OpenDKIM milter.
pub open spec fn postfix_block() -> Seq<char> {
    "\n# "@ + mail_marker() + postfix_head() + OPENDKIM_MILTER@ + postfix_between() + OPENDKIM_MILTER@ + postfix_tail()
}

/// A text holds `m` when something else surrounds it.
pub proof fn lemma_contains_middle(a: Seq<char>, m: Seq<char>, b: Seq<char>)
    ensures contains(a + m + b, m),
{
    let s = a + m + b;
    assert(s.subrange(a.len() as int, (a.len() + m.len()) as int) =~= m);
    assert(occurs_at(s, m, a.len() as int));
    lemma_find_from(s, m, 0);
}

fn has_text(s: &str, p: &str) -> (r: bool)
    ensures r == contains(s@, p@),
{
    proof { lemma_find_from(s@, p@, 0); }
    find_from_v(&chars_of(s), &chars_of(p), 0).is_some()
}

/// `main.cf` with the mail block appended, unless it already carries it.
pub open spec fn mail_main_cf(cf: Seq<char>) -> Option<Seq<char>> {
    if contains(cf, mail_marker()) { None } else { Some(cf + "\n"@ + postfix_block()) }
}

/// The new `main.cf`, or `None` when the mail block is already there.
pub fn main_cf_with_mail(main_cf: &str) -> (r: Option<String>)
    ensures
        match mail_main_cf(main_cf@) {
            Some(x) => r matches Some(y) && y@ == x,
            None => r is None,
        },
{
    if has_text(main_cf, "DockPanel mail configuration") {
        return None;
    }
    let mut v = chars_of(main_cf);
    append(&mut v, &chars_of("\n"));
    append(&mut v, &chars_of("\n# "));
    append(&mut v, &chars_of("DockPanel mail configuration"));
    append(&mut v, &chars_of("\nvirtual_mailbox_domains = /etc/postfix/virtual_domains\nvirtual_mailbox_maps = hash:/etc/postfix/virtual_mailbox_maps\n# Nothing is delivered by the local transport. mydestination defaults to\n# include $myhostname, and when the panel host is also a hosted mail domain\n# that default silently outranks virtual_mailbox_domains: mail for a real\n# mailbox is handed to `local`, which has no such Unix user, and bounces\n# \"unknown user\". A virtual-mailbox host must claim nothing but localhost.\nmydestination = localhost\nvirtual_alias_maps = hash:/etc/postfix/virtual_alias_maps\nvirtual_mailbox_base = /var/vmail\nvirtual_uid_maps = static:5000\nvirtual_gid_maps = static:5000\nvirtual_transport = lmtp:unix:private/dovecot-lmtp\n\n# SMTP authentication via Dovecot\nsmtpd_sasl_type = dovecot\nsmtpd_sasl_path = private/auth\nsmtpd_sasl_auth_enable = yes\n# Trust only this host's own addresses (not the whole subnet) so permit_mynetworks can't let a\n# same-subnet neighbour relay unauthenticated on shared-network hosts.\nmynetworks_style = host\nsmtpd_recipient_restrictions = permit_sasl_authenticated, permit_mynetworks, reject_unauth_destination\n\n# TLS\nsmtpd_tls_security_level = may\nsmtpd_tls_auth_only = yes\n\n# SMTP smuggling prevention (CVE-2023-51764)\nsmtpd_forbid_bare_newline = yes\n\n# OpenDKIM milter\nmilter_protocol = 6\nmilter_default_action = accept\nsmtpd_milters = "));
    append(&mut v, &chars_of(OPENDKIM_MILTER));
    append(&mut v, &chars_of("\nnon_smtpd_milters = "));
    append(&mut v, &chars_of(OPENDKIM_MILTER));
    append(&mut v, &chars_of("\n"));
    assert(v@ =~= main_cf@ + "\n"@ + postfix_block());
    Some(string_of(&v))
}

/// Adding the mail block twice adds it once: what the first run writes,
/// the second finds.
pub proof fn law_mail_block_added_once(cf: Seq<char>)
    ensures mail_main_cf(cf) matches Some(x) ==> mail_main_cf(x) is None,
{
    if !contains(cf, mail_marker()) {
        let tail = postfix_head() + OPENDKIM_MILTER@ + postfix_between() + OPENDKIM_MILTER@ + postfix_tail();
        let x = cf + "\n"@ + postfix_block();
        assert(x =~= (cf + "\n"@ + "\n# "@) + mail_marker() + tail);
        lemma_contains_middle(cf + "\n"@ + "\n# "@, mail_marker(), tail);
    }
}

// ── master.cf ───────────────────────────────────────────────────────────

/// A `master.cf` line that runs the submission service: not commented out,
/// naming `submission`, with an `inet` type.
pub open spec fn active_submission(l: Seq<char>) -> bool {
    let t = trim_start(l);
    !("#"@.is_prefix_of(t)) && "submission"@.is_prefix_of(t) && contains(t, "inet"@)
}

pub open spec fn has_active_submission(cf: Seq<char>) -> bool {
    exists|i: int| 0 <= i < lines(cf).len() && active_submission(#[trigger] lines(cf)[i])
}

pub open spec fn submission_line() -> Seq<char> {
    "submission inet n - y - - smtpd"@
}

pub open spec fn submission_options() -> Seq<char> {
    "  -o syslog_name=postfix/submission\n  -o smtpd_tls_security_level=encrypt\n  -o smtpd_sasl_auth_enable=yes\n  -o smtpd_recipient_restrictions=permit_sasl_authenticated,reject\n"@
}

/// The submission service block appended to `master.cf`.
pub open spec fn submission_block() -> Seq<char> {
    "\n"@ + submission_line() + "\n"@ + submission_options()
}

pub open spec fn submission_master_cf(cf: Seq<char>) -> Option<Seq<char>> {
    if has_active_submission(cf) { None } else { Some(cf + "\n"@ + submission_block()) }
}

fn active_submission_v(l: &Vec<char>) -> (r: bool)
    ensures r == active_submission(l@),
{
    let t = trim_start_v(l);
    let hash = chars_of("#");
    let sub = chars_of("submission");
    let inet = chars_of("inet");
    proof { lemma_find_from(t@, inet@, 0); }
    !starts_with_v(&t, &hash) && starts_with_v(&t, &sub) && find_from_v(&t, &inet, 0).is_some()
}

/// Whether `master.cf` already runs the submission service.
pub fn runs_submission(master_cf: &str) -> (r: bool)
    ensures r == has_active_submission(master_cf@),
{
    let ls = lines_v(&chars_of(master_cf));
    let mut i: usize = 0;
    while i < ls.len()
        invariant
            i <= ls.len(),
            views(ls@) == lines(master_cf@),
            forall|k: int| 0 <= k < i ==> !active_submission(#[trigger] lines(master_cf@)[k]),
        decreases ls.len() - i,
    {
        assert(ls@[i as int]@ == lines(master_cf@)[i as int]);
        if active_submission_v(&ls[i]) {
            return true;
        }
        i += 1;
    }
    false
}

/// The new `master.cf`, or `None` when submission already runs.
pub fn master_cf_with_submission(master_cf: &str) -> (r: Option<String>)
    ensures
        match submission_master_cf(master_cf@) {
            Some(x) => r matches Some(y) && y@ == x,
            None => r is None,
        },
{
    if runs_submission(master_cf) {
        return None;
    }
    let mut v = chars_of(master_cf);
    append(&mut v, &chars_of("\n"));
    append(&mut v, &chars_of("\n"));
    append(&mut v, &chars_of("submission inet n - y - - smtpd"));
    append(&mut v, &chars_of("\n"));
    append(&mut v, &chars_of("  -o syslog_name=postfix/submission\n  -o smtpd_tls_security_level=encrypt\n  -o smtpd_sasl_auth_enable=yes\n  -o smtpd_recipient_restrictions=permit_sasl_authenticated,reject\n"));
    assert(v@ =~= master_cf@ + "\n"@ + submission_block());
    Some(string_of(&v))
}

/// Enabling submission twice enables it once: the block the first run
/// appends is a line the second run recognises.
pub proof fn law_submission_added_once(cf: Seq<char>)
    ensures submission_master_cf(cf) matches Some(x) ==> submission_master_cf(x) is None,
{
    if !has_active_submission(cf) {
        let x = cf + "\n"@ + submission_block();
        reveal_strlit("\n");
        reveal_strlit("submission inet n - y - - smtpd");
        reveal_strlit("submission");
        reveal_strlit("inet");
        reveal_strlit("#");
        let a = cf + "\n"@;
        let l = submission_line();
        let rest = submission_options();
        assert(x =~= a + seq!['\n'] + (l + seq!['\n'] + rest));
        lemma_split_on_concat(a, l + seq!['\n'] + rest, '\n');
        lemma_split_on_concat(l, rest, '\n');
        assert(!l.contains('\n')) by {
            if l.contains('\n') {
                let k = choose|k: int| 0 <= k < l.len() && l[k] == '\n';
                assert(l[k] != '\n');
            }
        }
        lemma_split_on_none(l, '\n');
        lemma_split_on_len(a, '\n');
        lemma_split_on_len(rest, '\n');
        let pa = split_on(a, '\n');
        let p = split_on(x, '\n');
        assert(p == pa + (seq![l] + split_on(rest, '\n')));
        let k = pa.len() as int;
        assert(p[k] == l);
        assert(k < p.len() - 1);
        assert(lines(x)[k] == strip_cr(l));
        assert(strip_cr(l) == l);
        assert(trim_start(l) == l);
        assert(!("#"@.is_prefix_of(l))) by { assert(l[0] != "#"@[0]); }
        assert("submission"@.is_prefix_of(l)) by { assert(l.subrange(0, 10) =~= "submission"@); }
        lemma_contains_middle(l.take(11), "inet"@, l.skip(15));
        assert(l =~= l.take(11) + "inet"@ + l.skip(15));
        assert(active_submission(lines(x)[k]));
    }
}

// ── Dovecot ─────────────────────────────────────────────────────────────

/// The Dovecot drop-in: the virtual-user settings, then TLS with the panel
/// host's certificate when the box has one.
pub open spec fn dovecot_config(tls: Option<(Seq<char>, Seq<char>)>) -> Seq<char> {
    dovecot_base() + match tls {
        Some((cert, key)) => "ssl = required\nssl_cert = <"@ + cert + "\nssl_key = <"@ + key + "\n"@,
        None => "ssl = required\n"@,
    }
}

pub fn dovecot_config_v(tls: Option<(&str, &str)>) -> (r: String)
    ensures
        r@ == dovecot_config(match tls { Some((c, k)) => Some((c@, k@)), None => None }),
{
    let mut v = chars_of("# DockPanel Dovecot configuration\nprotocols = imap pop3 lmtp\n\nmail_location = maildir:/var/vmail/%d/%n\nmail_uid = 5000\nmail_gid = 5000\nfirst_valid_uid = 5000\n\n# Authentication\npassdb {\n  driver = passwd-file\n  args = /etc/dovecot/users\n}\n\nuserdb {\n  driver = passwd-file\n  args = /etc/dovecot/users\n  default_fields = uid=5000 gid=5000 home=/var/vmail/%d/%n\n}\n\n# LMTP for Postfix delivery\nservice lmtp {\n  unix_listener /var/spool/postfix/private/dovecot-lmtp {\n    mode = 0600\n    user = postfix\n    group = postfix\n  }\n}\n\n# SASL auth for Postfix\nservice auth {\n  unix_listener /var/spool/postfix/private/auth {\n    mode = 0660\n    user = postfix\n    group = postfix\n  }\n}\n\n# SSL\n");
    match tls {
        Some((cert, key)) => {
            append(&mut v, &chars_of("ssl = required\nssl_cert = <"));
            append(&mut v, &chars_of(cert));
            append(&mut v, &chars_of("\nssl_key = <"));
            append(&mut v, &chars_of(key));
            append(&mut v, &chars_of("\n"));
        },
        None => {
            append(&mut v, &chars_of("ssl = required\n"));
        },
    }
    string_of(&v)
}

// ── postconf ────────────────────────────────────────────────────────────

/// The `postconf` assignments the installer applies, in order: listen on
/// every interface; with a panel host name, use it as the HELO name and
/// narrow the local destinations to localhost; with the host's certificate,
/// serve it.
pub open spec fn postconf_settings(host: Option<Seq<char>>, tls: Option<(Seq<char>, Seq<char>)>) -> Seq<Seq<char>> {
    seq!["inet_interfaces=all"@]
        + match host {
            Some(h) => seq!["myhostname="@ + h, "mydestination=localhost"@],
            None => Seq::empty(),
        }
        + match tls {
            Some((c, k)) => seq!["smtpd_tls_cert_file="@ + c, "smtpd_tls_key_file="@ + k],
            None => Seq::empty(),
        }
}

fn assign(key: &str, value: &str) -> (r: String)
    ensures r@ == key@ + value@,
{
    let mut v = chars_of(key);
    append(&mut v, &chars_of(value));
    string_of(&v)
}

pub fn postconf_settings_v(host: Option<&str>, tls: Option<(&str, &str)>) -> (r: Vec<String>)
    ensures
        crate::text::str_views(r@) == postconf_settings(
            match host { Some(h) => Some(h@), None => None },
            match tls { Some((c, k)) => Some((c@, k@)), None => None },
        ),
{
    let mut r: Vec<String> = Vec::new();
    r.push(string_of(&chars_of("inet_interfaces=all")));
    match host {
        Some(h) => {
            r.push(assign("myhostname=", h));
            r.push(string_of(&chars_of("mydestination=localhost")));
        },
        None => {},
    }
    match tls {
        Some((c, k)) => {
            r.push(assign("smtpd_tls_cert_file=", c));
            r.push(assign("smtpd_tls_key_file=", k));
        },
        None => {},
    }
    proof {
        let hv = match host { Some(h) => Some(h@), None => None };
        let tv = match tls { Some((c, k)) => Some((c@, k@)), None => None };
        assert(crate::text::str_views(r@) =~= postconf_settings(hv, tv));
    }
    r
}

} // verus!
