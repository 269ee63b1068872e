//! Mail settings outside the sync: the webmail proxy fragment, relay, rate
//! limit and TLS lines of `main.cf`, DKIM key paths, the queue, and mailbox
//! backups.
use vstd::prelude::*;
use crate::text::{
    all_digits, append, chars_of, contains, decimal, decimal_v, digit, eq_v, find, find_from_v, has_char,
    is_alnum, is_hex, join, join_v, lemma_find_from, lines, lines_v, parse_u32, parse_u32_v, slice, split_on,
    split_v, starts_with_v, strip_trailing, strip_trailing_v, string_of, trim, trim_v, views, ws_tokens,
    ws_tokens_v, lemma_views_push, alnum, hex, strip_leading, str_views, lemma_split_on_len,
    lemma_split_on_concat, lemma_split_on_none, lemma_trim_fixed, lemma_trim_ws_prefix, lemma_decimal_digits,
    is_ws, strip_cr, digits_value,
};

verus! {

// ── webmail ─────────────────────────────────────────────────────────────

/// The webmail fragment up to the Roundcube port.
pub const WEBMAIL_HEAD: &'static str = "# DockPanel webmail (Roundcube) reverse-proxy — managed by agent, do not edit\n\
         # v2.10.1: sub_filter rewrites Roundcube's root-anchored URLs (form action,\n\
         # comm_path) under /webmail/ so navigation doesn't land on the panel root.\n\
         location /webmail/ {\n\
         \x20   proxy_pass http://127.0.0.1:";

/// The webmail fragment after the Roundcube port.
pub const WEBMAIL_TAIL: &'static str = "/;\n\
         \x20   proxy_http_version 1.1;\n\
         \x20   proxy_set_header Host $host;\n\
         \x20   proxy_set_header X-Real-IP $remote_addr;\n\
         \x20   proxy_set_header X-Forwarded-For $proxy_add_x_forwarded_for;\n\
         \x20   proxy_set_header X-Forwarded-Proto $scheme;\n\
         \x20   proxy_set_header X-Forwarded-Host $host;\n\
         \x20   proxy_set_header Accept-Encoding \"\";\n\
         \x20   proxy_redirect / /webmail/;\n\
         \x20   sub_filter '\"/?_task=' '\"/webmail/?_task=';\n\
         \x20   sub_filter_once off;\n\
         \x20   sub_filter_types text/html application/json application/javascript text/javascript;\n\
         \x20   proxy_read_timeout 300s;\n\
         \x20   client_max_body_size 25M;\n\
         \x20   # Roundcube's Elastic skin frames itself same-origin. The panel\n\
         \x20   # vhost sends X-Frame-Options DENY and frame-ancestors 'none',\n\
         \x20   # which this location inherits — the iframe is refused, the list\n\
         \x20   # JS throws a SecurityError reaching into it, and the inbox\n\
         \x20   # renders empty however much mail is really in it. Re-declare the\n\
         \x20   # whole header set here (nginx add_header in a location replaces\n\
         \x20   # the inherited set rather than adding to it) with framing\n\
         \x20   # narrowed to same-origin, not opened up.\n\
         \x20   add_header X-Content-Type-Options \"nosniff\" always;\n\
         \x20   add_header X-Frame-Options \"SAMEORIGIN\" always;\n\
         \x20   add_header Referrer-Policy \"strict-origin-when-cross-origin\" always;\n\
         \x20   add_header Permissions-Policy \"camera=(), microphone=(), geolocation=()\" always;\n\
         \x20   add_header Strict-Transport-Security \"max-age=31536000; includeSubDomains\" always;\n\
         \x20   add_header Content-Security-Policy \"frame-ancestors 'self'\" always;\n\
         \x20   add_header X-XSS-Protection \"1; mode=block\" always;\n\
         }\n";

/// The `/webmail/` reverse-proxy fragment for a Roundcube host port: the
/// single source of that file's contents.
pub fn webmail_nginx_block(port: u16) -> (r: String)
    ensures r@ == WEBMAIL_HEAD@ + decimal(port as nat) + WEBMAIL_TAIL@,
{
    let mut v = chars_of(WEBMAIL_HEAD);
    append(&mut v, &decimal_v(port as u64));
    append(&mut v, &chars_of(WEBMAIL_TAIL));
    string_of(&v)
}


/// Where the panel's Let's Encrypt certificate and key for `host` live.
pub fn panel_tls_paths(host: &str) -> (r: (String, String))
    ensures
        r.0@ == "/etc/letsencrypt/live/"@ + host@ + "/fullchain.pem"@,
        r.1@ == "/etc/letsencrypt/live/"@ + host@ + "/privkey.pem"@,
{
    let mut dir = chars_of("/etc/letsencrypt/live/");
    append(&mut dir, &chars_of(host));
    let mut cert = dir.clone();
    append(&mut cert, &chars_of("/fullchain.pem"));
    let mut key = dir;
    append(&mut key, &chars_of("/privkey.pem"));
    (string_of(&cert), string_of(&key))
}

/// The host a `server_name` line names: the first name, unless the
/// directive is empty or the catch-all `_`.
pub open spec fn server_name_of(line: Seq<char>) -> Option<Seq<char>> {
    let t = trim(line);
    if "server_name "@.is_prefix_of(t) {
        let name = trim(strip_trailing(t.skip(12), ';'));
        if name.len() > 0 && name != "_"@ && ws_tokens(name).len() > 0 { Some(ws_tokens(name)[0]) } else { None }
    } else {
        None
    }
}

/// The first host a vhost file's `server_name` lines name.
pub open spec fn first_server_name(ls: Seq<Seq<char>>) -> Option<Seq<char>>
    decreases ls.len(),
{
    if ls.len() == 0 {
        None
    } else if server_name_of(ls[0]) is Some {
        server_name_of(ls[0])
    } else {
        first_server_name(ls.drop_first())
    }
}

fn server_name_of_v(line: &Vec<char>) -> (r: Option<Vec<char>>)
    ensures
        match r {
            Some(x) => server_name_of(line@) == Some(x@),
            None => server_name_of(line@) is None,
        },
{
    let t = trim_v(line);
    let pre = chars_of("server_name ");
    proof { reveal_strlit("server_name "); }
    if !starts_with_v(&t, &pre) {
        return None;
    }
    let rest = slice(&t, 12, t.len());
    assert(rest@ =~= t@.skip(12));
    let name = trim_v(&strip_trailing_v(&rest, ';'));
    let us = chars_of("_");
    if name.len() > 0 && !eq_v(&name, &us) {
        let toks = ws_tokens_v(&name);
        if toks.len() > 0 {
            assert(views(toks@)[0] == toks@[0]@);
            return Some(toks[0].clone());
        }
    }
    None
}

/// The panel vhost's host name, read from the file's text; `None` for an
/// IP-based install (`_`) or a file that names none.
pub fn panel_server_name_in(content: &str) -> (r: Option<String>)
    ensures
        match r {
            Some(x) => first_server_name(lines(content@)) == Some(x@),
            None => first_server_name(lines(content@)) is None,
        },
{
    let cv = chars_of(content);
    let ls = lines_v(&cv);
    let mut i: usize = 0;
    assert(lines(cv@).skip(0) =~= lines(cv@));
    while i < ls.len()
        invariant
            i <= ls.len(),
            views(ls@) == lines(cv@),
            cv@ == content@,
            first_server_name(lines(cv@)) == first_server_name(lines(cv@).skip(i as int)),
        decreases ls.len() - i,
    {
        let ghost rest = lines(cv@).skip(i as int);
        assert(rest[0] == ls@[i as int]@);
        assert(rest.drop_first() =~= lines(cv@).skip(i + 1));
        match server_name_of_v(&ls[i]) {
            Some(x) => { return Some(string_of(&x)); },
            None => {},
        }
        i += 1;
    }
    assert(lines(cv@).skip(i as int).len() == 0);
    None
}

// ── the queue and DKIM ──────────────────────────────────────────────────

/// A Postfix queue id: 1 to 20 hex digits, surrounding whitespace ignored.
pub open spec fn queue_id_ok(id: Seq<char>) -> bool {
    let t = trim(id);
    t.len() > 0 && t.len() <= 20 && forall|k: int| 0 <= k < t.len() ==> is_hex(#[trigger] t[k])
}

fn all_hex_v(s: &Vec<char>) -> (r: bool)
    ensures r == forall|k: int| 0 <= k < s@.len() ==> is_hex(#[trigger] s@[k]),
{
    let mut i: usize = 0;
    while i < s.len()
        invariant i <= s.len(), forall|k: int| 0 <= k < i ==> is_hex(#[trigger] s@[k]),
        decreases s.len() - i,
    {
        if !hex(s[i]) {
            return false;
        }
        i += 1;
    }
    true
}

/// Whether a queue-delete request names a well-formed queue id.
pub fn is_valid_queue_id(id: &str) -> (r: bool)
    ensures r == queue_id_ok(id@),
{
    let t = trim_v(&chars_of(id));
    t.len() > 0 && all_hex_v(&t) && t.len() <= 20
}

/// A mail domain as the agent takes it: no `/`, `\`, or `..`, and only
/// ASCII letters, digits, `.` and `-`.
pub open spec fn mail_domain_ok(d: Seq<char>) -> bool {
    !d.contains('/') && !d.contains('\\') && !contains(d, ".."@)
        && forall|k: int| 0 <= k < d.len() ==> is_alnum(#[trigger] d[k]) || d[k] == '.' || d[k] == '-'
}

/// A DKIM selector: no `/`, `\`, or `..`, and only ASCII letters, digits,
/// `-` and `_`.
pub open spec fn selector_ok(s: Seq<char>) -> bool {
    !s.contains('/') && !s.contains('\\') && !contains(s, ".."@)
        && forall|k: int| 0 <= k < s.len() ==> is_alnum(#[trigger] s[k]) || s[k] == '-' || s[k] == '_'
}

fn has_dotdot(s: &Vec<char>) -> (r: bool)
    ensures r == contains(s@, ".."@),
{
    let dd = chars_of("..");
    proof { lemma_find_from(s@, dd@, 0); }
    find_from_v(s, &dd, 0).is_some()
}

fn only_chars(s: &Vec<char>, a: char, b: char) -> (r: bool)
    ensures r == forall|k: int| 0 <= k < s@.len() ==> is_alnum(#[trigger] s@[k]) || s@[k] == a || s@[k] == b,
{
    let mut i: usize = 0;
    while i < s.len()
        invariant i <= s.len(), forall|k: int| 0 <= k < i ==> is_alnum(#[trigger] s@[k]) || s@[k] == a || s@[k] == b,
        decreases s.len() - i,
    {
        let c = s[i];
        if !(alnum(c) || c == a || c == b) {
            return false;
        }
        i += 1;
    }
    true
}

fn mail_domain_ok_v(d: &Vec<char>) -> (r: bool)
    ensures r == mail_domain_ok(d@),
{
    !has_char(d, '/') && !has_char(d, '\\') && !has_dotdot(d) && only_chars(d, '.', '-')
}

/// The trimmed domain of a domain request, if it is one the agent takes.
pub fn check_mail_domain(domain: &str) -> (r: Result<String, String>)
    ensures
        mail_domain_ok(trim(domain@)) ==> (r matches Ok(d) && d@ == trim(domain@)),
        !mail_domain_ok(trim(domain@)) ==> (r matches Err(m) && m@ == "Invalid domain format"@),
{
    let d = trim_v(&chars_of(domain));
    if !mail_domain_ok_v(&d) {
        return Err(string_of(&chars_of("Invalid domain format")));
    }
    Ok(string_of(&d))
}

/// The value the first line starting with `key` sets: what follows its
/// first `=` up to the next, trimmed; empty when no line starts so, or the
/// first that does has no `=`.
pub open spec fn first_setting(ls: Seq<Seq<char>>, key: Seq<char>) -> Seq<char>
    decreases ls.len(),
{
    if ls.len() == 0 {
        Seq::empty()
    } else if key.is_prefix_of(ls[0]) {
        let p = split_on(ls[0], '=');
        if p.len() >= 2 { trim(p[1]) } else { Seq::empty() }
    } else {
        first_setting(ls.skip(1), key)
    }
}

fn first_setting_v(content: &str, key: &str) -> (r: String)
    ensures r@ == first_setting(lines(content@), key@),
{
    let ls = lines_v(&chars_of(content));
    let k = chars_of(key);
    let mut i: usize = 0;
    assert(lines(content@).skip(0) =~= lines(content@));
    while i < ls.len()
        invariant
            i <= ls.len(),
            views(ls@) == lines(content@),
            k@ == key@,
            first_setting(lines(content@), key@) == first_setting(lines(content@).skip(i as int), key@),
        decreases ls.len() - i,
    {
        assert(lines(content@).skip(i as int)[0] == ls@[i as int]@);
        assert(lines(content@).skip(i as int).skip(1) =~= lines(content@).skip(i + 1));
        if starts_with_v(&ls[i], &k) {
            let p = split_v(&ls[i], '=');
            if p.len() >= 2 {
                assert(views(p@)[1] == p@[1]@);
                return string_of(&trim_v(&p[1]));
            }
            return String::new();
        }
        i += 1;
    }
    assert(lines(content@).skip(i as int) =~= Seq::<Seq<char>>::empty());
    String::new()
}

/// The TLS state of the mail stack, as `main.cf` and Dovecot's file set it.
pub struct TlsStatus {
    pub inbound_tls: String,
    pub outbound_tls: String,
    pub dovecot_ssl: String,
    pub inbound_enforced: bool,
    pub outbound_enforced: bool,
}

pub fn tls_status(main_cf: &str, dovecot_conf: &str) -> (r: TlsStatus)
    ensures
        r.inbound_tls@ == first_setting(lines(main_cf@), "smtpd_tls_security_level"@),
        r.outbound_tls@ == first_setting(lines(main_cf@), "smtp_tls_security_level"@),
        r.dovecot_ssl@ == first_setting(lines(dovecot_conf@), "ssl"@),
        r.inbound_enforced == (r.inbound_tls@ == "encrypt"@),
        r.outbound_enforced == (r.outbound_tls@ == "encrypt"@),
{
    let inbound = first_setting_v(main_cf, "smtpd_tls_security_level");
    let outbound = first_setting_v(main_cf, "smtp_tls_security_level");
    let dovecot = first_setting_v(dovecot_conf, "ssl");
    let inbound_enforced = eq_v(&chars_of(inbound.as_str()), &chars_of("encrypt"));
    let outbound_enforced = eq_v(&chars_of(outbound.as_str()), &chars_of("encrypt"));
    TlsStatus { inbound_tls: inbound, outbound_tls: outbound, dovecot_ssl: dovecot, inbound_enforced, outbound_enforced }
}

/// A domain's directory in the DKIM key tree and the names of its files.
pub struct DkimDir {
    pub domain: String,
    pub files: Vec<String>,
}

/// OpenDKIM's two tables.
pub struct DkimTables {
    pub key_table: String,
    pub signing_table: String,
}

pub open spec fn dkim_dir_ok(d: Seq<char>) -> bool {
    d.len() > 0 && forall|k: int| 0 <= k < d.len() ==> is_alnum(#[trigger] d[k]) || d[k] == '.' || d[k] == '-'
}

/// The selector a key file names: `{selector}.private`, the selector made
/// of letters, digits, `-` and `_`.
pub open spec fn key_selector(name: Seq<char>) -> Option<Seq<char>> {
    if ".private"@.is_suffix_of(name) {
        let sel = name.take(name.len() - 8);
        if sel.len() > 0 && forall|k: int| 0 <= k < sel.len() ==> is_alnum(#[trigger] sel[k]) || sel[k] == '-' || sel[k] == '_' {
            Some(sel)
        } else {
            None
        }
    } else {
        None
    }
}

/// The (domain, selector) pairs of a domain's key files, in file order.
pub open spec fn dir_keys(d: Seq<char>, files: Seq<Seq<char>>) -> Seq<(Seq<char>, Seq<char>)>
    decreases files.len(),
{
    if files.len() == 0 {
        Seq::empty()
    } else {
        let p = dir_keys(d, files.drop_last());
        match key_selector(files.last()) {
            Some(sel) => p.push((d, sel)),
            None => p,
        }
    }
}

pub open spec fn dkim_dirs_view(v: Seq<DkimDir>) -> Seq<(Seq<char>, Seq<Seq<char>>)> {
    Seq::new(v.len(), |k: int| (v[k].domain@, str_views(v[k].files@)))
}

/// Every key the tree holds, directory by directory, skipping directories
/// whose name is not a plain domain.
pub open spec fn tree_keys(dirs: Seq<(Seq<char>, Seq<Seq<char>>)>) -> Seq<(Seq<char>, Seq<char>)>
    decreases dirs.len(),
{
    if dirs.len() == 0 {
        Seq::empty()
    } else {
        let p = tree_keys(dirs.drop_last());
        if dkim_dir_ok(dirs.last().0) { p + dir_keys(dirs.last().0, dirs.last().1) } else { p }
    }
}

/// `{selector}._domainkey.{domain} {domain}:{selector}:{key path}`.
pub open spec fn key_table_line(d: Seq<char>, sel: Seq<char>) -> Seq<char> {
    sel + "._domainkey."@ + d + " "@ + d + ":"@ + sel + ":"@ + "/etc/dockpanel/dkim/"@ + d + "/"@ + sel + ".private"@
}

/// `*@{domain} {selector}._domainkey.{domain}`.
pub open spec fn signing_table_line(d: Seq<char>, sel: Seq<char>) -> Seq<char> {
    "*@"@ + d + " "@ + sel + "._domainkey."@ + d
}

pub open spec fn key_lines(ks: Seq<(Seq<char>, Seq<char>)>) -> Seq<Seq<char>> {
    Seq::new(ks.len(), |k: int| key_table_line(ks[k].0, ks[k].1))
}

pub open spec fn signing_lines(ks: Seq<(Seq<char>, Seq<char>)>) -> Seq<Seq<char>> {
    Seq::new(ks.len(), |k: int| signing_table_line(ks[k].0, ks[k].1))
}

fn key_selector_v(name: &Vec<char>) -> (r: Option<Vec<char>>)
    ensures
        match key_selector(name@) {
            Some(s) => r matches Some(x) && x@ == s,
            None => r is None,
        },
{
    proof { reveal_strlit(".private"); }
    if !crate::text::ends_with_v(name, &chars_of(".private")) {
        return None;
    }
    let sel = slice(name, 0, name.len() - 8);
    if sel.len() > 0 && only_chars(&sel, '-', '_') { Some(sel) } else { None }
}

fn push_key_lines(keys: &mut Vec<Vec<char>>, signing: &mut Vec<Vec<char>>, d: &Vec<char>, sel: &Vec<char>)
    ensures
        views(final(keys)@) == views(old(keys)@).push(key_table_line(d@, sel@)),
        views(final(signing)@) == views(old(signing)@).push(signing_table_line(d@, sel@)),
{
    let mut k = slice(sel, 0, sel.len());
    append(&mut k, &chars_of("._domainkey."));
    append(&mut k, d);
    append(&mut k, &chars_of(" "));
    append(&mut k, d);
    append(&mut k, &chars_of(":"));
    append(&mut k, sel);
    append(&mut k, &chars_of(":/etc/dockpanel/dkim/"));
    append(&mut k, d);
    append(&mut k, &chars_of("/"));
    append(&mut k, sel);
    append(&mut k, &chars_of(".private"));
    proof { reveal_strlit(":/etc/dockpanel/dkim/"); reveal_strlit(":"); reveal_strlit("/etc/dockpanel/dkim/"); }
    assert(k@ =~= key_table_line(d@, sel@));
    let mut g = chars_of("*@");
    append(&mut g, d);
    append(&mut g, &chars_of(" "));
    append(&mut g, sel);
    append(&mut g, &chars_of("._domainkey."));
    append(&mut g, d);
    let ghost k0 = keys@;
    let ghost g0 = signing@;
    keys.push(k);
    signing.push(g);
    proof {
        lemma_views_push(k0, k);
        lemma_views_push(g0, g);
    }
}

/// OpenDKIM's key table and signing table for the keys the tree holds, one
/// line per key, in the order the tree lists them.
pub fn dkim_tables(dirs: &Vec<DkimDir>) -> (r: DkimTables)
    ensures
        r.key_table@ == join(key_lines(tree_keys(dkim_dirs_view(dirs@))), "\n"@),
        r.signing_table@ == join(signing_lines(tree_keys(dkim_dirs_view(dirs@))), "\n"@),
{
    let mut keys: Vec<Vec<char>> = Vec::new();
    let mut signing: Vec<Vec<char>> = Vec::new();
    let ghost all = dkim_dirs_view(dirs@);
    assert(views(keys@) =~= key_lines(tree_keys(all.take(0))));
    assert(views(signing@) =~= signing_lines(tree_keys(all.take(0))));
    let mut i: usize = 0;
    while i < dirs.len()
        invariant
            i <= dirs.len(),
            all == dkim_dirs_view(dirs@),
            views(keys@) == key_lines(tree_keys(all.take(i as int))),
            views(signing@) == signing_lines(tree_keys(all.take(i as int))),
        decreases dirs.len() - i,
    {
        assert(all.take(i + 1).drop_last() =~= all.take(i as int));
        let d = chars_of(dirs[i].domain.as_str());
        let ghost files = str_views(dirs@[i as int].files@);
        assert(all.take(i + 1).last() == (d@, files));
        let ghost before = tree_keys(all.take(i as int));
        if d.len() > 0 && only_chars(&d, '.', '-') {
            let mut j: usize = 0;
            assert(dir_keys(d@, files.take(0)) =~= Seq::<(Seq<char>, Seq<char>)>::empty());
            assert(before + dir_keys(d@, files.take(0)) =~= before);
            while j < dirs[i].files.len()
                invariant
                    j <= dirs@[i as int].files.len(),
                    i < dirs.len(),
                    files == str_views(dirs@[i as int].files@),
                    views(keys@) == key_lines(before + dir_keys(d@, files.take(j as int))),
                    views(signing@) == signing_lines(before + dir_keys(d@, files.take(j as int))),
                decreases dirs@[i as int].files.len() - j,
            {
                assert(files.take(j + 1).drop_last() =~= files.take(j as int));
                let name = chars_of(dirs[i].files[j].as_str());
                assert(files.take(j + 1).last() == name@);
                match key_selector_v(&name) {
                    Some(sel) => {
                        push_key_lines(&mut keys, &mut signing, &d, &sel);
                        assert(before + dir_keys(d@, files.take(j + 1))
                            =~= (before + dir_keys(d@, files.take(j as int))).push((d@, sel@)));
                        assert(views(keys@) =~= key_lines(before + dir_keys(d@, files.take(j + 1))));
                        assert(views(signing@) =~= signing_lines(before + dir_keys(d@, files.take(j + 1))));
                    },
                    None => {},
                }
                j += 1;
            }
            assert(files.take(files.len() as int) =~= files);
        }
        i += 1;
    }
    assert(all.take(dirs.len() as int) =~= all);
    let nl = chars_of("\n");
    DkimTables {
        key_table: string_of(&join_v(&keys, &nl)),
        signing_table: string_of(&join_v(&signing, &nl)),
    }
}

/// Where a generated DKIM key pair goes.
pub struct DkimPaths {
    pub domain: String,
    pub selector: String,
    pub key_dir: String,
    pub private_path: String,
    pub public_path: String,
}

/// Checks a DKIM request and names the files its keys go to, under
/// `/etc/dockpanel/dkim/{domain}/{selector}.private|.public`.
pub fn dkim_paths(domain: &str, selector: &str) -> (r: Result<DkimPaths, String>)
    ensures
        ({
            let d = trim(domain@);
            let s = trim(selector@);
            if d.len() == 0 || s.len() == 0 {
                r matches Err(m) && m@ == "Domain and selector required"@
            } else if !mail_domain_ok(d) {
                r matches Err(m) && m@ == "Invalid domain format"@
            } else if !selector_ok(s) {
                r matches Err(m) && m@ == "Invalid selector format"@
            } else {
                r matches Ok(p) && p.domain@ == d && p.selector@ == s
                    && p.key_dir@ == "/etc/dockpanel/dkim/"@ + d
                    && p.private_path@ == "/etc/dockpanel/dkim/"@ + d + seq!['/'] + s + ".private"@
                    && p.public_path@ == "/etc/dockpanel/dkim/"@ + d + seq!['/'] + s + ".public"@
            }
        }),
{
    let d = trim_v(&chars_of(domain));
    let s = trim_v(&chars_of(selector));
    if d.len() == 0 || s.len() == 0 {
        return Err(string_of(&chars_of("Domain and selector required")));
    }
    if !mail_domain_ok_v(&d) {
        return Err(string_of(&chars_of("Invalid domain format")));
    }
    if has_char(&s, '/') || has_char(&s, '\\') || has_dotdot(&s) || !only_chars(&s, '-', '_') {
        return Err(string_of(&chars_of("Invalid selector format")));
    }
    let mut dir = chars_of("/etc/dockpanel/dkim/");
    append(&mut dir, &d);
    let mut base = dir.clone();
    base.push('/');
    append(&mut base, &s);
    let mut private = base.clone();
    append(&mut private, &chars_of(".private"));
    let mut public = base;
    append(&mut public, &chars_of(".public"));
    Ok(DkimPaths {
        domain: string_of(&d),
        selector: string_of(&s),
        key_dir: string_of(&dir),
        private_path: string_of(&private),
        public_path: string_of(&public),
    })
}

// ── main.cf blocks ──────────────────────────────────────────────────────

/// Which block of `main.cf` the agent manages.
#[derive(PartialEq, Eq, Structural, Clone, Copy)]
pub enum ConfigBlock {
    Relay,
    RateLimit,
    Tls,
}

/// Whether a `main.cf` line survives the rewrite of a block: the lines the
/// block owns are dropped.
pub open spec fn keeps_line(kind: ConfigBlock, l: Seq<char>) -> bool {
    match kind {
        ConfigBlock::Relay => !"relayhost"@.is_prefix_of(l) && !"smtp_sasl_"@.is_prefix_of(l)
            && !"smtp_tls_"@.is_prefix_of(l) && !contains(l, "# DockPanel relay"@),
        ConfigBlock::RateLimit => !"smtp_destination_rate_delay"@.is_prefix_of(l)
            && !"smtp_extra_recipient_limit"@.is_prefix_of(l) && !contains(l, "# DockPanel rate limit"@),
        ConfigBlock::Tls => !"smtpd_tls_security_level"@.is_prefix_of(l) && !"smtp_tls_security_level"@.is_prefix_of(l),
    }
}

/// The first `n` lines that survive.
pub open spec fn kept_config(ls: Seq<Seq<char>>, kind: ConfigBlock, n: nat) -> Seq<Seq<char>>
    decreases n,
{
    if n == 0 { Seq::empty() } else {
        let p = kept_config(ls, kind, (n - 1) as nat);
        if keeps_line(kind, ls[n - 1]) { p.push(ls[n - 1]) } else { p }
    }
}

/// `main.cf` without the lines of a block, joined by newlines.
pub open spec fn without_block(cf: Seq<char>, kind: ConfigBlock) -> Seq<char> {
    join(kept_config(lines(cf), kind, lines(cf).len()), seq!['\n'])
}

fn has_sub(s: &Vec<char>, p: &str) -> (r: bool)
    ensures r == contains(s@, p@),
{
    let pv = chars_of(p);
    proof { lemma_find_from(s@, pv@, 0); }
    find_from_v(s, &pv, 0).is_some()
}

fn has_prefix(s: &Vec<char>, p: &str) -> (r: bool)
    ensures r == p@.is_prefix_of(s@),
{
    starts_with_v(s, &chars_of(p))
}

fn keeps_line_v(kind: ConfigBlock, l: &Vec<char>) -> (r: bool)
    ensures r == keeps_line(kind, l@),
{
    match kind {
        ConfigBlock::Relay => !has_prefix(l, "relayhost") && !has_prefix(l, "smtp_sasl_")
            && !has_prefix(l, "smtp_tls_") && !has_sub(l, "# DockPanel relay"),
        ConfigBlock::RateLimit => !has_prefix(l, "smtp_destination_rate_delay")
            && !has_prefix(l, "smtp_extra_recipient_limit") && !has_sub(l, "# DockPanel rate limit"),
        ConfigBlock::Tls => !has_prefix(l, "smtpd_tls_security_level") && !has_prefix(l, "smtp_tls_security_level"),
    }
}

/// `main.cf` with the lines of one agent-managed block removed.
pub fn strip_block(main_cf: &str, kind: ConfigBlock) -> (r: String)
    ensures r@ == without_block(main_cf@, kind),
{
    let cv = chars_of(main_cf);
    let ls = lines_v(&cv);
    let mut out: Vec<Vec<char>> = Vec::new();
    let mut i: usize = 0;
    while i < ls.len()
        invariant
            i <= ls.len(),
            views(ls@) == lines(cv@),
            cv@ == main_cf@,
            views(out@) == kept_config(lines(cv@), kind, i as nat),
        decreases ls.len() - i,
    {
        if keeps_line_v(kind, &ls[i]) {
            let l = ls[i].clone();
            proof { lemma_views_push(out@, l); }
            out.push(l);
        }
        i += 1;
    }
    let nl = vec!['\n'];
    assert(nl@ =~= seq!['\n']);
    string_of(&join_v(&out, &nl))
}

// ── relay ───────────────────────────────────────────────────────────────

/// The first problem with a relay configuration, if any.
pub open spec fn relay_error(host: Seq<char>, username: Seq<char>, password: Seq<char>) -> Option<Seq<char>> {
    if host.len() == 0 {
        Some("Relay host required"@)
    } else if host.contains('\n') || host.contains('\r') || host.contains('\0')
        || username.contains('\n') || username.contains('\0')
        || password.contains('\n') || password.contains('\0') {
        Some("Invalid characters in relay config"@)
    } else {
        None
    }
}

/// What `relay_configure` writes: the SASL password line and the new
/// `main.cf`.
pub struct RelayFiles {
    pub sasl_passwd: String,
    pub main_cf: String,
}

/// The relay block appended to `main.cf`.
pub open spec fn relay_block(host: Seq<char>, port: u16) -> Seq<char> {
    "\n# DockPanel relay configuration\nrelayhost = ["@ + host + "]:"@ + decimal(port as nat)
        + "\nsmtp_sasl_auth_enable = yes\nsmtp_sasl_password_maps = hash:/etc/postfix/sasl_passwd\nsmtp_sasl_security_options = noanonymous\nsmtp_tls_security_level = encrypt\nsmtp_tls_CAfile = /etc/ssl/certs/ca-certificates.crt\n"@
}

/// Checks a relay configuration and renders the files it writes.
pub fn relay_files(host: &str, port: u16, username: &str, password: &str, main_cf: &str) -> (r: Result<RelayFiles, String>)
    ensures
        match relay_error(host@, username@, password@) {
            Some(e) => r matches Err(m) && m@ == e,
            None => r matches Ok(f)
                && f.sasl_passwd@ == seq!['['] + host@ + "]:"@ + decimal(port as nat) + seq![' '] + username@
                    + seq![':'] + password@ + seq!['\n']
                && f.main_cf@ == without_block(main_cf@, ConfigBlock::Relay) + relay_block(host@, port),
        },
{
    let h = chars_of(host);
    let u = chars_of(username);
    let p = chars_of(password);
    if h.len() == 0 {
        return Err(string_of(&chars_of("Relay host required")));
    }
    if has_char(&h, '\n') || has_char(&h, '\r') || has_char(&h, '\0') || has_char(&u, '\n') || has_char(&u, '\0')
        || has_char(&p, '\n') || has_char(&p, '\0') {
        return Err(string_of(&chars_of("Invalid characters in relay config")));
    }
    let port_v = decimal_v(port as u64);
    let mut sasl = vec!['['];
    append(&mut sasl, &h);
    append(&mut sasl, &chars_of("]:"));
    append(&mut sasl, &port_v);
    sasl.push(' ');
    append(&mut sasl, &u);
    sasl.push(':');
    append(&mut sasl, &p);
    sasl.push('\n');
    let mut cf = chars_of(strip_block(main_cf, ConfigBlock::Relay).as_str());
    append(&mut cf, &chars_of("\n# DockPanel relay configuration\nrelayhost = ["));
    append(&mut cf, &h);
    append(&mut cf, &chars_of("]:"));
    append(&mut cf, &port_v);
    append(&mut cf, &chars_of("\nsmtp_sasl_auth_enable = yes\nsmtp_sasl_password_maps = hash:/etc/postfix/sasl_passwd\nsmtp_sasl_security_options = noanonymous\nsmtp_tls_security_level = encrypt\nsmtp_tls_CAfile = /etc/ssl/certs/ca-certificates.crt\n"));
    assert(sasl@ =~= seq!['['] + host@ + "]:"@ + decimal(port as nat) + seq![' '] + username@
        + seq![':'] + password@ + seq!['\n']);
    assert(cf@ =~= without_block(main_cf@, ConfigBlock::Relay) + relay_block(host@, port));
    Ok(RelayFiles { sasl_passwd: string_of(&sasl), main_cf: string_of(&cf) })
}

/// The value of the first `relayhost` line: what follows the first `=`, up
/// to a second one, trimmed.
pub open spec fn relayhost_of(cf: Seq<char>) -> Option<Seq<char>> {
    let ls = lines(cf);
    let k = first_prefixed(ls, "relayhost"@);
    if 0 <= k < ls.len() {
        let parts = split_on(ls[k], '=');
        Some(trim(if parts.len() > 1 { parts[1] } else { Seq::empty() }))
    } else {
        None
    }
}

/// The index of the first line that starts with `p`, or the number of lines.
pub open spec fn first_prefixed(ls: Seq<Seq<char>>, p: Seq<char>) -> int
    decreases ls.len(),
{
    if ls.len() == 0 { 0 } else if p.is_prefix_of(ls[0]) { 0 } else { 1 + first_prefixed(ls.drop_first(), p) }
}

proof fn lemma_first_prefixed(ls: Seq<Seq<char>>, p: Seq<char>, i: int)
    requires 0 <= i <= ls.len(), forall|j: int| 0 <= j < i ==> !p.is_prefix_of(#[trigger] ls[j]),
    ensures
        first_prefixed(ls, p) >= i,
        i < ls.len() && p.is_prefix_of(ls[i]) ==> first_prefixed(ls, p) == i,
        i == ls.len() ==> first_prefixed(ls, p) == ls.len(),
    decreases i,
{
    if i > 0 {
        assert forall|j: int| 0 <= j < i - 1 implies !p.is_prefix_of(#[trigger] ls.drop_first()[j]) by {
            assert(ls.drop_first()[j] == ls[j + 1]);
        }
        lemma_first_prefixed(ls.drop_first(), p, i - 1);
        assert(!p.is_prefix_of(ls[0]));
    } else {
        lemma_first_prefixed_nonneg(ls, p);
    }
}

proof fn lemma_first_prefixed_hit(ls: Seq<Seq<char>>, p: Seq<char>)
    ensures 0 <= first_prefixed(ls, p) < ls.len() ==> p.is_prefix_of(ls[first_prefixed(ls, p)]),
    decreases ls.len(),
{
    if ls.len() > 0 && !p.is_prefix_of(ls[0]) {
        lemma_first_prefixed_hit(ls.drop_first(), p);
        lemma_first_prefixed_nonneg(ls.drop_first(), p);
        let k = first_prefixed(ls.drop_first(), p);
        if 0 <= k < ls.len() - 1 {
            assert(ls.drop_first()[k] == ls[k + 1]);
        }
    }
}

proof fn lemma_first_prefixed_nonneg(ls: Seq<Seq<char>>, p: Seq<char>)
    ensures 0 <= first_prefixed(ls, p) <= ls.len(),
    decreases ls.len(),
{
    if ls.len() > 0 && !p.is_prefix_of(ls[0]) {
        lemma_first_prefixed_nonneg(ls.drop_first(), p);
    }
}

/// Index of the first line starting with `p`, or the number of lines.
fn first_prefixed_v(ls: &Vec<Vec<char>>, p: &str) -> (r: usize)
    ensures r == first_prefixed(views(ls@), p@), r <= ls.len(),
{
    let pv = chars_of(p);
    let mut i: usize = 0;
    while i < ls.len()
        invariant
            i <= ls.len(),
            pv@ == p@,
            forall|j: int| 0 <= j < i ==> !p@.is_prefix_of(#[trigger] views(ls@)[j]),
        decreases ls.len() - i,
    {
        if starts_with_v(&ls[i], &pv) {
            proof { lemma_first_prefixed(views(ls@), p@, i as int); }
            return i;
        }
        i += 1;
    }
    proof { lemma_first_prefixed(views(ls@), p@, i as int); }
    i
}

/// The relay host `main.cf` configures, if any.
pub fn relayhost(main_cf: &str) -> (r: Option<String>)
    ensures
        match r {
            Some(x) => relayhost_of(main_cf@) == Some(x@),
            None => relayhost_of(main_cf@) is None,
        },
{
    let ls = lines_v(&chars_of(main_cf));
    let k = first_prefixed_v(&ls, "relayhost");
    if k >= ls.len() {
        return None;
    }
    let parts = split_v(&ls[k], '=');
    assert(views(ls@)[k as int] == ls@[k as int]@);
    let v = if parts.len() > 1 {
        assert(views(parts@)[1] == parts@[1]@);
        trim_v(&parts[1])
    } else {
        trim_v(&Vec::new())
    };
    Some(string_of(&v))
}

// ── rate limit ──────────────────────────────────────────────────────────

/// The seconds in a rate period, if it is one the agent knows.
pub open spec fn period_secs(p: Seq<char>) -> Option<u32> {
    if p == "hour"@ { Some(3600u32) } else if p == "day"@ { Some(86400u32) }
    else if p == "minute"@ { Some(60u32) } else { None }
}

/// A parsed rate: how many messages, and the delay between them.
pub struct RateLimit {
    pub count: u32,
    pub delay_secs: u32,
}

/// `N/minute`, `N/hour` or `N/day` with `N > 0`; the delay is the period
/// divided by `N`, in whole seconds.
pub fn parse_rate(rate: &str) -> (r: Result<RateLimit, String>)
    ensures
        ({
            let parts = split_on(rate@, '/');
            if rate@.len() == 0 {
                r matches Err(m) && m@ == "Rate required"@
            } else if parts.len() != 2 {
                r matches Err(m) && m@ == "Rate format: N/hour or N/day"@
            } else if parse_u32(parts[0]) is None {
                r matches Err(m) && m@ == "Invalid count"@
            } else if parse_u32(parts[0])->0 == 0 {
                r matches Err(m) && m@ == "Count must be > 0"@
            } else if period_secs(parts[1]) is None {
                r matches Err(m) && m@ == "Period must be minute, hour, or day"@
            } else {
                r matches Ok(l) && l.count == parse_u32(parts[0])->0
                    && l.delay_secs == period_secs(parts[1])->0 / parse_u32(parts[0])->0
            }
        }),
{
    let rv = chars_of(rate);
    if rv.len() == 0 {
        return Err(string_of(&chars_of("Rate required")));
    }
    let parts = split_v(&rv, '/');
    if parts.len() != 2 {
        return Err(string_of(&chars_of("Rate format: N/hour or N/day")));
    }
    assert(views(parts@)[0] == parts@[0]@);
    assert(views(parts@)[1] == parts@[1]@);
    let count = match parse_u32_v(&parts[0]) {
        Some(c) => c,
        None => { return Err(string_of(&chars_of("Invalid count"))); },
    };
    if count == 0 {
        return Err(string_of(&chars_of("Count must be > 0")));
    }
    let p = &parts[1];
    let period: u32 = if eq_v(p, &chars_of("hour")) { 3600 } else if eq_v(p, &chars_of("day")) { 86400 }
        else if eq_v(p, &chars_of("minute")) { 60 } else {
            return Err(string_of(&chars_of("Period must be minute, hour, or day")));
        };
    Ok(RateLimit { count, delay_secs: period / count })
}

/// The rate-limit block appended to `main.cf`.
pub open spec fn rate_block(rate: Seq<char>, l: RateLimit) -> Seq<char> {
    "\n# DockPanel rate limit: "@ + rate + "\nsmtp_destination_rate_delay = "@ + decimal(l.delay_secs as nat)
        + "s\nsmtp_extra_recipient_limit = "@ + decimal(if l.count < 50 { l.count as nat } else { 50 }) + seq!['\n']
}

/// `main.cf` with its rate-limit block replaced by one for `rate`.
pub fn rate_main_cf(main_cf: &str, rate: &str, l: &RateLimit) -> (r: String)
    ensures r@ == without_block(main_cf@, ConfigBlock::RateLimit) + rate_block(rate@, *l),
{
    let mut cf = chars_of(strip_block(main_cf, ConfigBlock::RateLimit).as_str());
    append(&mut cf, &chars_of("\n# DockPanel rate limit: "));
    append(&mut cf, &chars_of(rate));
    append(&mut cf, &chars_of("\nsmtp_destination_rate_delay = "));
    append(&mut cf, &decimal_v(l.delay_secs as u64));
    append(&mut cf, &chars_of("s\nsmtp_extra_recipient_limit = "));
    let lim: u64 = if l.count < 50 { l.count as u64 } else { 50 };
    append(&mut cf, &decimal_v(lim));
    cf.push('\n');
    assert(cf@ =~= without_block(main_cf@, ConfigBlock::RateLimit) + rate_block(rate@, *l));
    string_of(&cf)
}

/// The rate recorded in `main.cf`: after the first `:` of the first line
/// carrying the rate-limit comment, up to a second one, trimmed.
pub open spec fn recorded_rate(cf: Seq<char>) -> Option<Seq<char>> {
    let ls = lines(cf);
    let k = first_containing(ls, "# DockPanel rate limit:"@);
    if 0 <= k < ls.len() {
        let parts = split_on(ls[k], ':');
        Some(trim(if parts.len() > 1 { parts[1] } else { Seq::empty() }))
    } else {
        None
    }
}

/// The index of the first line that contains `p`, or the number of lines.
pub open spec fn first_containing(ls: Seq<Seq<char>>, p: Seq<char>) -> int
    decreases ls.len(),
{
    if ls.len() == 0 { 0 } else if contains(ls[0], p) { 0 } else { 1 + first_containing(ls.drop_first(), p) }
}

proof fn lemma_first_containing(ls: Seq<Seq<char>>, p: Seq<char>, i: int)
    requires 0 <= i <= ls.len(), forall|j: int| 0 <= j < i ==> !contains(#[trigger] ls[j], p),
    ensures
        i < ls.len() && contains(ls[i], p) ==> first_containing(ls, p) == i,
        i == ls.len() ==> first_containing(ls, p) == ls.len(),
    decreases i,
{
    if i > 0 {
        assert forall|j: int| 0 <= j < i - 1 implies !contains(#[trigger] ls.drop_first()[j], p) by {
            assert(ls.drop_first()[j] == ls[j + 1]);
        }
        lemma_first_containing(ls.drop_first(), p, i - 1);
        assert(!contains(ls[0], p));
    } else if ls.len() > 0 {
    }
}

/// The configured rate limit, if `main.cf` records one.
pub fn rate_limit_status(main_cf: &str) -> (r: Option<String>)
    ensures
        match r {
            Some(x) => recorded_rate(main_cf@) == Some(x@),
            None => recorded_rate(main_cf@) is None,
        },
{
    let ls = lines_v(&chars_of(main_cf));
    let mut i: usize = 0;
    while i < ls.len()
        invariant
            i <= ls.len(),
            views(ls@) == lines(main_cf@),
            forall|j: int| 0 <= j < i ==> !contains(#[trigger] views(ls@)[j], "# DockPanel rate limit:"@),
        decreases ls.len() - i,
    {
        assert(views(ls@)[i as int] == ls@[i as int]@);
        if has_sub(&ls[i], "# DockPanel rate limit:") {
            proof { lemma_first_containing(views(ls@), "# DockPanel rate limit:"@, i as int); }
            let parts = split_v(&ls[i], ':');
            let v = if parts.len() > 1 {
                assert(views(parts@)[1] == parts@[1]@);
                trim_v(&parts[1])
            } else {
                trim_v(&Vec::new())
            };
            return Some(string_of(&v));
        }
        i += 1;
    }
    proof { lemma_first_containing(views(ls@), "# DockPanel rate limit:"@, i as int); }
    None
}

// ── TLS ─────────────────────────────────────────────────────────────────

pub open spec fn tls_level_ok(l: Seq<char>) -> bool {
    l == "may"@ || l == "encrypt"@ || l == "none"@
}

/// `main.cf` enforcing the given inbound and outbound TLS levels, or the
/// error when either is not `may`, `encrypt` or `none`.
pub fn tls_main_cf(main_cf: &str, inbound: &str, outbound: &str) -> (r: Result<String, String>)
    ensures
        !(tls_level_ok(inbound@) && tls_level_ok(outbound@)) ==>
            (r matches Err(m) && m@ == "Level must be 'may', 'encrypt', or 'none'"@),
        tls_level_ok(inbound@) && tls_level_ok(outbound@) ==>
            (r matches Ok(cf) && cf@ == without_block(main_cf@, ConfigBlock::Tls) + "\nsmtpd_tls_security_level = "@
                + inbound@ + "\nsmtp_tls_security_level = "@ + outbound@ + seq!['\n']),
{
    let i = chars_of(inbound);
    let o = chars_of(outbound);
    let i_ok = eq_v(&i, &chars_of("may")) || eq_v(&i, &chars_of("encrypt")) || eq_v(&i, &chars_of("none"));
    let o_ok = eq_v(&o, &chars_of("may")) || eq_v(&o, &chars_of("encrypt")) || eq_v(&o, &chars_of("none"));
    if !i_ok || !o_ok {
        return Err(string_of(&chars_of("Level must be 'may', 'encrypt', or 'none'")));
    }
    let mut cf = chars_of(strip_block(main_cf, ConfigBlock::Tls).as_str());
    append(&mut cf, &chars_of("\nsmtpd_tls_security_level = "));
    append(&mut cf, &i);
    append(&mut cf, &chars_of("\nsmtp_tls_security_level = "));
    append(&mut cf, &o);
    cf.push('\n');
    assert(cf@ =~= without_block(main_cf@, ConfigBlock::Tls) + "\nsmtpd_tls_security_level = "@
        + inbound@ + "\nsmtp_tls_security_level = "@ + outbound@ + seq!['\n']);
    Ok(string_of(&cf))
}

// ── mailbox backups ─────────────────────────────────────────────────────

pub open spec fn path_part_ok(p: Seq<char>) -> bool {
    !p.contains('/') && !p.contains('\\') && !contains(p, ".."@)
}

fn path_part_ok_v(p: &Vec<char>) -> (r: bool)
    ensures r == path_part_ok(p@),
{
    !has_char(p, '/') && !has_char(p, '\\') && !has_dotdot(p)
}

/// The directory the agent keeps mailbox backups in.
pub const MAIL_BACKUP_DIR: &'static str = "/var/lib/dockpanel/mail-backups";

/// The user and domain of a mailbox to back up, checked to be safe path
/// components; the address is trimmed first.
pub fn mailbox_parts(email: &str) -> (r: Result<(String, String), String>)
    ensures
        ({
            let e = trim(email@);
            if e.len() == 0 || !e.contains('@') {
                r matches Err(m) && m@ == "Invalid email"@
            } else {
                let i = find(e, seq!['@'])->0;
                let (u, d) = (e.take(i), e.skip(i + 1));
                if !path_part_ok(u) || !path_part_ok(d) {
                    r matches Err(m) && m@ == "Invalid email format"@
                } else {
                    r matches Ok((ru, rd)) && ru@ == u && rd@ == d
                }
            }
        }),
{
    let e = trim_v(&chars_of(email));
    if e.len() == 0 || !has_char(&e, '@') {
        return Err(string_of(&chars_of("Invalid email")));
    }
    let at = vec!['@'];
    assert(at@ =~= seq!['@']);
    proof {
        lemma_find_from(e@, seq!['@'], 0);
        let k = choose|k: int| 0 <= k < e@.len() && e@[k] == '@';
        assert(crate::text::occurs_at(e@, seq!['@'], k)) by {
            assert(e@.subrange(k, k + 1) =~= seq!['@']);
        }
    }
    let i = match find_from_v(&e, &at, 0) {
        Some(i) => i,
        None => { return Err(string_of(&chars_of("Invalid email"))); },
    };
    let u = slice(&e, 0, i);
    let d = slice(&e, i + 1, e.len());
    assert(u@ =~= e@.take(i as int));
    assert(d@ =~= e@.skip(i + 1));
    if !path_part_ok_v(&u) || !path_part_ok_v(&d) {
        return Err(string_of(&chars_of("Invalid email format")));
    }
    Ok((string_of(&u), string_of(&d)))
}

/// A backup file the agent may read or delete: inside the backup directory
/// and free of `..`.
pub open spec fn backup_file_ok(f: Seq<char>) -> bool {
    f.len() > 0 && "/var/lib/dockpanel/mail-backups/"@.is_prefix_of(f) && !contains(f, ".."@)
}

pub fn is_valid_backup_file(file: &str) -> (r: bool)
    ensures r == backup_file_ok(file@),
{
    let f = chars_of(file);
    f.len() > 0 && has_prefix(&f, "/var/lib/dockpanel/mail-backups/") && !has_dotdot(&f)
}

/// The checks a mailbox restore runs on its address and file: the user and
/// domain to restore into, or the error.
pub fn check_restore(email: &str, file: &str) -> (r: Result<(String, String), String>)
    ensures
        ({
            let e = email@;
            let f = file@;
            if e.len() == 0 || !e.contains('@') {
                r matches Err(m) && m@ == "Invalid email"@
            } else if f.len() == 0 || !"/var/lib/dockpanel/mail-backups/"@.is_prefix_of(f) {
                r matches Err(m) && m@ == "Invalid backup file path"@
            } else if contains(f, ".."@) {
                r matches Err(m) && m@ == "Path traversal not allowed"@
            } else {
                let i = find(e, seq!['@'])->0;
                let (u, d) = (e.take(i), e.skip(i + 1));
                if u.len() == 0 || d.len() == 0 || !path_part_ok(u) || !path_part_ok(d) {
                    r matches Err(m) && m@ == "Invalid email format"@
                } else {
                    r matches Ok((ru, rd)) && ru@ == u && rd@ == d
                }
            }
        }),
{
    let e = chars_of(email);
    let f = chars_of(file);
    if e.len() == 0 || !has_char(&e, '@') {
        return Err(string_of(&chars_of("Invalid email")));
    }
    if f.len() == 0 || !has_prefix(&f, "/var/lib/dockpanel/mail-backups/") {
        return Err(string_of(&chars_of("Invalid backup file path")));
    }
    if has_dotdot(&f) {
        return Err(string_of(&chars_of("Path traversal not allowed")));
    }
    let at = vec!['@'];
    assert(at@ =~= seq!['@']);
    proof {
        lemma_find_from(e@, seq!['@'], 0);
        let k = choose|k: int| 0 <= k < e@.len() && e@[k] == '@';
        assert(crate::text::occurs_at(e@, seq!['@'], k)) by {
            assert(e@.subrange(k, k + 1) =~= seq!['@']);
        }
    }
    let i = match find_from_v(&e, &at, 0) {
        Some(i) => i,
        None => { return Err(string_of(&chars_of("Invalid email"))); },
    };
    let u = slice(&e, 0, i);
    let d = slice(&e, i + 1, e.len());
    assert(u@ =~= e@.take(i as int));
    assert(d@ =~= e@.skip(i + 1));
    if u.len() == 0 || d.len() == 0 || !path_part_ok_v(&u) || !path_part_ok_v(&d) {
        return Err(string_of(&chars_of("Invalid email format")));
    }
    Ok((string_of(&u), string_of(&d)))
}


// ── password schemes ────────────────────────────────────────────────────

/// A character in ASCII upper case: `a`..`z` become `A`..`Z`, all else stays.
pub open spec fn ascii_upper(c: char) -> char {
    if 'a' <= c && c <= 'z' { ((c as u32) - 32) as char } else { c }
}

/// A word in ASCII upper case.
pub open spec fn ascii_upper_word(w: Seq<char>) -> Seq<char> {
    Seq::new(w.len(), |i: int| ascii_upper(w[i]))
}

/// The schemes that `doveadm pw -l` printed: its whitespace-separated words,
/// in order, each in ASCII upper case.
pub open spec fn password_schemes_of(out: Seq<char>) -> Seq<Seq<char>> {
    Seq::new(ws_tokens(out).len(), |i: int| ascii_upper_word(ws_tokens(out)[i]))
}

fn ascii_upper_v(c: char) -> (r: char)
    ensures r == ascii_upper(c),
{
    if 'a' <= c && c <= 'z' {
        let n: u32 = c as u32;
        let b: u8 = n as u8;
        assert(b as u32 == n) by (bit_vector)
            requires n <= 0x7a, b == n as u8;
        ((b - 32) as char)
    } else {
        c
    }
}

fn ascii_upper_word_v(w: &Vec<char>) -> (r: Vec<char>)
    ensures r@ == ascii_upper_word(w@),
{
    let mut r: Vec<char> = Vec::new();
    let mut i: usize = 0;
    while i < w.len()
        invariant
            i <= w.len(),
            r@ == ascii_upper_word(w@.take(i as int)),
        decreases w.len() - i,
    {
        let c = ascii_upper_v(w[i]);
        r.push(c);
        i += 1;
        assert(r@ =~= ascii_upper_word(w@.take(i as int)));
    }
    assert(w@.take(w.len() as int) =~= w@);
    r
}

/// The password schemes that this box's Dovecot can verify, read from the
/// output of `doveadm pw -l`.
pub fn password_schemes(out: &str) -> (r: Vec<String>)
    ensures str_views(r@) == password_schemes_of(out@),
{
    let toks = ws_tokens_v(&chars_of(out));
    let ghost t = ws_tokens(out@);
    let mut r: Vec<String> = Vec::new();
    let mut i: usize = 0;
    while i < toks.len()
        invariant
            i <= toks.len(),
            views(toks@) == t,
            t == ws_tokens(out@),
            str_views(r@) == password_schemes_of(out@).take(i as int),
        decreases toks.len() - i,
    {
        let u = ascii_upper_word_v(&toks[i]);
        assert(views(toks@)[i as int] == toks@[i as int]@);
        assert(u@ == password_schemes_of(out@)[i as int]);
        assert(views(toks@).len() == toks@.len());
        assert(password_schemes_of(out@).len() == toks@.len());
        assert(str_views(r@).len() == r@.len());
        let ghost before = r@;
        let s = string_of(&u);
        r.push(s);
        assert(r@[i as int]@ == u@);
        assert forall|k: int| 0 <= k < i + 1 implies #[trigger] str_views(r@)[k] == password_schemes_of(out@).take(i + 1)[k] by {
            if k < i {
                assert(str_views(before)[k] == password_schemes_of(out@).take(i as int)[k]);
            }
        }
        i += 1;
        assert(str_views(r@) =~= password_schemes_of(out@).take(i as int));
    }
    assert(password_schemes_of(out@).take(toks.len() as int) =~= password_schemes_of(out@));
    r
}

// ── status ──────────────────────────────────────────────────────────────

/// What a status request found on the box.
pub struct MailProbe {
    pub postfix_installed: bool,
    pub dovecot_installed: bool,
    pub opendkim_installed: bool,
    pub postfix_running: bool,
    pub dovecot_running: bool,
    pub opendkim_running: bool,
    /// Whether OpenDKIM's configuration file is on disk.
    pub dkim_conf_present: bool,
    /// Whether the DKIM `trusted.hosts` file is on disk.
    pub trusted_hosts_present: bool,
    /// `main.cf`, where it could be read.
    pub main_cf: Option<String>,
}

/// The summary of a status request.
pub struct MailHealth {
    pub installed: bool,
    pub running: bool,
    pub configured: bool,
}

/// The mail stack counts as configured when OpenDKIM's configuration and its
/// trusted hosts are on disk and `main.cf` holds the mail block.
pub open spec fn mail_configured(p: MailProbe) -> bool {
    &&& p.dkim_conf_present
    &&& p.trusted_hosts_present
    &&& p.main_cf matches Some(cf) && contains(cf@, "DockPanel mail configuration"@)
}

/// Installed and running each need all three daemons and the configuration:
/// packages present and services up alone do not show that the install ran.
pub fn mail_health(p: &MailProbe) -> (r: MailHealth)
    ensures
        r.configured == mail_configured(*p),
        r.installed == (p.postfix_installed && p.dovecot_installed && p.opendkim_installed && mail_configured(*p)),
        r.running == (p.postfix_running && p.dovecot_running && p.opendkim_running && mail_configured(*p)),
{
    let has_block = match &p.main_cf {
        Some(cf) => {
            find_from_v(&chars_of(cf.as_str()), &chars_of("DockPanel mail configuration"), 0).is_some()
        },
        None => false,
    };
    let configured = p.dkim_conf_present && p.trusted_hosts_present && has_block;
    MailHealth {
        installed: p.postfix_installed && p.dovecot_installed && p.opendkim_installed && configured,
        running: p.postfix_running && p.dovecot_running && p.opendkim_running && configured,
        configured,
    }
}

/// What the Roundcube container's inspection showed.
pub struct WebmailState {
    pub installed: bool,
    pub running: bool,
    pub port: u16,
}

/// `u16::from_str`: a decimal number that fits in 16 bits.
pub open spec fn parse_u16(s: Seq<char>) -> Option<u16> {
    match parse_u32(s) {
        Some(v) => if v <= u16::MAX { Some(v as u16) } else { None },
        None => None,
    }
}

/// The webmail container counts as running when Docker printed `true` for
/// its state, and as installed when it runs or publishes a port; a port that
/// does not parse counts as none.
pub fn webmail_state(running_out: &str, port_out: &str) -> (r: WebmailState)
    ensures
        r.running == (trim(running_out@) == "true"@),
        r.port == (match parse_u16(trim(port_out@)) { Some(p) => p, None => 0 }),
        r.installed == (r.running || r.port > 0),
{
    let running = eq_v(&trim_v(&chars_of(running_out)), &chars_of("true"));
    let port: u16 = match parse_u32_v(&trim_v(&chars_of(port_out))) {
        Some(v) => if v <= 65535 { v as u16 } else { 0 },
        None => 0,
    };
    WebmailState { installed: running || port > 0, running, port }
}

/// The line of the webmail fragment that names Roundcube's port.
pub open spec fn proxy_pass_prefix() -> Seq<char> {
    "proxy_pass http://127.0.0.1:"@
}

/// The lines of a text, each trimmed.
pub open spec fn trimmed_lines(s: Seq<char>) -> Seq<Seq<char>> {
    Seq::new(lines(s).len(), |i: int| trim(lines(s)[i]))
}

/// The port a webmail fragment proxies to: read from the first trimmed line
/// that starts with the `proxy_pass` prefix, up to the first `/`; 8888 when
/// no line has the prefix or that line's port does not parse.
pub open spec fn webmail_port_in(conf: Seq<char>) -> u16 {
    let ls = trimmed_lines(conf);
    let k = first_prefixed(ls, proxy_pass_prefix());
    if 0 <= k < ls.len() {
        let rest = ls[k].skip(proxy_pass_prefix().len() as int);
        match parse_u16(trim(split_on(rest, '/')[0])) {
            Some(p) => p,
            None => 8888,
        }
    } else {
        8888
    }
}

/// The current webmail fragment rewritten to today's template, on the port it
/// already serves; `None` when it already is today's template.
pub open spec fn healed_webmail(conf: Seq<char>) -> Option<(u16, Seq<char>)> {
    let port = webmail_port_in(conf);
    let desired = WEBMAIL_HEAD@ + decimal(port as nat) + WEBMAIL_TAIL@;
    if desired == conf { None } else { Some((port, desired)) }
}

/// The port that the webmail fragment `conf` proxies to.
pub fn webmail_port(conf: &str) -> (r: u16)
    ensures r == webmail_port_in(conf@),
{
    let ls = lines_v(&chars_of(conf));
    let mut tl: Vec<Vec<char>> = Vec::new();
    let mut i: usize = 0;
    while i < ls.len()
        invariant
            i <= ls.len(),
            views(ls@) == lines(conf@),
            views(tl@) == trimmed_lines(conf@).take(i as int),
        decreases ls.len() - i,
    {
        let x = trim_v(&ls[i]);
        assert(views(ls@)[i as int] == ls@[i as int]@);
        proof { lemma_views_push(tl@, x); }
        tl.push(x);
        i += 1;
        assert(views(tl@) =~= trimmed_lines(conf@).take(i as int));
    }
    assert(trimmed_lines(conf@).take(ls.len() as int) =~= trimmed_lines(conf@));
    let k = first_prefixed_v(&tl, "proxy_pass http://127.0.0.1:");
    proof { lemma_first_prefixed_nonneg(views(tl@), proxy_pass_prefix()); }
    if k >= tl.len() {
        return 8888;
    }
    let pl = chars_of("proxy_pass http://127.0.0.1:").len();
    assert(views(tl@)[k as int] == tl@[k as int]@);
    assert(pl <= tl[k as int]@.len()) by {
        assert(proxy_pass_prefix().is_prefix_of(views(tl@)[k as int])) by {
            lemma_first_prefixed_hit(views(tl@), proxy_pass_prefix());
        }
    }
    let rest = slice(&tl[k], pl, tl[k].len());
    assert(rest@ =~= tl@[k as int]@.skip(proxy_pass_prefix().len() as int));
    let segs = split_v(&rest, '/');
    proof { lemma_split_on_len(rest@, '/'); }
    assert(views(segs@)[0] == segs@[0]@);
    match parse_u32_v(&trim_v(&segs[0])) {
        Some(v) => if v <= 65535 { v as u16 } else { 8888 },
        None => 8888,
    }
}

/// What healing the webmail fragment writes: the port it keeps and today's
/// fragment on that port, or `None` when the file already matches.
pub fn webmail_heal(conf: &str) -> (r: Option<(u16, String)>)
    ensures
        match r {
            Some((p, d)) => healed_webmail(conf@) == Some((p, d@)),
            None => healed_webmail(conf@) is None,
        },
{
    let port = webmail_port(conf);
    let desired = webmail_nginx_block(port);
    if eq_v(&chars_of(desired.as_str()), &chars_of(conf)) {
        None
    } else {
        Some((port, desired))
    }
}

// ── reading the port back ───────────────────────────────────────────────

pub open spec fn webmail_head_lines() -> Seq<Seq<char>> {
    seq![
        "# DockPanel webmail (Roundcube) reverse-proxy — managed by agent, do not edit"@,
        "# v2.10.1: sub_filter rewrites Roundcube's root-anchored URLs (form action,"@,
        "# comm_path) under /webmail/ so navigation doesn't land on the panel root."@,
        "location /webmail/ {"@,
    ]
}

proof fn lemma_webmail_head_shape()
    ensures
        WEBMAIL_HEAD@ == webmail_head_lines()[0] + seq!['\n'] + (webmail_head_lines()[1] + seq!['\n']
            + (webmail_head_lines()[2] + seq!['\n'] + (webmail_head_lines()[3] + seq!['\n']
            + ("    "@ + proxy_pass_prefix())))),
{
    reveal_strlit("# DockPanel webmail (Roundcube) reverse-proxy — managed by agent, do not edit");
    reveal_strlit("# v2.10.1: sub_filter rewrites Roundcube's root-anchored URLs (form action,");
    reveal_strlit("# comm_path) under /webmail/ so navigation doesn't land on the panel root.");
    reveal_strlit("location /webmail/ {");
    reveal_strlit("    ");
    reveal_strlit("proxy_pass http://127.0.0.1:");
    reveal_strlit("# DockPanel webmail (Roundcube) reverse-proxy — managed by agent, do not edit\n# v2.10.1: sub_filter rewrites Roundcube's root-anchored URLs (form action,\n# comm_path) under /webmail/ so navigation doesn't land on the panel root.\nlocation /webmail/ {\n    proxy_pass http://127.0.0.1:");
    assert(WEBMAIL_HEAD@ =~= webmail_head_lines()[0] + seq!['\n'] + (webmail_head_lines()[1] + seq!['\n']
            + (webmail_head_lines()[2] + seq!['\n'] + (webmail_head_lines()[3] + seq!['\n']
            + ("    "@ + proxy_pass_prefix())))));
}

/// The webmail fragment for `port`.
pub open spec fn webmail_block(port: u16) -> Seq<char> {
    WEBMAIL_HEAD@ + decimal(port as nat) + WEBMAIL_TAIL@
}

proof fn lemma_no_newline_char(s: Seq<char>)
    requires forall|k: int| 0 <= k < s.len() ==> #[trigger] s[k] != '\n',
    ensures !s.contains('\n'),
{
}

proof fn lemma_decimal_parses(port: u16)
    ensures
        trim(decimal(port as nat)) == decimal(port as nat),
        parse_u16(decimal(port as nat)) == Some(port),
        !decimal(port as nat).contains('/'),
{
    let d = decimal(port as nat);
    lemma_decimal_digits(port as nat);
    assert(crate::text::is_digit(d[0]));
    assert(crate::text::is_digit(d.last()));
    lemma_trim_fixed(d);
    assert(d[0] != '+');
    assert(!d.contains('/')) by {
        if d.contains('/') {
            let k = choose|k: int| 0 <= k < d.len() && d[k] == '/';
            assert(crate::text::is_digit(d[k]));
        }
    }
}

/// The lines of the fragment for `port`: four head lines, then the
/// `proxy_pass` line trimmed to `proxy_pass http://127.0.0.1:{port}/;`, then
/// the rest; and the first line that starts with the `proxy_pass` prefix is
/// that one.
proof fn lemma_webmail_block_lines(port: u16)
    ensures
        lines(webmail_block(port)).len() > 4,
        forall|i: int| 0 <= i < 4 ==> #[trigger] trimmed_lines(webmail_block(port))[i] == webmail_head_lines()[i],
        trimmed_lines(webmail_block(port))[4] == proxy_pass_prefix() + decimal(port as nat) + "/;"@,
        first_prefixed(trimmed_lines(webmail_block(port)), proxy_pass_prefix()) == 4,
{
    let hl = webmail_head_lines();
    let pre = proxy_pass_prefix();
    let d = decimal(port as nat);
    let tail = WEBMAIL_TAIL@;
    lemma_webmail_head_shape();
    reveal_strlit("# DockPanel webmail (Roundcube) reverse-proxy — managed by agent, do not edit");
    reveal_strlit("# v2.10.1: sub_filter rewrites Roundcube's root-anchored URLs (form action,");
    reveal_strlit("# comm_path) under /webmail/ so navigation doesn't land on the panel root.");
    reveal_strlit("location /webmail/ {");
    reveal_strlit("    ");
    reveal_strlit("proxy_pass http://127.0.0.1:");
    reveal_strlit("/;");
    reveal_strlit("/;\n    proxy_http_version 1.1;\n    proxy_set_header Host $host;\n    proxy_set_header X-Real-IP $remote_addr;\n    proxy_set_header X-Forwarded-For $proxy_add_x_forwarded_for;\n    proxy_set_header X-Forwarded-Proto $scheme;\n    proxy_set_header X-Forwarded-Host $host;\n    proxy_set_header Accept-Encoding \"\";\n    proxy_redirect / /webmail/;\n    sub_filter '\"/?_task=' '\"/webmail/?_task=';\n    sub_filter_once off;\n    sub_filter_types text/html application/json application/javascript text/javascript;\n    proxy_read_timeout 300s;\n    client_max_body_size 25M;\n    # Roundcube's Elastic skin frames itself same-origin. The panel\n    # vhost sends X-Frame-Options DENY and frame-ancestors 'none',\n    # which this location inherits — the iframe is refused, the list\n    # JS throws a SecurityError reaching into it, and the inbox\n    # renders empty however much mail is really in it. Re-declare the\n    # whole header set here (nginx add_header in a location replaces\n    # the inherited set rather than adding to it) with framing\n    # narrowed to same-origin, not opened up.\n    add_header X-Content-Type-Options \"nosniff\" always;\n    add_header X-Frame-Options \"SAMEORIGIN\" always;\n    add_header Referrer-Policy \"strict-origin-when-cross-origin\" always;\n    add_header Permissions-Policy \"camera=(), microphone=(), geolocation=()\" always;\n    add_header Strict-Transport-Security \"max-age=31536000; includeSubDomains\" always;\n    add_header Content-Security-Policy \"frame-ancestors 'self'\" always;\n    add_header X-XSS-Protection \"1; mode=block\" always;\n}\n");
    lemma_decimal_digits(port as nat);
    // the tail opens with `/;` and a newline
    assert(tail.len() > 3 && tail[0] == '/' && tail[1] == ';' && tail[2] == '\n');
    let rest = tail.skip(3);
    assert(tail =~= "/;"@ + seq!['\n'] + rest);
    let x5 = "    "@ + pre + d + "/;"@;
    let b = webmail_block(port);
    assert(b =~= hl[0] + seq!['\n'] + (hl[1] + seq!['\n'] + (hl[2] + seq!['\n'] + (hl[3] + seq!['\n']
        + (x5 + seq!['\n'] + rest)))));
    // no line holds a newline
    lemma_no_newline_char(hl[0]);
    lemma_no_newline_char(hl[1]);
    lemma_no_newline_char(hl[2]);
    lemma_no_newline_char(hl[3]);
    assert forall|k: int| 0 <= k < x5.len() implies #[trigger] x5[k] != '\n' by {
        if 4 + pre.len() <= k < 4 + pre.len() + d.len() {
            assert(x5[k] == d[k - 4 - pre.len()]);
            assert(!d.contains('\n'));
        }
    }
    lemma_no_newline_char(x5);
    lemma_split_on_none(hl[0], '\n');
    lemma_split_on_none(hl[1], '\n');
    lemma_split_on_none(hl[2], '\n');
    lemma_split_on_none(hl[3], '\n');
    lemma_split_on_none(x5, '\n');
    let r4 = x5 + seq!['\n'] + rest;
    let r3 = hl[3] + seq!['\n'] + r4;
    let r2 = hl[2] + seq!['\n'] + r3;
    let r1 = hl[1] + seq!['\n'] + r2;
    lemma_split_on_concat(x5, rest, '\n');
    lemma_split_on_concat(hl[3], r4, '\n');
    lemma_split_on_concat(hl[2], r3, '\n');
    lemma_split_on_concat(hl[1], r2, '\n');
    lemma_split_on_concat(hl[0], r1, '\n');
    lemma_split_on_len(rest, '\n');
    let p = split_on(b, '\n');
    assert(p.len() >= 6);
    assert(p[0] == hl[0] && p[1] == hl[1] && p[2] == hl[2] && p[3] == hl[3] && p[4] == x5);
    let ls = lines(b);
    assert(ls.len() >= p.len() - 1);
    assert forall|i: int| 0 <= i < 5 implies #[trigger] ls[i] == strip_cr(p[i]) by {}
    // each kept line is its own trim; the proxy line loses its indent
    assert forall|i: int| 0 <= i < 4 implies #[trigger] trimmed_lines(b)[i] == hl[i] by {
        assert(ls[i] == strip_cr(p[i]));
        assert(hl[i].last() != '\r');
        assert(!is_ws(hl[i][0]) && !is_ws(hl[i].last()));
        lemma_trim_fixed(hl[i]);
    }
    let y = pre + d + "/;"@;
    assert(x5 =~= seq![' '] + (seq![' '] + (seq![' '] + (seq![' '] + y))));
    lemma_trim_ws_prefix(' ', seq![' '] + (seq![' '] + (seq![' '] + y)));
    lemma_trim_ws_prefix(' ', seq![' '] + (seq![' '] + y));
    lemma_trim_ws_prefix(' ', seq![' '] + y);
    lemma_trim_ws_prefix(' ', y);
    assert(y[0] == 'p' && y.last() == ';');
    lemma_trim_fixed(y);
    assert(x5.last() == ';');
    assert(ls[4] == x5);
    assert(trimmed_lines(b)[4] == y);
    // the first line with the prefix is the fifth
    let ts = trimmed_lines(b);
    assert forall|j: int| 0 <= j < 4 implies !pre.is_prefix_of(#[trigger] ts[j]) by {
        assert(ts[j] == hl[j]);
        assert(hl[j][0] != pre[0]);
    }
    assert(pre.is_prefix_of(ts[4])) by {
        assert(ts[4].subrange(0, pre.len() as int) =~= pre);
    }
    lemma_first_prefixed(ts, pre, 4);
}

/// What the heal reads back from a fragment is the port it was written for,
/// so healing today's fragment changes nothing.
pub proof fn law_webmail_port_reads_back(port: u16)
    ensures
        webmail_port_in(webmail_block(port)) == port,
        healed_webmail(webmail_block(port)) is None,
{
    lemma_webmail_block_lines(port);
    reveal_strlit("/;");
    reveal_strlit(";");
    let pre = proxy_pass_prefix();
    let d = decimal(port as nat);
    let ts = trimmed_lines(webmail_block(port));
    assert(ts[4].skip(pre.len() as int) =~= d + seq!['/'] + ";"@);
    lemma_decimal_parses(port);
    lemma_split_on_concat(d, ";"@, '/');
    lemma_split_on_none(d, '/');
    assert(split_on(d + seq!['/'] + ";"@, '/')[0] == d);
}

/// Two fragments are the same exactly when their ports are.
pub proof fn law_webmail_block_injective(p: u16, q: u16)
    ensures (webmail_block(p) == webmail_block(q)) == (p == q),
{
    law_webmail_port_reads_back(p);
    law_webmail_port_reads_back(q);
}

} // verus!
