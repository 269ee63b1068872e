//! Per-domain certificates: how an issuance failure is labelled, the
//! checks on an uploaded pair, where it is written, and the vhost settings
//! TLS is enabled with.
use vstd::prelude::*;
use crate::apps::SiteConfig;
use crate::text::{
    append, chars_of, contains, find_from_v, lemma_find_from, lemma_split_on_len, lines, lines_v, parse_u32, parse_u32_v,
    slice, split_on, split_v, starts_with_v, string_of, strip_trailing, strip_trailing_v, trim, trim_v, views,
};
use crate::validation::{domain_ok, is_valid_domain};

verus! {

fn text(s: &str) -> (r: String)
    ensures r@ == s@,
{
    string_of(&chars_of(s))
}

fn holds(s: &Vec<char>, p: &str) -> (r: bool)
    ensures r == contains(s@, p@),
{
    proof { lemma_find_from(s@, p@, 0); }
    find_from_v(s, &chars_of(p), 0).is_some()
}

/// An issuance failure as answered: the sentence, and whether the CA
/// itself declined (labelled `acme_order_failed` so the panel shows it).
pub struct IssueFailure {
    pub error: String,
    pub ca_declined: bool,
}

/// A failure the CA spoke for carries `marker` in front of the CA's reason;
/// only those are labelled.
pub fn classify_issue_failure(e: &str, marker: &str) -> (r: IssueFailure)
    ensures
        marker@.is_prefix_of(e@) ==> r.ca_declined && r.error@ == e@.skip(marker@.len() as int),
        !marker@.is_prefix_of(e@) ==> !r.ca_declined && r.error@ == e@,
{
    let ev = chars_of(e);
    let m = chars_of(marker);
    if starts_with_v(&ev, &m) {
        let reason = slice(&ev, m.len(), ev.len());
        assert(reason@ =~= e@.skip(marker@.len() as int));
        IssueFailure { error: string_of(&reason), ca_declined: true }
    } else {
        IssueFailure { error: string_of(&ev), ca_declined: false }
    }
}

/// A renewal's failure: the same label, with the sentence every agent has
/// put on this route in front.
pub fn classify_renewal_failure(e: &str, marker: &str) -> (r: IssueFailure)
    ensures
        marker@.is_prefix_of(e@) ==> r.ca_declined && r.error@ == "Renewal failed: "@ + e@.skip(marker@.len() as int),
        !marker@.is_prefix_of(e@) ==> !r.ca_declined && r.error@ == "Renewal failed: "@ + e@,
{
    let f = classify_issue_failure(e, marker);
    let mut v = chars_of("Renewal failed: ");
    append(&mut v, &chars_of(f.error.as_str()));
    IssueFailure { error: string_of(&v), ca_declined: f.ca_declined }
}

/// Why an uploaded pair is refused, if it is: the domain, then an empty
/// field, then a certificate or key that is not PEM.
pub open spec fn custom_cert_refusal(domain: Seq<char>, certificate: Seq<char>, private_key: Seq<char>) -> Option<Seq<char>> {
    if !domain_ok(domain) {
        Some("Invalid domain format"@)
    } else if domain.len() == 0 || certificate.len() == 0 || private_key.len() == 0 {
        Some("Domain, certificate, and private key required"@)
    } else if !contains(certificate, "BEGIN CERTIFICATE"@) || !contains(private_key, "BEGIN"@) {
        Some("Invalid PEM format"@)
    } else {
        None
    }
}

pub fn check_custom_cert(domain: &str, certificate: &str, private_key: &str) -> (r: Result<(), String>)
    ensures
        match custom_cert_refusal(domain@, certificate@, private_key@) {
            Some(m) => r matches Err(e) && e@ == m,
            None => r is Ok,
        },
{
    if !is_valid_domain(domain) {
        return Err(text("Invalid domain format"));
    }
    let c = chars_of(certificate);
    let k = chars_of(private_key);
    if chars_of(domain).len() == 0 || c.len() == 0 || k.len() == 0 {
        return Err(text("Domain, certificate, and private key required"));
    }
    if !holds(&c, "BEGIN CERTIFICATE") || !holds(&k, "BEGIN") {
        return Err(text("Invalid PEM format"));
    }
    Ok(())
}

/// Where a domain's own certificate lives: its directory, the chain and
/// the key.
pub fn certificate_paths(domain: &str) -> (r: (String, String, String))
    ensures
        r.0@ == "/etc/dockpanel/ssl/"@ + domain@,
        r.1@ == "/etc/dockpanel/ssl/"@ + domain@ + "/fullchain.pem"@,
        r.2@ == "/etc/dockpanel/ssl/"@ + domain@ + "/privkey.pem"@,
{
    let mut dir = chars_of("/etc/dockpanel/ssl/");
    append(&mut dir, &chars_of(domain));
    let mut cert = slice(&dir, 0, dir.len());
    append(&mut cert, &chars_of("/fullchain.pem"));
    let mut key = slice(&dir, 0, dir.len());
    append(&mut key, &chars_of("/privkey.pem"));
    assert(cert@ =~= "/etc/dockpanel/ssl/"@ + domain@ + "/fullchain.pem"@);
    assert(key@ =~= "/etc/dockpanel/ssl/"@ + domain@ + "/privkey.pem"@);
    (string_of(&dir), string_of(&cert), string_of(&key))
}

/// `u16::from_str`.
pub open spec fn parse_u16(s: Seq<char>) -> Option<u16> {
    match parse_u32(s) {
        Some(v) => if v <= 0xffff { Some(v as u16) } else { None },
        None => None,
    }
}

/// The first line that proxies, if any.
pub open spec fn first_proxy_line(ls: Seq<Seq<char>>) -> Option<Seq<char>>
    decreases ls.len(),
{
    if ls.len() == 0 {
        None
    } else if contains(ls[0], "proxy_pass"@) {
        Some(ls[0])
    } else {
        first_proxy_line(ls.skip(1))
    }
}

/// The port a vhost proxies to: what follows the last `:` of its first
/// `proxy_pass` line, without the trailing `;`.
pub open spec fn proxied_port(vhost: Seq<char>) -> Option<u16> {
    match first_proxy_line(lines(vhost)) {
        Some(l) => parse_u16(trim(strip_trailing(split_on(l, ':').last(), ';'))),
        None => None,
    }
}

fn proxied_port_v(vhost: &Vec<char>) -> (r: Option<u16>)
    ensures r == proxied_port(vhost@),
{
    let ls = lines_v(vhost);
    let mut i: usize = 0;
    assert(views(ls@).skip(0) =~= views(ls@));
    while i < ls.len()
        invariant
            i <= ls.len(),
            views(ls@) == lines(vhost@),
            first_proxy_line(lines(vhost@)) == first_proxy_line(lines(vhost@).skip(i as int)),
        decreases ls.len() - i,
    {
        assert(lines(vhost@).skip(i as int)[0] == ls@[i as int]@);
        assert(lines(vhost@).skip(i as int).skip(1) =~= lines(vhost@).skip(i + 1));
        if holds(&ls[i], "proxy_pass") {
            let parts = split_v(&ls[i], ':');
            proof { lemma_split_on_len(ls@[i as int]@, ':'); }
            let last = &parts[parts.len() - 1];
            assert(last@ == split_on(ls@[i as int]@, ':').last());
            let t = trim_v(&strip_trailing_v(last, ';'));
            return match parse_u32_v(&t) {
                Some(v) => if v <= 0xffff { Some(v as u16) } else { None },
                None => None,
            };
        }
        i += 1;
    }
    assert(lines(vhost@).skip(i as int) =~= Seq::<Seq<char>>::empty());
    None
}

/// The settings TLS is enabled with for a site whose vhost is `vhost`: a
/// proxy to its port when it proxies, else PHP; the root is `/var/www`.
pub fn tls_site_config(vhost: &str) -> (r: SiteConfig)
    ensures
        ({
            let proxy = contains(vhost@, "proxy_pass"@);
            &&& r.runtime@ == (if proxy { "proxy"@ } else { "php"@ })
            &&& r.root matches Some(x) && x@ == "/var/www"@
            &&& r.proxy_port == (if proxy { proxied_port(vhost@) } else { None })
            &&& r.php_socket is None && r.ssl is None && r.ssl_cert is None && r.ssl_key is None
            &&& r.rate_limit is None && r.max_upload_mb is None && r.php_memory_mb is None
            &&& r.php_max_workers is None && r.custom_nginx is None && r.php_preset is None && r.app_command is None
        }),
{
    let v = chars_of(vhost);
    let proxy = holds(&v, "proxy_pass");
    SiteConfig {
        runtime: if proxy { text("proxy") } else { text("php") },
        root: Some(text("/var/www")),
        proxy_port: if proxy { proxied_port_v(&v) } else { None },
        php_socket: None,
        ssl: None,
        ssl_cert: None,
        ssl_key: None,
        rate_limit: None,
        max_upload_mb: None,
        php_memory_mb: None,
        php_max_workers: None,
        custom_nginx: None,
        php_preset: None,
        app_command: None,
    }
}

/// The settings a provisioning or renewal request re-renders its vhost
/// with: what the request gives, nothing else.
pub fn requested_site_config(runtime: &str, root: Option<&str>, proxy_port: Option<u16>, php_socket: Option<&str>) -> (r: SiteConfig)
    ensures
        r.runtime@ == runtime@,
        (match root { Some(x) => r.root matches Some(y) && y@ == x@, None => r.root is None }),
        r.proxy_port == proxy_port,
        (match php_socket { Some(x) => r.php_socket matches Some(y) && y@ == x@, None => r.php_socket is None }),
        r.ssl is None && r.ssl_cert is None && r.ssl_key is None,
        r.rate_limit is None && r.max_upload_mb is None && r.php_memory_mb is None,
        r.php_max_workers is None && r.custom_nginx is None && r.php_preset is None && r.app_command is None,
{
    SiteConfig {
        runtime: text(runtime),
        root: match root { Some(x) => Some(text(x)), None => None },
        proxy_port,
        php_socket: match php_socket { Some(x) => Some(text(x)), None => None },
        ssl: None,
        ssl_cert: None,
        ssl_key: None,
        rate_limit: None,
        max_upload_mb: None,
        php_memory_mb: None,
        php_max_workers: None,
        custom_nginx: None,
        php_preset: None,
        app_command: None,
    }
}

} // verus!
