//! Docker apps: the TLS decision a deploy makes before any container runs,
//! the checks on images, commands and environment, the reverse-proxy vhost
//! shape, and the findings of a compose validation.
use vstd::prelude::*;
use vstd::string::StringSliceAdditionalSpecFns;
use crate::text::{
    all_digits, append, chars_of, contains, decimal, decimal_v, ends_with_v, eq_v, find_from_v, is_alnum,
    is_digit, is_lower, lemma_find_from, lemma_views_push, slice, split_on, split_v, strip_trailing,
    strip_trailing_v, string_of, trim, trim_v, views, alnum, digit, lower, str_views,
};

verus! {

// ── TLS intent ──────────────────────────────────────────────────────────

/// How a domain claimed by a deploy is to be secured, decided from the
/// request before anything runs.
#[derive(Debug, Clone, Copy, PartialEq, Eq)]
pub enum TlsIntent<'a> {
    /// Plain HTTP, or TLS terminated upstream.
    NoTls,
    /// Order a Let's Encrypt certificate under this ACME account address.
    Acme { email: &'a str },
    /// Serve a certificate the operator registered under this alias.
    Provided { alias: &'a str },
}

/// A certificate alias: 1 to 64 lowercase letters, digits or hyphens,
/// starting and ending with a letter or digit.
pub open spec fn cert_alias_ok(a: Seq<char>) -> bool {
    0 < a.len() <= 64
        && (forall|k: int| 0 <= k < a.len() ==> is_lower(#[trigger] a[k]) || is_digit(a[k]) || a[k] == '-')
        && a[0] != '-' && a.last() != '-'
}

/// Whether `alias` names a certificate in the registry's grammar.
pub fn is_valid_cert_alias(alias: &str) -> (r: bool)
    ensures r == cert_alias_ok(alias@),
{
    let a = chars_of(alias);
    if a.len() == 0 || a.len() > 64 {
        return false;
    }
    let mut i: usize = 0;
    while i < a.len()
        invariant
            i <= a.len(),
            a@ == alias@,
            forall|k: int| 0 <= k < i ==> is_lower(#[trigger] a@[k]) || is_digit(a@[k]) || a@[k] == '-',
        decreases a.len() - i,
    {
        let c = a[i];
        if !(lower(c) || digit(c) || c == '-') {
            assert(!(is_lower(a@[i as int]) || is_digit(a@[i as int]) || a@[i as int] == '-'));
            return false;
        }
        i += 1;
    }
    a[0] != '-' && a[a.len() - 1] != '-'
}

pub open spec fn acme_needs_email() -> Seq<char> {
    "tls_mode acme needs an ssl_email — the address the Let's Encrypt account is registered under"@
}

pub open spec fn provided_through_traefik(alias: Seq<char>) -> Seq<char> {
    "tls_mode provided cannot be served through Traefik: its file provider has no per-route certificate form for '"@
        + alias + "'. Switch the reverse proxy to nginx, or use tls_mode acme or none."@
}

pub open spec fn not_an_alias(alias: Seq<char>) -> Seq<char> {
    seq!['\''] + alias
        + "' is not a certificate alias — 1 to 64 lowercase letters, digits or hyphens, starting and ending with a letter or digit"@
}

pub open spec fn provided_needs_alias() -> Seq<char> {
    "tls_mode provided needs tls_certificate — the alias of a registered certificate"@
}

pub open spec fn unknown_mode(m: Seq<char>) -> Seq<char> {
    "unknown tls_mode '"@ + m + "': expected none, acme or provided"@
}

/// The decision `TlsIntent::from_request` makes, with errors as their text.
pub open spec fn tls_decision<'a>(
    tls_mode: Option<&str>,
    ssl_email: Option<&'a str>,
    alias: Option<&'a str>,
    use_traefik: bool,
) -> Result<TlsIntent<'a>, Seq<char>> {
    match tls_mode {
        None => Ok(match ssl_email {
            Some(email) => TlsIntent::Acme { email },
            None => TlsIntent::NoTls,
        }),
        Some(m) => if m@ == "none"@ {
            Ok(TlsIntent::NoTls)
        } else if m@ == "acme"@ {
            match ssl_email {
                Some(email) => if trim(email@).len() > 0 { Ok(TlsIntent::Acme { email }) } else { Err(acme_needs_email()) },
                None => Err(acme_needs_email()),
            }
        } else if m@ == "provided"@ {
            match alias {
                Some(a) => if use_traefik {
                    Err(provided_through_traefik(a@))
                } else if cert_alias_ok(a@) {
                    Ok(TlsIntent::Provided { alias: a })
                } else {
                    Err(not_an_alias(a@))
                },
                None => Err(provided_needs_alias()),
            }
        } else {
            Err(unknown_mode(m@))
        },
    }
}

fn lit_eq(s: &str, l: &str) -> (r: bool)
    ensures r == (s@ == l@),
{
    eq_v(&chars_of(s), &chars_of(l))
}

impl<'a> TlsIntent<'a> {
    /// Resolve the request's TLS fields. `Err` is the sentence the deploy
    /// answers 400 with, before any container runs.
    pub fn from_request(
        tls_mode: Option<&str>,
        ssl_email: Option<&'a str>,
        alias: Option<&'a str>,
        use_traefik: bool,
    ) -> (r: Result<TlsIntent<'a>, String>)
        ensures
            match tls_decision(tls_mode, ssl_email, alias, use_traefik) {
                Ok(t) => r == Ok::<TlsIntent<'a>, String>(t),
                Err(m) => r matches Err(e) && e@ == m,
            },
    {
        match tls_mode {
            None => Ok(match ssl_email {
                Some(email) => TlsIntent::Acme { email },
                None => TlsIntent::NoTls,
            }),
            Some(m) => {
                if lit_eq(m, "none") {
                    Ok(TlsIntent::NoTls)
                } else if lit_eq(m, "acme") {
                    match ssl_email {
                        Some(email) => {
                            if trim_v(&chars_of(email)).len() > 0 {
                                Ok(TlsIntent::Acme { email })
                            } else {
                                Err(string_of(&chars_of("tls_mode acme needs an ssl_email — the address the Let's Encrypt account is registered under")))
                            }
                        },
                        None => Err(string_of(&chars_of("tls_mode acme needs an ssl_email — the address the Let's Encrypt account is registered under"))),
                    }
                } else if lit_eq(m, "provided") {
                    match alias {
                        Some(a) => {
                            if use_traefik {
                                let mut s = chars_of("tls_mode provided cannot be served through Traefik: its file provider has no per-route certificate form for '");
                                append(&mut s, &chars_of(a));
                                append(&mut s, &chars_of("'. Switch the reverse proxy to nginx, or use tls_mode acme or none."));
                                Err(string_of(&s))
                            } else if is_valid_cert_alias(a) {
                                Ok(TlsIntent::Provided { alias: a })
                            } else {
                                let mut s = vec!['\''];
                                append(&mut s, &chars_of(a));
                                append(&mut s, &chars_of("' is not a certificate alias — 1 to 64 lowercase letters, digits or hyphens, starting and ending with a letter or digit"));
                                assert(s@ =~= not_an_alias(a@));
                                Err(string_of(&s))
                            }
                        },
                        None => Err(string_of(&chars_of("tls_mode provided needs tls_certificate — the alias of a registered certificate"))),
                    }
                } else {
                    let mut s = chars_of("unknown tls_mode '");
                    append(&mut s, &chars_of(m));
                    append(&mut s, &chars_of("': expected none, acme or provided"));
                    Err(string_of(&s))
                }
            },
        }
    }

    /// The vocabulary word this intent answers as.
    pub fn mode(self) -> (r: &'static str)
        ensures
            r@ == match self {
                TlsIntent::NoTls => "none"@,
                TlsIntent::Acme { .. } => "acme"@,
                TlsIntent::Provided { .. } => "provided"@,
            },
    {
        match self {
            TlsIntent::NoTls => "none",
            TlsIntent::Acme { .. } => "acme",
            TlsIntent::Provided { .. } => "provided",
        }
    }
}

// ── images ──────────────────────────────────────────────────────────────

pub open spec fn is_image_char(c: char) -> bool {
    is_alnum(c) || c == '/' || c == ':' || c == '.' || c == '-' || c == '_' || c == '@'
}

/// An image reference of safe characters: non-empty, at most 256
/// characters, and not starting with `-`.
pub open spec fn image_ref_ok(s: Seq<char>) -> bool {
    0 < s.len() <= 256 && (forall|k: int| 0 <= k < s.len() ==> is_image_char(#[trigger] s[k])) && s[0] != '-'
}

/// Validate that an image reference contains only safe characters.
pub fn is_valid_image_ref(image: &str) -> (r: bool)
    ensures r == image_ref_ok(image@),
{
    let v = chars_of(image);
    if v.len() == 0 || v.len() > 256 {
        return false;
    }
    let mut i: usize = 0;
    while i < v.len()
        invariant i <= v.len(), v@ == image@, forall|k: int| 0 <= k < i ==> is_image_char(#[trigger] v@[k]),
        decreases v.len() - i,
    {
        let c = v[i];
        if !(alnum(c) || c == '/' || c == ':' || c == '.' || c == '-' || c == '_' || c == '@') {
            assert(!is_image_char(v@[i as int]));
            return false;
        }
        i += 1;
    }
    v[0] != '-'
}

// ── the proxy vhost ─────────────────────────────────────────────────────

/// The settings a site's vhost is rendered from.
pub struct SiteConfig {
    /// Site runtime: "static", "php", "proxy".
    pub runtime: String,
    /// Document root (for static/PHP) relative to the site directory.
    pub root: Option<String>,
    /// Upstream port (for proxy/Docker sites).
    pub proxy_port: Option<u16>,
    /// PHP-FPM socket path (for PHP sites).
    pub php_socket: Option<String>,
    pub ssl: Option<bool>,
    pub ssl_cert: Option<String>,
    pub ssl_key: Option<String>,
    /// Requests per second per IP.
    pub rate_limit: Option<u32>,
    /// Max upload body size in MB.
    pub max_upload_mb: Option<u32>,
    /// PHP memory_limit in MB.
    pub php_memory_mb: Option<u32>,
    /// PHP-FPM pm.max_children.
    pub php_max_workers: Option<u32>,
    /// Custom nginx directives injected into the server block.
    pub custom_nginx: Option<String>,
    /// PHP framework preset.
    pub php_preset: Option<String>,
    /// App start command (for node/python runtimes).
    pub app_command: Option<String>,
}

/// A reverse-proxy vhost pointing at a local port, and nothing else set.
pub fn proxy_site_config(port: u16) -> (r: SiteConfig)
    ensures
        r.runtime@ == "proxy"@,
        r.proxy_port == Some(port),
        r.root is None && r.php_socket is None && r.ssl is None && r.ssl_cert is None && r.ssl_key is None,
        r.rate_limit is None && r.max_upload_mb is None && r.php_memory_mb is None && r.php_max_workers is None,
        r.custom_nginx is None && r.php_preset is None && r.app_command is None,
{
    SiteConfig {
        runtime: string_of(&chars_of("proxy")),
        root: None,
        proxy_port: Some(port),
        php_socket: None,
        ssl: None,
        ssl_cert: None,
        ssl_key: None,
        rate_limit: None,
        max_upload_mb: None,
        php_memory_mb: None,
        php_max_workers: None,
        custom_nginx: None,
        php_preset: None,
        app_command: None,
    }
}

// ── container stats and shells ──────────────────────────────────────────

/// One `docker stats` snapshot.
pub struct ContainerStats {
    pub cpu_percent: String,
    pub memory_usage: String,
    pub memory_percent: String,
    pub network_io: String,
    pub block_io: String,
    pub pids: String,
}

/// `docker stats` output in the `CPU|MemUsage|MemPerc|NetIO|BlockIO|PIDs`
/// format; `None` when it has fewer than six fields.
pub open spec fn stats_of(out: Seq<char>) -> Option<(Seq<char>, Seq<char>, Seq<char>, Seq<char>, Seq<char>, Seq<char>)> {
    let p = split_on(trim(out), '|');
    if p.len() >= 6 {
        Some((trim(strip_trailing(p[0], '%')), trim(p[1]), trim(strip_trailing(p[2], '%')), trim(p[3]), trim(p[4]), trim(p[5])))
    } else {
        None
    }
}

pub fn parse_stats(stdout: &str) -> (r: Option<ContainerStats>)
    ensures
        match stats_of(stdout@) {
            Some(t) => r matches Some(s) && (s.cpu_percent@, s.memory_usage@, s.memory_percent@, s.network_io@, s.block_io@, s.pids@) == t,
            None => r is None,
        },
{
    let t = trim_v(&chars_of(stdout));
    let p = split_v(&t, '|');
    if p.len() < 6 {
        return None;
    }
    assert(views(p@)[0] == p@[0]@ && views(p@)[1] == p@[1]@ && views(p@)[2] == p@[2]@);
    assert(views(p@)[3] == p@[3]@ && views(p@)[4] == p@[4]@ && views(p@)[5] == p@[5]@);
    Some(ContainerStats {
        cpu_percent: string_of(&trim_v(&strip_trailing_v(&p[0], '%'))),
        memory_usage: string_of(&trim_v(&p[1])),
        memory_percent: string_of(&trim_v(&strip_trailing_v(&p[2], '%'))),
        network_io: string_of(&trim_v(&p[3])),
        block_io: string_of(&trim_v(&p[4])),
        pids: string_of(&trim_v(&p[5])),
    })
}

/// The shell a terminal opens: bash where there is one, else sh, else none.
pub fn shell_for(has_bash: bool, has_sh: bool) -> (r: &'static str)
    ensures r@ == (if has_bash { "/bin/bash"@ } else if has_sh { "/bin/sh"@ } else { ""@ }),
{
    if has_bash { "/bin/bash" } else if has_sh { "/bin/sh" } else { "" }
}

/// The first `n` characters of `s` (`s.chars().take(n)`).
pub fn take_chars(s: &str, n: usize) -> (r: String)
    ensures r@ == s@.take(if s@.len() < n { s@.len() as int } else { n as int }),
{
    let v = chars_of(s);
    let m = if v.len() < n { v.len() } else { n };
    let p = slice(&v, 0, m);
    assert(p@ =~= s@.take(m as int));
    string_of(&p)
}

// ── commands run inside a container ─────────────────────────────────────

/// The Unicode lowercase of a text, as `str::to_lowercase` computes it.
pub uninterp spec fn lowercase(s: Seq<char>) -> Seq<char>;

/// `str::to_lowercase`; the result depends on the text alone.
#[verifier::external_body]
pub(crate) fn to_lowercase(s: &str) -> (r: String)
    ensures r@ == lowercase(s@),
{
    s.to_lowercase()
}

/// What a command may not mention, because it could leave the container.
pub open spec fn blocked_patterns() -> Seq<Seq<char>> {
    seq!["mount"@, "nsenter"@, "chroot"@, "/proc/1/"@, "/proc/sysrq"@, "docker"@, "kubectl"@,
        "unshare"@, "pivot_root"@, "setns"@, "capsh"@, "mknod"@, "debugfs"@, "kexec"@]
}

/// The first blocked pattern a lowercased command contains, if any.
pub open spec fn first_blocked(lower: Seq<char>, n: nat) -> Option<Seq<char>>
    decreases n,
{
    if n == 0 {
        None
    } else {
        match first_blocked(lower, (n - 1) as nat) {
            Some(p) => Some(p),
            None => if n - 1 < blocked_patterns().len() && contains(lower, blocked_patterns()[n - 1]) {
                Some(blocked_patterns()[n - 1])
            } else {
                None
            },
        }
    }
}

/// The answer to an already-lowercased command: `Err` naming the first
/// blocked pattern it contains.
pub fn check_lowered_command(lower: &str) -> (r: Result<(), String>)
    ensures
        match first_blocked(lower@, 14) {
            Some(p) => r matches Err(m) && m@ == "Blocked command: contains '"@ + p + "'"@,
            None => r is Ok,
        },
{
    let lv = chars_of(lower);
    let pats: [&str; 14] = ["mount", "nsenter", "chroot", "/proc/1/", "/proc/sysrq", "docker", "kubectl",
        "unshare", "pivot_root", "setns", "capsh", "mknod", "debugfs", "kexec"];
    let ghost bp = blocked_patterns();
    assert(forall|k: int| 0 <= k < 14 ==> #[trigger] pats@[k]@ == bp[k]);
    let mut i: usize = 0;
    while i < 14
        invariant
            i <= 14,
            lv@ == lower@,
            bp == blocked_patterns(),
            forall|k: int| 0 <= k < 14 ==> #[trigger] pats@[k]@ == bp[k],
            first_blocked(lower@, i as nat) is None,
        decreases 14 - i,
    {
        let pv = chars_of(pats[i]);
        proof { lemma_find_from(lv@, pv@, 0); }
        if find_from_v(&lv, &pv, 0).is_some() {
            assert(first_blocked(lower@, (i + 1) as nat) == Some(bp[i as int]));
            proof { lemma_first_blocked_stays(lower@, (i + 1) as nat, 14); }
            let mut m = chars_of("Blocked command: contains '");
            append(&mut m, &pv);
            append(&mut m, &chars_of("'"));
            return Err(string_of(&m));
        }
        i += 1;
    }
    Ok(())
}

proof fn lemma_first_blocked_stays(lower: Seq<char>, a: nat, b: nat)
    requires a <= b, first_blocked(lower, a) is Some,
    ensures first_blocked(lower, b) == first_blocked(lower, a),
    decreases b - a,
{
    if a < b {
        lemma_first_blocked_stays(lower, a, (b - 1) as nat);
    }
}

/// The checks on a command to run inside a container: 1 to 1000 bytes, and
/// none of the blocked patterns in its lowercase form.
pub fn check_exec_command(command: &str) -> (r: Result<(), String>)
    ensures
        (command@.len() == 0 || command.len() > 1000) ==> (r matches Err(m) && m@ == "Invalid command"@),
        !(command@.len() == 0 || command.len() > 1000) ==> match first_blocked(lowercase(command@), 14) {
            Some(p) => r matches Err(m) && m@ == "Blocked command: contains '"@ + p + "'"@,
            None => r is Ok,
        },
{
    if command.is_empty() || command.len() > 1000 {
        return Err(string_of(&chars_of("Invalid command")));
    }
    let lower = to_lowercase(command);
    check_lowered_command(lower.as_str())
}

// ── environment ─────────────────────────────────────────────────────────

/// The Unicode uppercase of a text, as `str::to_uppercase` computes it.
pub uninterp spec fn uppercase(s: Seq<char>) -> Seq<char>;

/// `str::to_uppercase`; the result depends on the text alone.
#[verifier::external_body]
fn to_uppercase(s: &str) -> (r: String)
    ensures r@ == uppercase(s@),
{
    s.to_uppercase()
}

/// The value shown in place of a secret.
pub const ENV_MASK: &'static str = "********";

/// Whether an uppercased variable name looks like it holds a secret.
pub open spec fn looks_secret(upper: Seq<char>) -> bool {
    contains(upper, "PASSWORD"@) || contains(upper, "SECRET"@) || contains(upper, "KEY"@)
        || contains(upper, "TOKEN"@) || contains(upper, "CREDENTIAL"@) || contains(upper, "AUTH"@)
}

fn has_sub(s: &Vec<char>, p: &str) -> (r: bool)
    ensures r == contains(s@, p@),
{
    let pv = chars_of(p);
    proof { lemma_find_from(s@, pv@, 0); }
    find_from_v(s, &pv, 0).is_some()
}

/// The value an uppercased name shows: masked when it looks secret, unless
/// the app catalogue declares it not secret.
pub fn shown_value(upper_key: &str, value: &str, catalogue_non_secret: bool) -> (r: String)
    ensures r@ == (if looks_secret(upper_key@) && !catalogue_non_secret { ENV_MASK@ } else { value@ }),
{
    let u = chars_of(upper_key);
    let secret = has_sub(&u, "PASSWORD") || has_sub(&u, "SECRET") || has_sub(&u, "KEY")
        || has_sub(&u, "TOKEN") || has_sub(&u, "CREDENTIAL") || has_sub(&u, "AUTH");
    if secret && !catalogue_non_secret {
        string_of(&chars_of(ENV_MASK))
    } else {
        string_of(&chars_of(value))
    }
}

/// The value a container variable shows in the panel.
pub fn masked_env_value(key: &str, value: &str, catalogue_non_secret: bool) -> (r: String)
    ensures r@ == (if looks_secret(uppercase(key@)) && !catalogue_non_secret { ENV_MASK@ } else { value@ }),
{
    let upper = to_uppercase(key);
    shown_value(upper.as_str(), value, catalogue_non_secret)
}

} // verus!
