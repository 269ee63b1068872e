//! Nginx sites: the checks and derived names of creating, renaming,
//! disabling and deleting a site, and the files that go with it.
use vstd::prelude::*;
use crate::apps::SiteConfig;
use crate::text::{
    append, chars_of, contains, eq_v, find_from_v, lemma_find_from, replace_all, replace_all_v, replace_char,
    replace_char_v, slice, starts_with_v, ends_with_v, string_of, str_views,
};
use crate::validation::{domain_ok, is_valid_domain};

verus! {

fn has_dotdot(s: &Vec<char>) -> (r: bool)
    ensures r == contains(s@, ".."@),
{
    let dd = chars_of("..");
    proof { lemma_find_from(s@, dd@, 0); }
    find_from_v(s, &dd, 0).is_some()
}

fn lit(s: &str) -> (r: Vec<char>)
    ensures r@ == s@,
{
    chars_of(s)
}

/// `prefix + x + suffix` as a string.
fn wrap(prefix: &str, x: &Vec<char>, suffix: &str) -> (r: String)
    ensures r@ == prefix@ + x@ + suffix@,
{
    let mut v = lit(prefix);
    append(&mut v, x);
    append(&mut v, &lit(suffix));
    string_of(&v)
}

/// The enabled vhost of a domain.
pub fn site_config_path(domain: &str) -> (r: String)
    ensures r@ == "/etc/nginx/sites-enabled/"@ + domain@ + ".conf"@,
{
    wrap("/etc/nginx/sites-enabled/", &lit(domain), ".conf")
}

/// Where a disabled site's real vhost is kept.
pub fn disabled_backup_path(domain: &str) -> (r: String)
    ensures r@ == "/etc/nginx/sites-available/"@ + domain@ + ".conf.disabled"@,
{
    wrap("/etc/nginx/sites-available/", &lit(domain), ".conf.disabled")
}

/// The Fail2Ban jail of a site: `nginx-` and the domain with dots as hyphens.
pub open spec fn jail_name_of(domain: Seq<char>) -> Seq<char> {
    "nginx-"@ + replace_char(domain, '.', seq!['-'])
}

pub fn jail_name(domain: &str) -> (r: String)
    ensures r@ == jail_name_of(domain@),
{
    let dash = vec!['-'];
    assert(dash@ =~= seq!['-']);
    let mut v = lit("nginx-");
    append(&mut v, &replace_char_v(&lit(domain), '.', &dash));
    string_of(&v)
}

/// The systemd unit of a Node or Python site's app process.
pub fn app_service_name(domain: &str) -> (r: String)
    ensures r@ == "dockpanel-app-"@ + replace_char(domain@, '.', seq!['-']),
{
    let dash = vec!['-'];
    assert(dash@ =~= seq!['-']);
    let mut v = lit("dockpanel-app-");
    append(&mut v, &replace_char_v(&lit(domain), '.', &dash));
    string_of(&v)
}

/// The PHP-FPM pool of a site: the domain with dots as underscores.
pub fn pool_name(domain: &str) -> (r: String)
    ensures r@ == replace_char(domain@, '.', seq!['_']),
{
    let us = vec!['_'];
    assert(us@ =~= seq!['_']);
    string_of(&replace_char_v(&lit(domain), '.', &us))
}

/// The Fail2Ban jail a new site gets: its name, its file, and its text.
pub fn fail2ban_jail(domain: &str) -> (r: (String, String, String))
    ensures
        r.0@ == jail_name_of(domain@),
        r.1@ == "/etc/fail2ban/jail.d/"@ + jail_name_of(domain@) + ".conf"@,
        r.2@ == seq!['['] + jail_name_of(domain@) + "]\nenabled = true\nport = http,https\nfilter = nginx-http-auth\nlogpath = /var/log/nginx/"@
            + domain@ + ".access.log\nmaxretry = 10\nfindtime = 300\nbantime = 3600\n"@,
{
    let name = jail_name(domain);
    let nv = lit(name.as_str());
    let path = wrap("/etc/fail2ban/jail.d/", &nv, ".conf");
    let mut c = vec!['['];
    append(&mut c, &nv);
    append(&mut c, &lit("]\nenabled = true\nport = http,https\nfilter = nginx-http-auth\nlogpath = /var/log/nginx/"));
    append(&mut c, &lit(domain));
    append(&mut c, &lit(".access.log\nmaxretry = 10\nfindtime = 300\nbantime = 3600\n"));
    (name, path, string_of(&c))
}

// ── creating a site ─────────────────────────────────────────────────────

/// A PHP-FPM socket without its `unix:` scheme.
pub open spec fn socket_path_of(socket: Seq<char>) -> Seq<char> {
    if "unix:"@.is_prefix_of(socket) { socket.skip(5) } else { socket }
}

/// The PHP version a socket path names, or `unknown`.
pub open spec fn php_version_of(path: Seq<char>) -> Seq<char> {
    if "/run/php/php"@.is_prefix_of(path) && "-fpm.sock"@.is_suffix_of(path.skip(12)) {
        path.subrange(12, path.len() - 9)
    } else {
        "unknown"@
    }
}

/// The pool settings a PHP site with a socket under `unix:/run/php/php` gets:
/// its version, and memory and workers with their defaults of 256 and 5.
pub open spec fn pool_settings_of(socket: Seq<char>, memory: Option<u32>, workers: Option<u32>) -> Option<(Seq<char>, u32, u32)> {
    let pre = "unix:/run/php/php"@;
    if pre.is_prefix_of(socket) && "-fpm.sock"@.is_suffix_of(socket.skip(17)) {
        Some((socket.subrange(17, socket.len() - 9),
            match memory { Some(m) => m, None => 256u32 },
            match workers { Some(w) => w, None => 5u32 }))
    } else {
        None
    }
}

/// What creating a site does once its checks pass.
pub struct SitePlan {
    pub config_path: String,
    /// The PHP-FPM pool to write: version, memory in MB, workers.
    pub php_pool: Option<(String, u32, u32)>,
}

/// How creating a site starts: the app process to create first for a Node
/// or Python site (command and port) — created before the socket checks
/// run, so a refused request still leaves it — and then the checks' outcome.
pub struct SiteStart {
    pub app_service: Option<(String, u16)>,
    pub outcome: Result<SitePlan, (u16, String)>,
}

pub open spec fn is_app_runtime(rt: Seq<char>) -> bool {
    rt == "node"@ || rt == "python"@
}

/// The checks creating a site runs before it renders anything, with the
/// status and message it answers; `socket_exists` says whether the PHP-FPM
/// socket the config names is on disk. A valid domain with a Node or Python
/// runtime, a command and a port gets its app process before any socket
/// check. If creating that process fails the request answers 500 and the
/// outcome is not used.
pub fn plan_site(domain: &str, config: &SiteConfig, socket_exists: bool) -> (r: SiteStart)
    ensures
        (r.app_service is Some <==> (domain_ok(domain@) && is_app_runtime(config.runtime@)
            && config.app_command is Some && config.proxy_port is Some)),
        (r.app_service matches Some((c, p)) ==> c@ == config.app_command->0@ && p == config.proxy_port->0),
        r.outcome matches Ok(plan) ==> (plan.php_pool matches Some((v, m, w)) ==>
            m == (match config.php_memory_mb { Some(x) => x, None => 256u32 })
            && w == (match config.php_max_workers { Some(x) => x, None => 5u32 })),
        ({
            let sock = match config.php_socket { Some(s) => Some(socket_path_of(s@)), None => None };
            let o = r.outcome;
            if !domain_ok(domain@) {
                o matches Err((400, m)) && m@ == "Invalid domain format"@
            } else if sock matches Some(p) && (!"/run/php/"@.is_prefix_of(p) || contains(p, ".."@)) {
                o matches Err((400, m)) && m@ == "PHP socket must be under /run/php/"@
            } else if config.runtime@ == "php"@ && sock is Some && !socket_exists {
                o matches Err((400, m)) && m@ == "PHP "@ + php_version_of(sock->0)
                    + " is not installed or PHP-FPM is not running. Install it from Settings > Services before creating a PHP site."@
            } else {
                o matches Ok(plan)
                    && plan.config_path@ == "/etc/nginx/sites-enabled/"@ + domain@ + ".conf"@
                    && (if config.runtime@ == "php"@ && config.php_socket is Some {
                        match pool_settings_of(config.php_socket->0@, config.php_memory_mb, config.php_max_workers) {
                            Some((v, m, w)) => plan.php_pool matches Some((pv, pm, pw)) && pv@ == v && pm == m && pw == w,
                            None => plan.php_pool is None,
                        }
                    } else {
                        plan.php_pool is None
                    })
            }
        }),
{
    if !is_valid_domain(domain) {
        return SiteStart { app_service: None, outcome: Err((400, string_of(&lit("Invalid domain format")))) };
    }
    let rt = lit(config.runtime.as_str());
    let is_php = eq_v(&rt, &lit("php"));
    let app_rt = eq_v(&rt, &lit("node")) || eq_v(&rt, &lit("python"));
    let app_service = if app_rt {
        match (&config.app_command, config.proxy_port) {
            (Some(cmd), Some(port)) => Some((cmd.clone(), port)),
            _ => None,
        }
    } else {
        None
    };
    let sock_path: Option<Vec<char>> = match &config.php_socket {
        Some(s) => {
            let sv = lit(s.as_str());
            if starts_with_v(&sv, &lit("unix:")) {
                proof { reveal_strlit("unix:"); }
                let p = slice(&sv, 5, sv.len());
                assert(p@ =~= sv@.skip(5));
                Some(p)
            } else {
                Some(sv)
            }
        },
        None => None,
    };
    match &sock_path {
        Some(p) => {
            if !starts_with_v(p, &lit("/run/php/")) || has_dotdot(p) {
                return SiteStart { app_service, outcome: Err((400, string_of(&lit("PHP socket must be under /run/php/")))) };
            }
            if is_php && !socket_exists {
                let version = php_version_v(p);
                let mut m = lit("PHP ");
                append(&mut m, &version);
                append(&mut m, &lit(" is not installed or PHP-FPM is not running. Install it from Settings > Services before creating a PHP site."));
                return SiteStart { app_service, outcome: Err((400, string_of(&m))) };
            }
        },
        None => {},
    }
    let php_pool = if is_php {
        match &config.php_socket {
            Some(s) => pool_settings_v(&lit(s.as_str()), config.php_memory_mb, config.php_max_workers),
            None => None,
        }
    } else {
        None
    };
    SiteStart { app_service, outcome: Ok(SitePlan { config_path: site_config_path(domain), php_pool }) }
}

/// A planned PHP-FPM pool takes the memory limit and worker count the
/// request asked for, and 256 MB and 5 workers only where it asked for none;
/// and a socket under `unix:/run/php/php{v}-fpm.sock` always gets its pool,
/// for version `v`.
pub proof fn law_pool_takes_requested_limits(socket: Seq<char>, memory: Option<u32>, workers: Option<u32>)
    ensures
        pool_settings_of(socket, memory, workers) matches Some((v, m, w)) ==>
            (memory matches Some(x) ==> m == x) && (memory is None ==> m == 256)
            && (workers matches Some(x) ==> w == x) && (workers is None ==> w == 5)
            && socket == "unix:/run/php/php"@ + v + "-fpm.sock"@,
        forall|v: Seq<char>| socket == "unix:/run/php/php"@ + v + "-fpm.sock"@ ==>
            ((#[trigger] pool_settings_of(socket, memory, workers)) matches Some((pv, _m, _w)) && pv == v),
{
    reveal_strlit("unix:/run/php/php");
    reveal_strlit("-fpm.sock");
    if let Some((v, m, w)) = pool_settings_of(socket, memory, workers) {
        assert(socket =~= "unix:/run/php/php"@ + v + "-fpm.sock"@);
    }
    assert forall|v: Seq<char>| socket == "unix:/run/php/php"@ + v + "-fpm.sock"@ implies
        ((#[trigger] pool_settings_of(socket, memory, workers)) matches Some((pv, _m, _w)) && pv == v) by {
        let pre = "unix:/run/php/php"@;
        let suf = "-fpm.sock"@;
        assert(pre.is_prefix_of(socket)) by { assert(socket.subrange(0, 17) =~= pre); }
        assert(suf.is_suffix_of(socket.skip(17))) by {
            assert(socket.skip(17) =~= v + suf);
            assert((v + suf).subrange(v.len() as int, (v + suf).len() as int) =~= suf);
        }
        assert(socket.subrange(17, socket.len() - 9) =~= v);
    }
}

fn php_version_v(p: &Vec<char>) -> (r: Vec<char>)
    ensures r@ == php_version_of(p@),
{
    proof { reveal_strlit("/run/php/php"); reveal_strlit("-fpm.sock"); }
    if starts_with_v(p, &lit("/run/php/php")) {
        let rest = slice(p, 12, p.len());
        assert(rest@ =~= p@.skip(12));
        if ends_with_v(&rest, &lit("-fpm.sock")) {
            let v = slice(p, 12, p.len() - 9);
            return v;
        }
    }
    lit("unknown")
}

fn pool_settings_v(s: &Vec<char>, memory: Option<u32>, workers: Option<u32>) -> (r: Option<(String, u32, u32)>)
    ensures
        match pool_settings_of(s@, memory, workers) {
            Some((v, m, w)) => r matches Some((rv, rm, rw)) && rv@ == v && rm == m && rw == w,
            None => r is None,
        },
{
    proof { reveal_strlit("unix:/run/php/php"); reveal_strlit("-fpm.sock"); }
    if starts_with_v(s, &lit("unix:/run/php/php")) {
        let rest = slice(s, 17, s.len());
        assert(rest@ =~= s@.skip(17));
        if ends_with_v(&rest, &lit("-fpm.sock")) {
            let v = slice(s, 17, s.len() - 9);
            let m = match memory { Some(m) => m, None => 256 };
            let w = match workers { Some(w) => w, None => 5 };
            return Some((string_of(&v), m, w));
        }
    }
    None
}

/// Where a new site's files go: its root (by default `/var/www/{domain}`,
/// and it must lie under `/var/www/` without `..`), plus `/public` for
/// runtimes that nginx serves files for.
pub fn site_document_root(domain: &str, root: Option<&str>, runtime: &str) -> (r: Result<String, (u16, String)>)
    ensures
        match root {
            Some(rt) => if !"/var/www/"@.is_prefix_of(rt@) || contains(rt@, ".."@) {
                r matches Err((400, m)) && m@ == "Document root must be under /var/www/"@
            } else {
                r matches Ok(p) && p@ == (if runtime@ == "proxy"@ || runtime@ == "node"@ || runtime@ == "python"@ { rt@ } else { rt@ + "/public"@ })
            },
            None => r matches Ok(p) && p@ == (if runtime@ == "proxy"@ || runtime@ == "node"@ || runtime@ == "python"@ {
                "/var/www/"@ + domain@
            } else {
                "/var/www/"@ + domain@ + "/public"@
            }),
        },
{
    let doc = match root {
        Some(rt) => {
            let rv = lit(rt);
            if !starts_with_v(&rv, &lit("/var/www/")) || has_dotdot(&rv) {
                return Err((400, string_of(&lit("Document root must be under /var/www/"))));
            }
            rv
        },
        None => {
            let mut d = lit("/var/www/");
            append(&mut d, &lit(domain));
            d
        },
    };
    let rtv = lit(runtime);
    if eq_v(&rtv, &lit("proxy")) || eq_v(&rtv, &lit("node")) || eq_v(&rtv, &lit("python")) {
        Ok(string_of(&doc))
    } else {
        let mut p = doc;
        append(&mut p, &lit("/public"));
        Ok(string_of(&p))
    }
}

/// The placeholder page a new site starts with.
pub fn index_page(domain: &str) -> (r: String)
    ensures r@ == "<!DOCTYPE html><html><head><title>"@ + domain@ + "</title></head><body><h1>Welcome to "@ + domain@
        + "</h1><p>Site is ready. Upload your files to replace this page.</p></body></html>"@,
{
    let d = lit(domain);
    let mut v = lit("<!DOCTYPE html><html><head><title>");
    append(&mut v, &d);
    append(&mut v, &lit("</title></head><body><h1>Welcome to "));
    append(&mut v, &d);
    append(&mut v, &lit("</h1><p>Site is ready. Upload your files to replace this page.</p></body></html>"));
    string_of(&v)
}

// ── renaming a site ─────────────────────────────────────────────────────

/// The checks renaming a site runs on its two names.
pub fn check_rename(old_domain: &str, new_domain: &str) -> (r: Result<(), (u16, String)>)
    ensures
        !domain_ok(old_domain@) ==> (r matches Err((400, m)) && m@ == "Invalid old domain format"@),
        domain_ok(old_domain@) && !domain_ok(new_domain@) ==> (r matches Err((400, m)) && m@ == "Invalid new domain format"@),
        domain_ok(old_domain@) && domain_ok(new_domain@) ==> r is Ok,
{
    if !is_valid_domain(old_domain) {
        return Err((400, string_of(&lit("Invalid old domain format"))));
    }
    if !is_valid_domain(new_domain) {
        return Err((400, string_of(&lit("Invalid new domain format"))));
    }
    Ok(())
}

/// A configuration file after a rename: every occurrence of the old domain
/// replaced by the new one.
pub fn renamed_content(content: &str, old_domain: &str, new_domain: &str) -> (r: String)
    requires old_domain@.len() > 0,
    ensures r@ == replace_all(content@, old_domain@, new_domain@),
{
    string_of(&replace_all_v(&lit(content), &lit(old_domain), &lit(new_domain)))
}

/// A Fail2Ban jail file after a rename: the jail name first, then the
/// domain.
pub fn renamed_jail(content: &str, old_domain: &str, new_domain: &str) -> (r: String)
    requires old_domain@.len() > 0,
    ensures
        r@ == replace_all(replace_all(content@, jail_name_of(old_domain@), jail_name_of(new_domain@)), old_domain@, new_domain@),
{
    let oj = lit(jail_name(old_domain).as_str());
    let nj = lit(jail_name(new_domain).as_str());
    proof { reveal_strlit("nginx-"); }
    assert(oj@.len() > 0);
    let step = replace_all_v(&lit(content), &oj, &nj);
    string_of(&replace_all_v(&step, &lit(old_domain), &lit(new_domain)))
}

/// The moves a rename makes besides the vhost: the site directory, the
/// certificates, both logs, and the redirect, auth and htpasswd files.
pub fn rename_moves(old_domain: &str, new_domain: &str) -> (r: Vec<(String, String)>)
    ensures
        r@.len() == 10,
        r@[0].0@ == "/var/www/"@ + old_domain@ && r@[0].1@ == "/var/www/"@ + new_domain@,
        r@[1].0@ == "/etc/dockpanel/ssl/"@ + old_domain@ && r@[1].1@ == "/etc/dockpanel/ssl/"@ + new_domain@,
        r@[2].0@ == "/var/log/nginx/"@ + old_domain@ + ".access.log"@ && r@[2].1@ == "/var/log/nginx/"@ + new_domain@ + ".access.log"@,
        r@[3].0@ == "/var/log/nginx/"@ + old_domain@ + ".error.log"@ && r@[3].1@ == "/var/log/nginx/"@ + new_domain@ + ".error.log"@,
        r@[4].0@ == "/etc/nginx/redirects/"@ + old_domain@ + ".conf"@ && r@[4].1@ == "/etc/nginx/redirects/"@ + new_domain@ + ".conf"@,
        r@[5].0@ == "/etc/nginx/redirects/"@ + old_domain@ && r@[5].1@ == "/etc/nginx/redirects/"@ + new_domain@,
        r@[6].0@ == "/etc/nginx/auth/"@ + old_domain@ + ".conf"@ && r@[6].1@ == "/etc/nginx/auth/"@ + new_domain@ + ".conf"@,
        r@[7].0@ == "/etc/nginx/auth/"@ + old_domain@ && r@[7].1@ == "/etc/nginx/auth/"@ + new_domain@,
        r@[8].0@ == "/etc/nginx/htpasswd/"@ + old_domain@ + ".conf"@ && r@[8].1@ == "/etc/nginx/htpasswd/"@ + new_domain@ + ".conf"@,
        r@[9].0@ == "/etc/nginx/htpasswd/"@ + old_domain@ && r@[9].1@ == "/etc/nginx/htpasswd/"@ + new_domain@,
{
    let o = lit(old_domain);
    let n = lit(new_domain);
    let mut v: Vec<(String, String)> = Vec::new();
    v.push((wrap("/var/www/", &o, ""), wrap("/var/www/", &n, "")));
    v.push((wrap("/etc/dockpanel/ssl/", &o, ""), wrap("/etc/dockpanel/ssl/", &n, "")));
    v.push((wrap("/var/log/nginx/", &o, ".access.log"), wrap("/var/log/nginx/", &n, ".access.log")));
    v.push((wrap("/var/log/nginx/", &o, ".error.log"), wrap("/var/log/nginx/", &n, ".error.log")));
    v.push((wrap("/etc/nginx/redirects/", &o, ".conf"), wrap("/etc/nginx/redirects/", &n, ".conf")));
    v.push((wrap("/etc/nginx/redirects/", &o, ""), wrap("/etc/nginx/redirects/", &n, "")));
    v.push((wrap("/etc/nginx/auth/", &o, ".conf"), wrap("/etc/nginx/auth/", &n, ".conf")));
    v.push((wrap("/etc/nginx/auth/", &o, ""), wrap("/etc/nginx/auth/", &n, "")));
    v.push((wrap("/etc/nginx/htpasswd/", &o, ".conf"), wrap("/etc/nginx/htpasswd/", &n, ".conf")));
    v.push((wrap("/etc/nginx/htpasswd/", &o, ""), wrap("/etc/nginx/htpasswd/", &n, "")));
    proof {
        reveal_strlit("");
        assert(""@ =~= Seq::<char>::empty());
    }
    assert(o@ + ""@ =~= o@);
    assert(n@ + ""@ =~= n@);
    v
}

/// The PHP versions whose pools a site may have.
pub fn php_pool_versions() -> (r: Vec<&'static str>)
    ensures r@.len() == 4, r@[0]@ == "8.1"@, r@[1]@ == "8.2"@, r@[2]@ == "8.3"@, r@[3]@ == "8.4"@,
{
    vec!["8.1", "8.2", "8.3", "8.4"]
}

/// A site's PHP-FPM pool file for one PHP version.
pub fn pool_path(version: &str, pool: &str) -> (r: String)
    ensures r@ == "/etc/php/"@ + version@ + "/fpm/pool.d/"@ + pool@ + ".conf"@,
{
    let mut v = lit("/etc/php/");
    append(&mut v, &lit(version));
    append(&mut v, &lit("/fpm/pool.d/"));
    append(&mut v, &lit(pool));
    append(&mut v, &lit(".conf"));
    string_of(&v)
}

// ── disabling a site ────────────────────────────────────────────────────

/// The maintenance vhost a disabled site answers with.
pub fn disabled_site_config(domain: &str) -> (r: String)
    ensures
        r@ == "server {\n    listen 80;\n    listen [::]:80;\n    server_name "@ + domain@ + " www."@ + domain@
            + ";\n    return 503;\n    error_page 503 @maintenance;\n    location @maintenance {\n        default_type text/html;\n        return 503 '<html><body style=\"font-family:sans-serif;display:flex;justify-content:center;align-items:center;height:100vh;margin:0;background:#1a1a2e;color:#e0e0e0\"><div style=\"text-align:center\"><h1>Site Disabled</h1><p>"@
            + domain@ + " is currently disabled by the administrator.</p></div></body></html>';\n    }\n}\n"@,
{
    let d = lit(domain);
    let mut v = lit("server {\n    listen 80;\n    listen [::]:80;\n    server_name ");
    append(&mut v, &d);
    append(&mut v, &lit(" www."));
    append(&mut v, &d);
    append(&mut v, &lit(";\n    return 503;\n    error_page 503 @maintenance;\n    location @maintenance {\n        default_type text/html;\n        return 503 '<html><body style=\"font-family:sans-serif;display:flex;justify-content:center;align-items:center;height:100vh;margin:0;background:#1a1a2e;color:#e0e0e0\"><div style=\"text-align:center\"><h1>Site Disabled</h1><p>"));
    append(&mut v, &d);
    append(&mut v, &lit(" is currently disabled by the administrator.</p></div></body></html>';\n    }\n}\n"));
    string_of(&v)
}

// ── logs ────────────────────────────────────────────────────────────────

/// The nginx log a site-log request reads, and how many lines: the error
/// log when asked for it, else the access log; 200 lines by default, at
/// most 1000.
pub fn site_log_request(domain: &str, lines: Option<usize>, log_type: Option<&str>) -> (r: (String, usize))
    ensures
        r.0@ == "/var/log/nginx/"@ + domain@ + (if log_type matches Some(t) && t@ == "error"@ { ".error.log"@ } else { ".access.log"@ }),
        r.1 == (match lines { Some(n) => if n < 1000 { n } else { 1000 }, None => 200 }),
{
    let n: usize = match lines { Some(n) => if n < 1000 { n } else { 1000 }, None => 200 };
    let is_error = match log_type {
        Some(t) => eq_v(&lit(t), &lit("error")),
        None => false,
    };
    let file = if is_error { wrap("/var/log/nginx/", &lit(domain), ".error.log") } else { wrap("/var/log/nginx/", &lit(domain), ".access.log") };
    (file, n)
}

/// Where a site's PHP errors may be logged, in the order they are tried.
pub fn php_error_log_candidates(domain: &str) -> (r: Vec<String>)
    ensures
        r@.len() == 5,
        r@[0]@ == "/var/log/php-fpm/"@ + replace_char(domain@, '.', seq!['_']) + ".error.log"@,
        r@[1]@ == "/var/log/php-fpm/"@ + domain@ + ".error.log"@,
        r@[2]@ == "/var/www/"@ + domain@ + "/storage/logs/laravel.log"@,
        r@[3]@ == "/var/log/php8.3-fpm.log"@,
        r@[4]@ == "/var/log/php8.2-fpm.log"@,
{
    let pool = pool_name(domain);
    let mut v: Vec<String> = Vec::new();
    v.push(wrap("/var/log/php-fpm/", &lit(pool.as_str()), ".error.log"));
    v.push(wrap("/var/log/php-fpm/", &lit(domain), ".error.log"));
    v.push(wrap("/var/www/", &lit(domain), "/storage/logs/laravel.log"));
    v.push(string_of(&lit("/var/log/php8.3-fpm.log")));
    v.push(string_of(&lit("/var/log/php8.2-fpm.log")));
    v
}

// ── deleting a site ─────────────────────────────────────────────────────

/// What deleting a site clears after its vhost is gone: the panel's
/// certificates, the PHP-FPM pool of every version, the files, the logs and
/// the Fail2Ban jail. Each is removed where it exists.
pub struct SiteRemoval {
    pub ssl_dir: String,
    pub pools: Vec<String>,
    pub site_dir: String,
    pub logs: Vec<String>,
    pub jail_path: String,
}

pub open spec fn removal_pool(domain: Seq<char>, version: Seq<char>) -> Seq<char> {
    "/etc/php/"@ + version + "/fpm/pool.d/"@ + replace_char(domain, '.', seq!['_']) + ".conf"@
}

/// The paths a deleted site leaves behind.
pub fn site_removal(domain: &str) -> (r: SiteRemoval)
    ensures
        r.ssl_dir@ == "/etc/dockpanel/ssl/"@ + domain@,
        str_views(r.pools@) == seq![
            removal_pool(domain@, "8.1"@), removal_pool(domain@, "8.2"@),
            removal_pool(domain@, "8.3"@), removal_pool(domain@, "8.4"@),
        ],
        r.site_dir@ == "/var/www/"@ + domain@,
        str_views(r.logs@) == seq![
            "/var/log/nginx/"@ + domain@ + ".access.log"@,
            "/var/log/nginx/"@ + domain@ + ".error.log"@,
        ],
        r.jail_path@ == "/etc/fail2ban/jail.d/"@ + jail_name_of(domain@) + ".conf"@,
{
    let d = lit(domain);
    let pool = pool_name(domain);
    let mut pools: Vec<String> = Vec::new();
    pools.push(pool_path("8.1", pool.as_str()));
    pools.push(pool_path("8.2", pool.as_str()));
    pools.push(pool_path("8.3", pool.as_str()));
    pools.push(pool_path("8.4", pool.as_str()));
    let mut logs: Vec<String> = Vec::new();
    logs.push(wrap("/var/log/nginx/", &d, ".access.log"));
    logs.push(wrap("/var/log/nginx/", &d, ".error.log"));
    let jail = jail_name(domain);
    let r = SiteRemoval {
        ssl_dir: wrap("/etc/dockpanel/ssl/", &d, ""),
        pools,
        site_dir: wrap("/var/www/", &d, ""),
        logs,
        jail_path: wrap("/etc/fail2ban/jail.d/", &lit(jail.as_str()), ".conf"),
    };
    proof {
        reveal_strlit("");
        assert(r.ssl_dir@ =~= "/etc/dockpanel/ssl/"@ + domain@);
        assert(r.site_dir@ =~= "/var/www/"@ + domain@);
        assert(str_views(r.pools@) =~= seq![
            removal_pool(domain@, "8.1"@), removal_pool(domain@, "8.2"@),
            removal_pool(domain@, "8.3"@), removal_pool(domain@, "8.4"@),
        ]);
        assert(str_views(r.logs@) =~= seq![
            "/var/log/nginx/"@ + domain@ + ".access.log"@,
            "/var/log/nginx/"@ + domain@ + ".error.log"@,
        ]);
    }
    r
}

// ── deleting a site ─────────────────────────────────────────────────────

/// Which vhost deleting a site removes: refused with 400 for a bad domain
/// and 404 when the site has no vhost (`config_exists` says whether
/// `/etc/nginx/sites-enabled/{domain}.conf` is on disk).
pub fn deletion_target(domain: &str, config_exists: bool) -> (r: Result<String, (u16, String)>)
    ensures
        !domain_ok(domain@) ==> (r matches Err((s, m)) && s == 400 && m@ == "Invalid domain format"@),
        domain_ok(domain@) && !config_exists ==>
            (r matches Err((s, m)) && s == 404 && m@ == "No config found for "@ + domain@),
        domain_ok(domain@) && config_exists ==>
            (r matches Ok(p) && p@ == "/etc/nginx/sites-enabled/"@ + domain@ + ".conf"@),
{
    if !is_valid_domain(domain) {
        return Err((400, string_of(&lit("Invalid domain format"))));
    }
    if !config_exists {
        let mut m = lit("No config found for ");
        append(&mut m, &lit(domain));
        return Err((404, string_of(&m)));
    }
    Ok(site_config_path(domain))
}

/// The step of a deletion that failed, with the error it gave.
pub enum DeletionFailure {
    /// Removing the vhost failed.
    Remove(String),
    /// The vhost is gone but nginx did not reload.
    Reload(String),
}

/// What a failed deletion answers: 500, naming the step.
pub fn deletion_failure(f: &DeletionFailure) -> (r: (u16, String))
    ensures
        r.0 == 500,
        match f {
            DeletionFailure::Remove(e) => r.1@ == "Failed to remove config: "@ + e@,
            DeletionFailure::Reload(e) => r.1@ == "Config removed but reload failed: "@ + e@,
        },
{
    match f {
        DeletionFailure::Remove(e) => {
            let mut m = lit("Failed to remove config: ");
            append(&mut m, &lit(e.as_str()));
            (500, string_of(&m))
        },
        DeletionFailure::Reload(e) => {
            let mut m = lit("Config removed but reload failed: ");
            append(&mut m, &lit(e.as_str()));
            (500, string_of(&m))
        },
    }
}

// ── testing and reloading nginx after a change ──────────────────────────

/// How `nginx -t` went after a site was written or renamed.
pub enum ConfigTest {
    Passed,
    /// The test ran and refused the configuration.
    Failed { stderr: String },
    /// The test could not be run.
    NotRun { error: String },
}

/// What follows the test: reload, or roll the change back and answer.
pub enum TestVerdict {
    Reload,
    /// Undo the change (a new site's vhost is removed; a rename puts the old
    /// vhost and directory back) and answer with this status and message.
    RollBack { status: u16, message: String },
}

/// The verdict on a config test: a refused configuration is rolled back
/// with 400 and nginx's own words, a test that could not run with 500.
pub fn after_config_test(rename: bool, t: &ConfigTest) -> (r: TestVerdict)
    ensures
        match t {
            ConfigTest::Passed => r is Reload,
            ConfigTest::Failed { stderr } => r matches TestVerdict::RollBack { status, message }
                && status == 400
                && message@ == (if rename { "Nginx config test failed after rename: "@ } else { "Nginx config test failed: "@ }) + stderr@,
            ConfigTest::NotRun { error } => r matches TestVerdict::RollBack { status, message }
                && status == 500 && message@ == "Failed to test config: "@ + error@,
        },
{
    match t {
        ConfigTest::Passed => TestVerdict::Reload,
        ConfigTest::Failed { stderr } => {
            let mut m = if rename { lit("Nginx config test failed after rename: ") } else { lit("Nginx config test failed: ") };
            append(&mut m, &lit(stderr.as_str()));
            TestVerdict::RollBack { status: 400, message: string_of(&m) }
        },
        ConfigTest::NotRun { error } => {
            let mut m = lit("Failed to test config: ");
            append(&mut m, &lit(error.as_str()));
            TestVerdict::RollBack { status: 500, message: string_of(&m) }
        },
    }
}

/// What a change answers once nginx was asked to reload: `done` on success,
/// 500 with the reload's error otherwise (the change stays, it is valid).
pub fn after_reload(reload: &Result<(), String>, done: String) -> (r: Result<String, (u16, String)>)
    ensures
        match reload {
            Ok(()) => r == Ok::<String, (u16, String)>(done),
            Err(e) => r matches Err((s, m)) && s == 500 && m@ == "Config valid but reload failed: "@ + e@,
        },
{
    match reload {
        Ok(()) => Ok(done),
        Err(e) => {
            let mut m = lit("Config valid but reload failed: ");
            append(&mut m, &lit(e.as_str()));
            Err((500, string_of(&m)))
        },
    }
}

/// What creating a site answers once nginx reloaded.
pub fn site_ready_message(domain: &str) -> (r: String)
    ensures r@ == "Site "@ + domain@ + " configured and nginx reloaded"@,
{
    wrap("Site ", &lit(domain), " configured and nginx reloaded")
}

/// What a rename answers once nginx reloaded.
pub fn rename_done_message(old_domain: &str, new_domain: &str) -> (r: String)
    ensures r@ == "Domain renamed from "@ + old_domain@ + " to "@ + new_domain@,
{
    let mut m = lit("Domain renamed from ");
    append(&mut m, &lit(old_domain));
    append(&mut m, &lit(" to "));
    append(&mut m, &lit(new_domain));
    string_of(&m)
}

} // verus!
