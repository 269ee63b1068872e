//! The decisions of the service installers: which PHP to install and with
//! which packages, what removing it runs, what UFW reports, the distro's
//! PHP read from `apt-cache`, the Cloudflare tunnel's token and unit, and
//! the WAF's nginx clean-up.
use vstd::prelude::*;
use crate::php::{package, package_v};
use crate::server_utils::{capped_len_v, utf8_len};
use crate::text::{
    append, chars_of, contains, ends_with_v, find_from_v, is_digit, join, join_v, lemma_find_from, lines, lines_v,
    slice, starts_with_v, str_views, string_of, trim, trim_v, views,
};

verus! {

fn text(s: &str) -> (r: String)
    ensures r@ == s@,
{
    string_of(&chars_of(s))
}

// ── PHP ─────────────────────────────────────────────────────────────────

/// The version to install: the newest module stream where the distro has
/// any, else the version the distro's archive offers, else 8.3.
pub open spec fn php_version_choice(streams: Seq<Seq<char>>, detected: Option<Seq<char>>) -> Seq<char> {
    if streams.len() == 0 {
        match detected {
            Some(d) => d,
            None => "8.3"@,
        }
    } else {
        streams[0]
    }
}

pub fn php_install_version(streams: &Vec<String>, detected: Option<String>) -> (r: String)
    ensures
        r@ == php_version_choice(str_views(streams@), match detected { Some(d) => Some(d@), None => None }),
{
    if streams.len() == 0 {
        match detected {
            Some(d) => d,
            None => text("8.3"),
        }
    } else {
        text(streams[0].as_str())
    }
}

pub open spec fn core_suffixes() -> Seq<Seq<char>> {
    seq!["fpm"@, "cli"@]
}

/// The extensions installed beside the core, where the box has them.
pub open spec fn extension_suffixes() -> Seq<Seq<char>> {
    seq![
        "mysql"@, "pgsql"@, "sqlite3"@, "curl"@, "gd"@, "mbstring"@,
        "xml"@, "zip"@, "bcmath"@, "intl"@, "readline"@, "opcache"@,
    ]
}

pub open spec fn php_packages(version: Seq<char>, suffixes: Seq<Seq<char>>) -> Seq<Seq<char>> {
    Seq::new(suffixes.len(), |i: int| package(version, suffixes[i]))
}

fn push_package(out: &mut Vec<String>, version: &str, suffix: &str)
    ensures str_views(final(out)@) == str_views(old(out)@).push(package(version@, suffix@)),
{
    let ghost before = out@;
    let p = package_v(version, suffix);
    out.push(p);
    assert(str_views(out@) =~= str_views(before).push(p@));
}

/// The packages that must install for PHP to count as installed.
pub fn php_core_packages(version: &str) -> (r: Vec<String>)
    ensures str_views(r@) == php_packages(version@, core_suffixes()),
{
    let mut r: Vec<String> = Vec::new();
    push_package(&mut r, version, "fpm");
    push_package(&mut r, version, "cli");
    assert(str_views(r@) =~= php_packages(version@, core_suffixes()));
    r
}

/// The extension packages offered to the package manager afterwards.
pub fn php_extension_packages(version: &str) -> (r: Vec<String>)
    ensures str_views(r@) == php_packages(version@, extension_suffixes()),
{
    let mut r: Vec<String> = Vec::new();
    push_package(&mut r, version, "mysql");
    push_package(&mut r, version, "pgsql");
    push_package(&mut r, version, "sqlite3");
    push_package(&mut r, version, "curl");
    push_package(&mut r, version, "gd");
    push_package(&mut r, version, "mbstring");
    push_package(&mut r, version, "xml");
    push_package(&mut r, version, "zip");
    push_package(&mut r, version, "bcmath");
    push_package(&mut r, version, "intl");
    push_package(&mut r, version, "readline");
    push_package(&mut r, version, "opcache");
    assert(str_views(r@) =~= php_packages(version@, extension_suffixes()));
    r
}

/// The FPM package of a version, whose unit the service manager runs.
pub fn php_fpm_package(version: &str) -> (r: String)
    ensures r@ == package(version@, "fpm"@),
{
    package_v(version, "fpm")
}

/// The shell command that removes PHP: every `php-*` package on the RPM
/// family, whose packages are unversioned; the version's packages and
/// what they pulled in on apt.
pub fn php_removal_command(rpm: bool, version: &str) -> (r: String)
    ensures
        r@ == (if rpm {
            "dnf remove -y 'php-*'"@
        } else {
            "DEBIAN_FRONTEND=noninteractive apt-get purge -y php"@ + version@ + "-* && apt-get autoremove -y"@
        }),
{
    if rpm {
        text("dnf remove -y 'php-*'")
    } else {
        let mut v = chars_of("DEBIAN_FRONTEND=noninteractive apt-get purge -y php");
        append(&mut v, &chars_of(version));
        append(&mut v, &chars_of("-* && apt-get autoremove -y"));
        string_of(&v)
    }
}

// ── the distro's PHP ────────────────────────────────────────────────────

/// A version as `apt-cache` spells it: digits and dots, at least one.
pub open spec fn version_like(v: Seq<char>) -> bool {
    v.len() > 0 && forall|k: int| 0 <= k < v.len() ==> is_digit(#[trigger] v[k]) || v[k] == '.'
}

/// The version a `Depends: php{v}-fpm` line names, if it is one.
pub open spec fn depends_version(line: Seq<char>) -> Option<Seq<char>> {
    let t = trim(line);
    let p = "Depends: php"@;
    let s = "-fpm"@;
    if p.is_prefix_of(t) && t.len() >= p.len() + s.len() && s.is_suffix_of(t.skip(p.len() as int)) {
        let v = t.subrange(p.len() as int, t.len() - s.len());
        if version_like(v) { Some(v) } else { None }
    } else {
        None
    }
}

/// The first version such a line names.
pub open spec fn first_depends_version(ls: Seq<Seq<char>>) -> Option<Seq<char>>
    decreases ls.len(),
{
    if ls.len() == 0 {
        None
    } else {
        match depends_version(ls[0]) {
            Some(v) => Some(v),
            None => first_depends_version(ls.skip(1)),
        }
    }
}

fn version_like_v(v: &Vec<char>) -> (r: bool)
    ensures r == version_like(v@),
{
    if v.len() == 0 {
        return false;
    }
    let mut k: usize = 0;
    while k < v.len()
        invariant
            k <= v.len(),
            forall|m: int| 0 <= m < k ==> is_digit(#[trigger] v@[m]) || v@[m] == '.',
        decreases v.len() - k,
    {
        if !(crate::text::digit(v[k]) || v[k] == '.') {
            return false;
        }
        k += 1;
    }
    true
}

fn depends_version_v(line: &Vec<char>) -> (r: Option<Vec<char>>)
    ensures
        match depends_version(line@) {
            Some(v) => r matches Some(x) && x@ == v,
            None => r is None,
        },
{
    let t = trim_v(line);
    proof {
        reveal_strlit("Depends: php");
        reveal_strlit("-fpm");
    }
    let p = chars_of("Depends: php");
    let s = chars_of("-fpm");
    if !starts_with_v(&t, &p) || t.len() < p.len() + s.len() {
        return None;
    }
    let tail = slice(&t, p.len(), t.len());
    assert(tail@ =~= t@.skip(p@.len() as int));
    if !ends_with_v(&tail, &s) {
        return None;
    }
    let v = slice(&t, p.len(), t.len() - s.len());
    if version_like_v(&v) { Some(v) } else { None }
}

/// The PHP version the distro's `php-fpm` depends on, read from
/// `apt-cache depends php-fpm`.
pub fn apt_default_php(out: &str) -> (r: Option<String>)
    ensures
        match first_depends_version(lines(out@)) {
            Some(v) => r matches Some(x) && x@ == v,
            None => r is None,
        },
{
    let ls = lines_v(&chars_of(out));
    let mut i: usize = 0;
    assert(lines(out@).skip(0) =~= lines(out@));
    while i < ls.len()
        invariant
            i <= ls.len(),
            views(ls@) == lines(out@),
            first_depends_version(lines(out@)) == first_depends_version(lines(out@).skip(i as int)),
        decreases ls.len() - i,
    {
        let ghost rest = lines(out@).skip(i as int);
        assert(rest[0] == ls@[i as int]@);
        assert(rest.skip(1) =~= lines(out@).skip(i + 1));
        match depends_version_v(&ls[i]) {
            Some(v) => {
                return Some(string_of(&v));
            },
            None => {},
        }
        i += 1;
    }
    assert(lines(out@).skip(i as int) =~= Seq::<Seq<char>>::empty());
    None
}

// ── UFW ─────────────────────────────────────────────────────────────────

/// What installing UFW reports, given the ports it could not open.
pub fn ufw_install_message(failed: &Vec<String>) -> (r: String)
    ensures
        r@ == (if failed@.len() == 0 {
            "UFW installed — SSH, HTTP, HTTPS, SMTP, IMAPS ports opened"@
        } else {
            "UFW installed, but these ports could not be opened: "@ + join(str_views(failed@), ", "@)
        }),
{
    if failed.len() == 0 {
        return text("UFW installed — SSH, HTTP, HTTPS, SMTP, IMAPS ports opened");
    }
    let mut parts: Vec<Vec<char>> = Vec::new();
    let mut i: usize = 0;
    while i < failed.len()
        invariant
            i <= failed.len(),
            views(parts@) == str_views(failed@).take(i as int),
        decreases failed.len() - i,
    {
        let ghost before = parts@;
        let c = chars_of(failed[i].as_str());
        parts.push(c);
        assert(views(parts@) =~= views(before).push(c@));
        assert(str_views(failed@).take(i + 1) =~= str_views(failed@).take(i as int).push(failed@[i as int]@));
        i += 1;
    }
    assert(str_views(failed@).take(failed.len() as int) =~= str_views(failed@));
    let mut m = chars_of("UFW installed, but these ports could not be opened: ");
    append(&mut m, &join_v(&parts, &chars_of(", ")));
    string_of(&m)
}

// ── the Cloudflare tunnel ───────────────────────────────────────────────

pub open spec fn token_char(c: char) -> bool {
    ('a' <= c && c <= 'z') || ('A' <= c && c <= 'Z') || ('0' <= c && c <= '9')
        || c == '-' || c == '_' || c == '.' || c == '='
}

/// Why a tunnel token is refused: missing, or not 50 to 4096 bytes of
/// letters, digits and `-_.=`.
pub open spec fn token_refusal(t: Seq<char>) -> Option<Seq<char>> {
    if t.len() == 0 {
        Some("Missing tunnel token"@)
    } else if utf8_len(t) < 50 || utf8_len(t) > 4096 || exists|k: int| 0 <= k < t.len() && !token_char(#[trigger] t[k]) {
        Some("Invalid tunnel token format"@)
    } else {
        None
    }
}

proof fn lemma_ascii_len(t: Seq<char>)
    requires forall|k: int| 0 <= k < t.len() ==> token_char(#[trigger] t[k]),
    ensures utf8_len(t) == t.len(),
    decreases t.len(),
{
    if t.len() > 0 {
        assert forall|k: int| 0 <= k < t.skip(1).len() implies token_char(#[trigger] t.skip(1)[k]) by {
            assert(t.skip(1)[k] == t[k + 1]);
        }
        lemma_ascii_len(t.skip(1));
        assert(token_char(t[0]));
    }
}

/// Checks the token a tunnel is configured with.
pub fn check_tunnel_token(token: &str) -> (r: Result<(), String>)
    ensures
        match token_refusal(token@) {
            Some(m) => r matches Err(e) && e@ == m,
            None => r is Ok,
        },
{
    let t = chars_of(token);
    if t.len() == 0 {
        return Err(text("Missing tunnel token"));
    }
    let mut k: usize = 0;
    while k < t.len()
        invariant
            k <= t.len(),
            t@ == token@,
            t@.len() > 0,
            forall|m: int| 0 <= m < k ==> token_char(#[trigger] t@[m]),
        decreases t.len() - k,
    {
        let c = t[k];
        if !(('a' <= c && c <= 'z') || ('A' <= c && c <= 'Z') || ('0' <= c && c <= '9')
            || c == '-' || c == '_' || c == '.' || c == '=') {
            assert(!token_char(t@[k as int]));
            return Err(text("Invalid tunnel token format"));
        }
        k += 1;
    }
    proof { lemma_ascii_len(t@); }
    if t.len() < 50 || t.len() > 4096 {
        return Err(text("Invalid tunnel token format"));
    }
    Ok(())
}

/// The root-only environment file the tunnel reads its token from.
pub fn tunnel_token_env(token: &str) -> (r: String)
    ensures r@ == "TUNNEL_TOKEN="@ + token@ + "\n"@,
{
    let mut v = chars_of("TUNNEL_TOKEN=");
    append(&mut v, &chars_of(token));
    append(&mut v, &chars_of("\n"));
    string_of(&v)
}

pub open spec fn tunnel_unit(env_path: Seq<char>) -> Seq<char> {
    "[Unit]\nDescription=Cloudflare Tunnel\nAfter=network-online.target\nWants=network-online.target\n\n[Service]\nType=simple\nEnvironmentFile="@
        + env_path
        + "\nExecStart=/usr/bin/cloudflared tunnel run\nRestart=on-failure\nRestartSec=5\nLimitNOFILE=65536\n\n[Install]\nWantedBy=multi-user.target\n"@
}

/// The tunnel's systemd unit: the token comes from the environment file,
/// never from the command line.
pub fn tunnel_unit_text(env_path: &str) -> (r: String)
    ensures r@ == tunnel_unit(env_path@),
{
    let mut v = chars_of("[Unit]\nDescription=Cloudflare Tunnel\nAfter=network-online.target\nWants=network-online.target\n\n[Service]\nType=simple\nEnvironmentFile=");
    append(&mut v, &chars_of(env_path));
    append(&mut v, &chars_of("\nExecStart=/usr/bin/cloudflared tunnel run\nRestart=on-failure\nRestartSec=5\nLimitNOFILE=65536\n\n[Install]\nWantedBy=multi-user.target\n"));
    string_of(&v)
}

// ── the WAF ─────────────────────────────────────────────────────────────

/// The lines that do not mention ModSecurity, of the first `n`.
pub open spec fn unmentioned(ls: Seq<Seq<char>>, n: nat) -> Seq<Seq<char>>
    decreases n,
{
    if n == 0 || n > ls.len() {
        Seq::empty()
    } else {
        let p = unmentioned(ls, (n - 1) as nat);
        if contains(ls[n - 1], "modsecurity"@) { p } else { p.push(ls[n - 1]) }
    }
}

/// A site config without its WAF lines, when it has any: every line that
/// mentions `modsecurity` is dropped and the rest joined by newlines.
pub open spec fn without_waf(content: Seq<char>) -> Option<Seq<char>> {
    if contains(content, "modsecurity"@) {
        Some(join(unmentioned(lines(content), lines(content).len()), "\n"@))
    } else {
        None
    }
}

fn mentions(s: &Vec<char>) -> (r: bool)
    ensures r == contains(s@, "modsecurity"@),
{
    proof { lemma_find_from(s@, "modsecurity"@, 0); }
    find_from_v(s, &chars_of("modsecurity"), 0).is_some()
}

/// The site config to write back when the WAF is removed, or `None` when
/// the config has nothing of it.
pub fn config_without_waf(content: &str) -> (r: Option<String>)
    ensures
        match without_waf(content@) {
            Some(c) => r matches Some(x) && x@ == c,
            None => r is None,
        },
{
    let c = chars_of(content);
    if !mentions(&c) {
        return None;
    }
    let ls = lines_v(&c);
    let mut kept: Vec<Vec<char>> = Vec::new();
    let mut i: usize = 0;
    while i < ls.len()
        invariant
            i <= ls.len(),
            views(ls@) == lines(content@),
            views(kept@) == unmentioned(lines(content@), i as nat),
        decreases ls.len() - i,
    {
        if !mentions(&ls[i]) {
            let ghost before = kept@;
            let l = slice(&ls[i], 0, ls[i].len());
            assert(l@ =~= ls@[i as int]@);
            kept.push(l);
            assert(views(kept@) =~= views(before).push(l@));
        }
        i += 1;
    }
    Some(string_of(&join_v(&kept, &chars_of("\n"))))
}

proof fn lemma_unmentioned_clean(ls: Seq<Seq<char>>, n: nat)
    ensures forall|k: int| 0 <= k < unmentioned(ls, n).len() ==> !contains(#[trigger] unmentioned(ls, n)[k], "modsecurity"@),
    decreases n,
{
    if n > 0 && n <= ls.len() {
        lemma_unmentioned_clean(ls, (n - 1) as nat);
        let p = unmentioned(ls, (n - 1) as nat);
        assert forall|k: int| 0 <= k < unmentioned(ls, n).len() implies !contains(#[trigger] unmentioned(ls, n)[k], "modsecurity"@) by {
            if k < p.len() {
                assert(unmentioned(ls, n)[k] == p[k]);
            }
        }
    }
}

/// Removing the WAF leaves no line of a site config that mentions it.
pub proof fn law_waf_lines_all_dropped(content: Seq<char>)
    ensures
        without_waf(content) matches Some(c) ==> {
            let kept = unmentioned(lines(content), lines(content).len());
            &&& c == join(kept, "\n"@)
            &&& forall|k: int| 0 <= k < kept.len() ==> !contains(#[trigger] kept[k], "modsecurity"@)
        },
{
    lemma_unmentioned_clean(lines(content), lines(content).len());
}

/// Where the WAF's `unicode.mapping` comes from.
#[derive(Debug, Clone, Copy, PartialEq, Eq, Structural)]
pub enum MappingSource {
    /// The copy already in place is real (over 1 KiB) and stays.
    KeepSystem,
    /// The first distro copy that is real, by its place in the candidates.
    Distro(usize),
    /// The copy the agent carries.
    Embedded,
}

/// A file is a real mapping when it holds more than 1 KiB; an empty or cut
/// one looks installed and breaks `nginx -t`.
pub open spec fn real_mapping(len: Option<u64>) -> bool {
    len matches Some(n) && n > 1024
}

pub open spec fn first_real(lens: Seq<Option<u64>>) -> Option<int>
    decreases lens.len(),
{
    if lens.len() == 0 {
        None
    } else if real_mapping(lens.last()) && first_real(lens.drop_last()) is None {
        Some(lens.len() - 1)
    } else {
        first_real(lens.drop_last())
    }
}

/// The system copy when it is real, else the first real distro copy (the
/// sizes of the candidates, in order, `None` where unreadable), else the
/// embedded one.
pub fn mapping_source(system_len: Option<u64>, candidate_lens: &Vec<Option<u64>>) -> (r: MappingSource)
    ensures
        real_mapping(system_len) ==> r == MappingSource::KeepSystem,
        !real_mapping(system_len) ==> match first_real(candidate_lens@) {
            Some(k) => r == MappingSource::Distro(k as usize),
            None => r == MappingSource::Embedded,
        },
{
    if let Some(n) = system_len {
        if n > 1024 {
            return MappingSource::KeepSystem;
        }
    }
    let mut i: usize = 0;
    while i < candidate_lens.len()
        invariant
            i <= candidate_lens.len(),
            !real_mapping(system_len),
            first_real(candidate_lens@.take(i as int)) is None,
        decreases candidate_lens.len() - i,
    {
        assert(candidate_lens@.take(i + 1).drop_last() =~= candidate_lens@.take(i as int));
        if let Some(n) = candidate_lens[i] {
            if n > 1024 {
                proof { lemma_first_real_prefix(candidate_lens@, i + 1, i as int); }
                return MappingSource::Distro(i);
            }
        }
        i += 1;
    }
    assert(candidate_lens@.take(candidate_lens.len() as int) =~= candidate_lens@);
    MappingSource::Embedded
}

/// Once some prefix holds a real copy, the longer list finds the same one.
proof fn lemma_first_real_prefix(lens: Seq<Option<u64>>, n: int, k: int)
    requires
        0 <= k < n <= lens.len(),
        first_real(lens.take(n)) == Some(k),
    ensures
        first_real(lens) == Some(k),
    decreases lens.len() - n,
{
    if n < lens.len() {
        let t = lens.take(n + 1);
        assert(t.drop_last() =~= lens.take(n));
        assert(first_real(t) == first_real(t.drop_last()));
        lemma_first_real_prefix(lens, n + 1, k);
    } else {
        assert(lens.take(n) =~= lens);
    }
}

/// Why the installed mapping cannot be trusted: unreadable, or without the
/// code page 20127 that `modsecurity.conf` names.
pub fn mapping_refusal(read: Result<&str, &str>) -> (r: Option<String>)
    ensures
        match read {
            Ok(c) => if contains(c@, "20127"@) {
                r is None
            } else {
                r matches Some(m) && m@ == "unicode.mapping is present but does not define code page 20127, which modsecurity.conf requires — the WAF would fail nginx -t the first time a site enabled it"@
            },
            Err(e) => r matches Some(m) && m@ == "unicode.mapping unreadable after install: "@ + e@,
        },
{
    match read {
        Ok(c) => {
            proof { lemma_find_from(c@, "20127"@, 0); }
            if find_from_v(&chars_of(c), &chars_of("20127"), 0).is_some() {
                None
            } else {
                Some(text("unicode.mapping is present but does not define code page 20127, which modsecurity.conf requires — the WAF would fail nginx -t the first time a site enabled it"))
            }
        },
        Err(e) => {
            let mut v = chars_of("unicode.mapping unreadable after install: ");
            append(&mut v, &chars_of(e));
            Some(string_of(&v))
        },
    }
}

// ── certbot ─────────────────────────────────────────────────────────────

/// Where an installation of certbot stands.
#[derive(Debug, Clone, Copy, PartialEq, Eq, Structural)]
pub enum CertbotStage {
    Start,
    Packages,
    PackageTimer,
    Purge,
    Snap,
    SnapPlugin,
    SnapTimer,
    Pip,
    PipTimer,
    Done,
}

/// How an installation of certbot ended.
#[derive(Debug, Clone, Copy, PartialEq, Eq, Structural)]
pub enum CertbotReply {
    /// The distro's packages (EPEL) with the nginx plugin.
    Packaged,
    /// The snap, with the nginx plugin.
    Snap,
    /// A virtualenv from PyPI.
    Pip,
    /// The distro's packages would not install.
    PackagesFailed,
    /// Neither the snap nor pip worked.
    AllFailed,
}

/// What the installer does next.
#[derive(Debug, Clone, Copy, PartialEq, Eq, Structural)]
pub enum CertbotAction {
    /// `certbot` and `python3-certbot-nginx` from the package manager.
    InstallPackages,
    /// `certbot-renew.timer`, shipped with the packages.
    EnablePackageTimer,
    /// Stop the apt certbot's timer and purge it, so the snap does not clash.
    PurgeAptCertbot,
    /// `snap install --classic certbot` and its link into `/usr/bin`.
    InstallSnap,
    /// The snap's nginx plugin; its failure changes nothing.
    InstallSnapPlugin,
    /// `snap.certbot.renew.timer`.
    EnableSnapTimer,
    /// A virtualenv under `/opt/certbot` with certbot and its nginx plugin.
    InstallWithPip,
    /// The renewal timer and service units for the pip install.
    WritePipTimer,
    Reply(CertbotReply),
}

/// What the installer is told: how it began, or whether a step worked.
#[derive(Debug, Clone, Copy, PartialEq, Eq, Structural)]
pub enum CertbotEvent {
    Begin { rpm: bool },
    Ran { ok: bool },
}

/// The ladder: on the RPM family the packages; elsewhere the snap after
/// purging the apt certbot, then pip when the snap fails. An event that
/// does not fit the stage is ignored.
pub open spec fn certbot_next(st: CertbotStage, e: CertbotEvent) -> Option<(CertbotStage, CertbotAction)> {
    match (st, e) {
        (CertbotStage::Start, CertbotEvent::Begin { rpm }) => if rpm {
            Some((CertbotStage::Packages, CertbotAction::InstallPackages))
        } else {
            Some((CertbotStage::Purge, CertbotAction::PurgeAptCertbot))
        },
        (CertbotStage::Packages, CertbotEvent::Ran { ok }) => if ok {
            Some((CertbotStage::PackageTimer, CertbotAction::EnablePackageTimer))
        } else {
            Some((CertbotStage::Done, CertbotAction::Reply(CertbotReply::PackagesFailed)))
        },
        (CertbotStage::PackageTimer, CertbotEvent::Ran { .. }) =>
            Some((CertbotStage::Done, CertbotAction::Reply(CertbotReply::Packaged))),
        (CertbotStage::Purge, CertbotEvent::Ran { .. }) =>
            Some((CertbotStage::Snap, CertbotAction::InstallSnap)),
        (CertbotStage::Snap, CertbotEvent::Ran { ok }) => if ok {
            Some((CertbotStage::SnapPlugin, CertbotAction::InstallSnapPlugin))
        } else {
            Some((CertbotStage::Pip, CertbotAction::InstallWithPip))
        },
        (CertbotStage::SnapPlugin, CertbotEvent::Ran { .. }) =>
            Some((CertbotStage::SnapTimer, CertbotAction::EnableSnapTimer)),
        (CertbotStage::SnapTimer, CertbotEvent::Ran { .. }) =>
            Some((CertbotStage::Done, CertbotAction::Reply(CertbotReply::Snap))),
        (CertbotStage::Pip, CertbotEvent::Ran { ok }) => if ok {
            Some((CertbotStage::PipTimer, CertbotAction::WritePipTimer))
        } else {
            Some((CertbotStage::Done, CertbotAction::Reply(CertbotReply::AllFailed)))
        },
        (CertbotStage::PipTimer, CertbotEvent::Ran { .. }) =>
            Some((CertbotStage::Done, CertbotAction::Reply(CertbotReply::Pip))),
        _ => None,
    }
}

/// An installation of certbot in progress.
pub struct CertbotInstall {
    pub stage: CertbotStage,
}

impl CertbotInstall {
    pub fn new() -> (r: CertbotInstall)
        ensures r.stage == CertbotStage::Start,
    {
        CertbotInstall { stage: CertbotStage::Start }
    }

    /// Takes in an event and says what to do next; `None` leaves the stage
    /// as it was.
    pub fn step(&mut self, e: CertbotEvent) -> (r: Option<CertbotAction>)
        ensures
            match certbot_next(old(self).stage, e) {
                Some((s, a)) => final(self).stage == s && r == Some(a),
                None => final(self).stage == old(self).stage && r is None,
            },
    {
        let next = match (self.stage, e) {
            (CertbotStage::Start, CertbotEvent::Begin { rpm }) => if rpm {
                Some((CertbotStage::Packages, CertbotAction::InstallPackages))
            } else {
                Some((CertbotStage::Purge, CertbotAction::PurgeAptCertbot))
            },
            (CertbotStage::Packages, CertbotEvent::Ran { ok }) => if ok {
                Some((CertbotStage::PackageTimer, CertbotAction::EnablePackageTimer))
            } else {
                Some((CertbotStage::Done, CertbotAction::Reply(CertbotReply::PackagesFailed)))
            },
            (CertbotStage::PackageTimer, CertbotEvent::Ran { .. }) =>
                Some((CertbotStage::Done, CertbotAction::Reply(CertbotReply::Packaged))),
            (CertbotStage::Purge, CertbotEvent::Ran { .. }) =>
                Some((CertbotStage::Snap, CertbotAction::InstallSnap)),
            (CertbotStage::Snap, CertbotEvent::Ran { ok }) => if ok {
                Some((CertbotStage::SnapPlugin, CertbotAction::InstallSnapPlugin))
            } else {
                Some((CertbotStage::Pip, CertbotAction::InstallWithPip))
            },
            (CertbotStage::SnapPlugin, CertbotEvent::Ran { .. }) =>
                Some((CertbotStage::SnapTimer, CertbotAction::EnableSnapTimer)),
            (CertbotStage::SnapTimer, CertbotEvent::Ran { .. }) =>
                Some((CertbotStage::Done, CertbotAction::Reply(CertbotReply::Snap))),
            (CertbotStage::Pip, CertbotEvent::Ran { ok }) => if ok {
                Some((CertbotStage::PipTimer, CertbotAction::WritePipTimer))
            } else {
                Some((CertbotStage::Done, CertbotAction::Reply(CertbotReply::AllFailed)))
            },
            (CertbotStage::PipTimer, CertbotEvent::Ran { .. }) =>
                Some((CertbotStage::Done, CertbotAction::Reply(CertbotReply::Pip))),
            _ => None,
        };
        match next {
            Some((s, a)) => {
                self.stage = s;
                Some(a)
            },
            None => None,
        }
    }
}

/// What the route answers for each ending; `detail` is the package
/// manager's complaint when the packages would not install.
pub open spec fn certbot_answer(reply: CertbotReply, detail: Seq<char>) -> Result<Seq<char>, Seq<char>> {
    match reply {
        CertbotReply::Packaged => Ok("Certbot installed with the nginx plugin and automatic renewal"@),
        CertbotReply::Snap => Ok("Certbot 4.x installed via snap with nginx plugin and auto-renewal (ARI-ready for 45-day certs)"@),
        CertbotReply::Pip => Ok("Certbot installed via pip with nginx plugin and auto-renewal timer"@),
        CertbotReply::PackagesFailed => Err("Certbot install failed: "@ + detail),
        CertbotReply::AllFailed => Err("Certbot install failed: both snap and pip methods failed"@),
    }
}

pub fn certbot_reply(reply: CertbotReply, detail: &str) -> (r: Result<String, String>)
    ensures
        match certbot_answer(reply, detail@) {
            Ok(m) => r matches Ok(x) && x@ == m,
            Err(m) => r matches Err(x) && x@ == m,
        },
{
    match reply {
        CertbotReply::Packaged => Ok(text("Certbot installed with the nginx plugin and automatic renewal")),
        CertbotReply::Snap => Ok(text("Certbot 4.x installed via snap with nginx plugin and auto-renewal (ARI-ready for 45-day certs)")),
        CertbotReply::Pip => Ok(text("Certbot installed via pip with nginx plugin and auto-renewal timer")),
        CertbotReply::PackagesFailed => {
            let mut v = chars_of("Certbot install failed: ");
            append(&mut v, &chars_of(detail));
            Err(string_of(&v))
        },
        CertbotReply::AllFailed => Err(text("Certbot install failed: both snap and pip methods failed")),
    }
}

/// pip is only tried when the snap failed.
pub proof fn law_pip_only_after_snap_failed(st: CertbotStage, e: CertbotEvent)
    ensures
        certbot_next(st, e) matches Some((_, a)) && a == CertbotAction::InstallWithPip
            ==> st == CertbotStage::Snap && e == (CertbotEvent::Ran { ok: false }),
{
}

/// The snap is only tried after the apt certbot was purged.
pub proof fn law_snap_after_purge(st: CertbotStage, e: CertbotEvent)
    ensures
        certbot_next(st, e) matches Some((_, a)) && a == CertbotAction::InstallSnap ==> st == CertbotStage::Purge,
{
}

/// On the RPM family nothing of the snap or pip ladder runs: once the
/// packages are asked for, the only steps left are the packages' timer and
/// the reply.
pub proof fn law_rpm_stays_with_packages(st: CertbotStage, e: CertbotEvent)
    requires
        st == CertbotStage::Packages || st == CertbotStage::PackageTimer,
    ensures
        certbot_next(st, e) matches Some((s, a)) ==> {
            &&& (s == CertbotStage::PackageTimer || s == CertbotStage::Done)
            &&& (a == CertbotAction::EnablePackageTimer || a is Reply)
        },
{
}

} // verus!
