//! PHP versions: which may be installed, how an install proceeds on either
//! package family, and what the extension listings hold.
use vstd::prelude::*;
use crate::apps::{lowercase, to_lowercase};
use crate::order::{ascending, sorted_unique};
use crate::text::{
    append, chars_of, eq_v, is_alnum, join, join_v, lines, lines_v, split_on, split_v, starts_with_v, str_views,
    string_of, trim, trim_char, trim_char_v, trim_v, views, ws_tokens, ws_tokens_v, alnum, lemma_split_on_len,
    lemma_views_push, slice,
};

verus! {

// ── versions ────────────────────────────────────────────────────────────

/// The PHP versions the panel offers.
pub open spec fn version_allowed(v: Seq<char>) -> bool {
    v == "8.1"@ || v == "8.2"@ || v == "8.3"@ || v == "8.4"@ || v == "8.5"@
}

pub fn is_allowed_version(v: &str) -> (r: bool)
    ensures r == version_allowed(v@),
{
    let x = chars_of(v);
    eq_v(&x, &chars_of("8.1")) || eq_v(&x, &chars_of("8.2")) || eq_v(&x, &chars_of("8.3"))
        || eq_v(&x, &chars_of("8.4")) || eq_v(&x, &chars_of("8.5"))
}

pub open spec fn invalid_version() -> Seq<char> {
    "Invalid version. Allowed: 8.1, 8.2, 8.3, 8.4, 8.5"@
}

pub open spec fn invalid_php_version() -> Seq<char> {
    "Invalid PHP version. Allowed: 8.1, 8.2, 8.3, 8.4, 8.5"@
}

/// The version an install or uninstall request names, trimmed, or the
/// sentence it is refused with.
pub fn check_version(version: &str) -> (r: Result<String, String>)
    ensures
        version_allowed(trim(version@)) ==> (r matches Ok(t) && t@ == trim(version@)),
        !version_allowed(trim(version@)) ==> (r matches Err(m) && m@ == invalid_version()),
{
    let t = string_of(&trim_v(&chars_of(version)));
    if is_allowed_version(t.as_str()) {
        Ok(t)
    } else {
        Err(string_of(&chars_of("Invalid version. Allowed: 8.1, 8.2, 8.3, 8.4, 8.5")))
    }
}

/// The PHP-FPM unit name on the Debian family, and the socket it opens.
pub open spec fn default_socket(v: Seq<char>) -> Seq<char> {
    "/run/php/php"@ + v + "-fpm.sock"@
}

/// One row of the version listing.
pub struct PhpVersionRow {
    pub version: String,
    pub installed: bool,
    pub fpm_running: bool,
    pub socket: String,
}

/// A version's row: running when installed and either the unit is active or
/// a real socket was found; the socket shown is the real one, else the
/// Debian-shaped default.
pub fn version_row(version: &str, installed: bool, unit_active: bool, real_socket: Option<String>) -> (r: PhpVersionRow)
    ensures
        r.version@ == version@,
        r.installed == installed,
        r.fpm_running == (installed && (unit_active || real_socket is Some)),
        r.socket@ == (match real_socket { Some(s) => s@, None => default_socket(version@) }),
{
    let running = installed && (unit_active || real_socket.is_some());
    let socket = match real_socket {
        Some(s) => s,
        None => {
            let mut v = chars_of("/run/php/php");
            append(&mut v, &chars_of(version));
            append(&mut v, &chars_of("-fpm.sock"));
            string_of(&v)
        },
    };
    PhpVersionRow { version: string_of(&chars_of(version)), installed, fpm_running: running, socket }
}

// ── package names ───────────────────────────────────────────────────────

/// The extensions installed with each version, where a candidate exists.
pub open spec fn common_extensions() -> Seq<Seq<char>> {
    seq![
        "mysql"@, "pgsql"@, "sqlite3"@, "curl"@, "gd"@, "mbstring"@, "xml"@, "zip"@, "bcmath"@, "intl"@,
        "readline"@, "opcache"@, "redis"@, "imagick"@,
    ]
}

fn common_extensions_v() -> (r: Vec<&'static str>)
    ensures r@.len() == 14, forall|i: int| 0 <= i < 14 ==> #[trigger] r@[i]@ == common_extensions()[i],
{
    let r = vec![
        "mysql", "pgsql", "sqlite3", "curl", "gd", "mbstring", "xml", "zip", "bcmath", "intl", "readline",
        "opcache", "redis", "imagick",
    ];
    r
}

pub open spec fn package(v: Seq<char>, part: Seq<char>) -> Seq<char> {
    "php"@ + v + "-"@ + part
}

pub(crate) fn package_v(v: &str, part: &str) -> (r: String)
    ensures r@ == package(v@, part@),
{
    let mut s = chars_of("php");
    append(&mut s, &chars_of(v));
    append(&mut s, &chars_of("-"));
    append(&mut s, &chars_of(part));
    string_of(&s)
}

/// The core packages of a version on the RPM family's module stream.
pub open spec fn core_packages(v: Seq<char>) -> Seq<Seq<char>> {
    seq![package(v, "fpm"@), package(v, "cli"@)]
}

/// The extension packages offered with a version.
pub open spec fn extension_packages(v: Seq<char>) -> Seq<Seq<char>> {
    Seq::new(14, |i: int| package(v, common_extensions()[i]))
}

fn core_packages_v(v: &str) -> (r: Vec<String>)
    ensures str_views(r@) == core_packages(v@),
{
    let r = vec![package_v(v, "fpm"), package_v(v, "cli")];
    assert(str_views(r@) =~= core_packages(v@));
    r
}

fn extension_packages_v(v: &str) -> (r: Vec<String>)
    ensures str_views(r@) == extension_packages(v@),
{
    let exts = common_extensions_v();
    let mut r: Vec<String> = Vec::new();
    let mut i: usize = 0;
    while i < exts.len()
        invariant
            i <= exts.len() == 14,
            forall|k: int| 0 <= k < 14 ==> #[trigger] exts@[k]@ == common_extensions()[k],
            str_views(r@) == Seq::new(i as nat, |k: int| package(v@, common_extensions()[k])),
        decreases exts.len() - i,
    {
        let p = package_v(v, exts[i]);
        assert(p@ == package(v@, common_extensions()[i as int]));
        let ghost before = r@;
        r.push(p);
        assert(str_views(r@) =~= str_views(before).push(p@));
        assert(str_views(r@) =~= Seq::new((i + 1) as nat, |k: int| package(v@, common_extensions()[k])));
        i += 1;
    }
    r
}

// ── /etc/os-release ─────────────────────────────────────────────────────

/// The value of the first `key=` line, with surrounding double quotes
/// removed; empty when no line sets it.
pub open spec fn os_value(ls: Seq<Seq<char>>, key: Seq<char>) -> Seq<char>
    decreases ls.len(),
{
    if ls.len() == 0 {
        Seq::empty()
    } else if (key + seq!['=']).is_prefix_of(ls[0]) {
        trim_char(ls[0].skip(key.len() + 1int), '"')
    } else {
        os_value(ls.skip(1), key)
    }
}

fn os_value_v(ls: &Vec<Vec<char>>, key: &str) -> (r: Vec<char>)
    ensures r@ == os_value(views(ls@), key@),
{
    let mut p = chars_of(key);
    p.push('=');
    assert(p@ =~= key@ + seq!['=']);
    let mut i: usize = 0;
    assert(views(ls@).skip(0) =~= views(ls@));
    while i < ls.len()
        invariant
            i <= ls.len(),
            p@ == key@ + seq!['='],
            os_value(views(ls@), key@) == os_value(views(ls@).skip(i as int), key@),
        decreases ls.len() - i,
    {
        assert(views(ls@).skip(i as int)[0] == ls@[i as int]@);
        assert(views(ls@).skip(i as int).skip(1) =~= views(ls@).skip(i + 1));
        if starts_with_v(&ls[i], &p) {
            let rest = slice(&ls[i], p.len(), ls[i].len());
            assert(rest@ =~= ls@[i as int]@.skip(key@.len() + 1int));
            return trim_char_v(&rest, '"');
        }
        i += 1;
    }
    Vec::new()
}

/// The value `key` has in an os-release text.
pub fn os_release_value(osr: &str, key: &str) -> (r: String)
    ensures r@ == os_value(lines(osr@), key@),
{
    let ls = lines_v(&chars_of(osr));
    string_of(&os_value_v(&ls, key))
}

/// The script that adds deb.sury.org for a Debian release and checks the
/// version then has a candidate.
pub open spec fn debian_repo_script(codename: Seq<char>, version: Seq<char>) -> Seq<char> {
    "curl -sfI --max-time 15 https://packages.sury.org/php/dists/"@
        + codename
        + "/Release > /dev/null || { echo 'deb.sury.org publishes no PHP packages for Debian "@
        + codename
        + " yet' >&2; exit 42; }; apt-get update -qq && apt-get install -y -qq apt-transport-https lsb-release ca-certificates curl gnupg && curl -sSLo /usr/share/keyrings/deb.sury.org-php.gpg https://packages.sury.org/php/apt.gpg && echo 'deb [signed-by=/usr/share/keyrings/deb.sury.org-php.gpg] https://packages.sury.org/php/ "@
        + codename
        + " main' > /etc/apt/sources.list.d/sury-php.list && apt-get update -qq && { apt-cache policy php"@
        + version
        + "-fpm 2>/dev/null | grep -q 'Candidate: [0-9]' || { echo 'php"@
        + version
        + "-fpm is still unavailable after adding deb.sury.org' >&2; exit 43; }; }"@
}

fn debian_repo_script_v(codename: &str, version: &str) -> (r: String)
    ensures r@ == debian_repo_script(codename@, version@),
{
    let mut v = chars_of("curl -sfI --max-time 15 https://packages.sury.org/php/dists/");
    append(&mut v, &chars_of(codename));
    append(&mut v, &chars_of("/Release > /dev/null || { echo 'deb.sury.org publishes no PHP packages for Debian "));
    append(&mut v, &chars_of(codename));
    append(&mut v, &chars_of(" yet' >&2; exit 42; }; apt-get update -qq && apt-get install -y -qq apt-transport-https lsb-release ca-certificates curl gnupg && curl -sSLo /usr/share/keyrings/deb.sury.org-php.gpg https://packages.sury.org/php/apt.gpg && echo 'deb [signed-by=/usr/share/keyrings/deb.sury.org-php.gpg] https://packages.sury.org/php/ "));
    append(&mut v, &chars_of(codename));
    append(&mut v, &chars_of(" main' > /etc/apt/sources.list.d/sury-php.list && apt-get update -qq && { apt-cache policy php"));
    append(&mut v, &chars_of(version));
    append(&mut v, &chars_of("-fpm 2>/dev/null | grep -q 'Candidate: [0-9]' || { echo 'php"));
    append(&mut v, &chars_of(version));
    append(&mut v, &chars_of("-fpm is still unavailable after adding deb.sury.org' >&2; exit 43; }; }"));
    string_of(&v)
}

/// The script that adds ppa:ondrej/php for an Ubuntu release and checks the
/// version then has a candidate.
pub open spec fn ubuntu_repo_script(codename: Seq<char>, version: Seq<char>) -> Seq<char> {
    "curl -sfI --max-time 15 https://ppa.launchpadcontent.net/ondrej/php/ubuntu/dists/"@
        + codename
        + "/Release > /dev/null || { echo 'ppa:ondrej/php publishes no packages for Ubuntu "@
        + codename
        + " yet' >&2; exit 42; }; apt-get update -qq && apt-get install -y -qq software-properties-common && add-apt-repository -y ppa:ondrej/php && apt-get update -qq && { apt-cache policy php"@
        + version
        + "-fpm 2>/dev/null | grep -q 'Candidate: [0-9]' || { echo 'php"@
        + version
        + "-fpm is still unavailable after adding ppa:ondrej/php' >&2; exit 43; }; }"@
}

fn ubuntu_repo_script_v(codename: &str, version: &str) -> (r: String)
    ensures r@ == ubuntu_repo_script(codename@, version@),
{
    let mut v = chars_of("curl -sfI --max-time 15 https://ppa.launchpadcontent.net/ondrej/php/ubuntu/dists/");
    append(&mut v, &chars_of(codename));
    append(&mut v, &chars_of("/Release > /dev/null || { echo 'ppa:ondrej/php publishes no packages for Ubuntu "));
    append(&mut v, &chars_of(codename));
    append(&mut v, &chars_of(" yet' >&2; exit 42; }; apt-get update -qq && apt-get install -y -qq software-properties-common && add-apt-repository -y ppa:ondrej/php && apt-get update -qq && { apt-cache policy php"));
    append(&mut v, &chars_of(version));
    append(&mut v, &chars_of("-fpm 2>/dev/null | grep -q 'Candidate: [0-9]' || { echo 'php"));
    append(&mut v, &chars_of(version));
    append(&mut v, &chars_of("-fpm is still unavailable after adding ppa:ondrej/php' >&2; exit 43; }; }"));
    string_of(&v)
}

/// The script that installs the core packages, then every common extension
/// the apt sources have a real candidate for.
pub open spec fn apt_install_script(version: Seq<char>) -> Seq<char> {
    "set -e; export DEBIAN_FRONTEND=noninteractive; apt-get install -y -qq php"@
        + version
        + "-fpm php"@
        + version
        + "-cli php"@
        + version
        + "-common; avail=''; for e in mysql pgsql sqlite3 curl gd mbstring xml zip bcmath intl readline opcache redis imagick; do p=\"php"@
        + version
        + "-$e\"; c=$(apt-cache policy \"$p\" 2>/dev/null | sed -n 's/^  Candidate: //p'); if [ -n \"$c\" ] && [ \"$c\" != '(none)' ]; then avail=\"$avail $p\"; fi; done; if [ -n \"$avail\" ]; then apt-get install -y -qq $avail; fi"@
}

fn apt_install_script_v(version: &str) -> (r: String)
    ensures r@ == apt_install_script(version@),
{
    let mut v = chars_of("set -e; export DEBIAN_FRONTEND=noninteractive; apt-get install -y -qq php");
    append(&mut v, &chars_of(version));
    append(&mut v, &chars_of("-fpm php"));
    append(&mut v, &chars_of(version));
    append(&mut v, &chars_of("-cli php"));
    append(&mut v, &chars_of(version));
    append(&mut v, &chars_of("-common; avail=''; for e in mysql pgsql sqlite3 curl gd mbstring xml zip bcmath intl readline opcache redis imagick; do p=\"php"));
    append(&mut v, &chars_of(version));
    append(&mut v, &chars_of("-$e\"; c=$(apt-cache policy \"$p\" 2>/dev/null | sed -n 's/^  Candidate: //p'); if [ -n \"$c\" ] && [ \"$c\" != '(none)' ]; then avail=\"$avail $p\"; fi; done; if [ -n \"$avail\" ]; then apt-get install -y -qq $avail; fi"));
    string_of(&v)
}

pub open spec fn not_offered(version: Seq<char>, streams: Seq<char>) -> Seq<char> {
    "PHP "@
        + version
        + " is not offered by this system's package repositories. Available versions here: "@
        + streams
        + ". (Other versions would need the third-party remi repository, which DockPanel does not configure.)"@
}

fn not_offered_v(version: &str, streams: &str) -> (r: String)
    ensures r@ == not_offered(version@, streams@),
{
    let mut v = chars_of("PHP ");
    append(&mut v, &chars_of(version));
    append(&mut v, &chars_of(" is not offered by this system's package repositories. Available versions here: "));
    append(&mut v, &chars_of(streams));
    append(&mut v, &chars_of(". (Other versions would need the third-party remi repository, which DockPanel does not configure.)"));
    string_of(&v)
}

pub open spec fn unsupported_distro(os_id: Seq<char>, version: Seq<char>) -> Seq<char> {
    "Unsupported distro for PHP install: ID='"@
        + os_id
        + "'. Install PHP "@
        + version
        + " manually."@
}

fn unsupported_distro_v(os_id: &str, version: &str) -> (r: String)
    ensures r@ == unsupported_distro(os_id@, version@),
{
    let mut v = chars_of("Unsupported distro for PHP install: ID='");
    append(&mut v, &chars_of(os_id));
    append(&mut v, &chars_of("'. Install PHP "));
    append(&mut v, &chars_of(version));
    append(&mut v, &chars_of(" manually."));
    string_of(&v)
}

pub open spec fn socket_up(version: Seq<char>, what: Seq<char>) -> Seq<char> {
    "PHP "@
        + version
        + " "@
        + what
        + " and PHP-FPM is running"@
}

fn socket_up_v(version: &str, what: &str) -> (r: String)
    ensures r@ == socket_up(version@, what@),
{
    let mut v = chars_of("PHP ");
    append(&mut v, &chars_of(version));
    append(&mut v, &chars_of(" "));
    append(&mut v, &chars_of(what));
    append(&mut v, &chars_of(" and PHP-FPM is running"));
    string_of(&v)
}

pub open spec fn socket_missing(version: Seq<char>, what: Seq<char>, unit: Seq<char>) -> Seq<char> {
    "PHP "@
        + version
        + " "@
        + what
        + ", but PHP-FPM did not open its socket, so PHP sites on this version will not work yet. Check `systemctl status "@
        + unit
        + "` and `journalctl -u "@
        + unit
        + "` on the server."@
}

fn socket_missing_v(version: &str, what: &str, unit: &str) -> (r: String)
    ensures r@ == socket_missing(version@, what@, unit@),
{
    let mut v = chars_of("PHP ");
    append(&mut v, &chars_of(version));
    append(&mut v, &chars_of(" "));
    append(&mut v, &chars_of(what));
    append(&mut v, &chars_of(", but PHP-FPM did not open its socket, so PHP sites on this version will not work yet. Check `systemctl status "));
    append(&mut v, &chars_of(unit));
    append(&mut v, &chars_of("` and `journalctl -u "));
    append(&mut v, &chars_of(unit));
    append(&mut v, &chars_of("` on the server."));
    string_of(&v)
}

pub open spec fn apt_failed(stdout: Seq<char>, stderr: Seq<char>) -> Seq<char> {
    "apt install failed:\n"@
        + stdout
        + "\n"@
        + stderr
}

fn apt_failed_v(stdout: &str, stderr: &str) -> (r: String)
    ensures r@ == apt_failed(stdout@, stderr@),
{
    let mut v = chars_of("apt install failed:\n");
    append(&mut v, &chars_of(stdout));
    append(&mut v, &chars_of("\n"));
    append(&mut v, &chars_of(stderr));
    string_of(&v)
}

proof fn lemma_push_contains<A>(s: Seq<A>, x: A, y: A)
    ensures s.push(x).contains(y) <==> (s.contains(y) || x == y),
{
    if s.contains(y) {
        let i = choose|i: int| 0 <= i < s.len() && s[i] == y;
        assert(s.push(x)[i] == y);
    }
    if x == y {
        assert(s.push(x)[s.len() as int] == y);
    }
    if s.push(x).contains(y) {
        let i = choose|i: int| 0 <= i < s.push(x).len() && s.push(x)[i] == y;
        if i < s.len() {
            assert(s[i] == y);
        }
    }
}

// ── the install ─────────────────────────────────────────────────────────

/// How the version came to be there, as the final report words it.
#[derive(Debug, Clone, Copy, PartialEq, Eq, Structural)]
pub enum Provenance {
    Already,
    FromStream,
    FromApt,
}

pub open spec fn what_happened(p: Provenance) -> Seq<char> {
    match p {
        Provenance::Already => "was already installed"@,
        Provenance::FromStream => "was installed"@,
        Provenance::FromApt => "was installed with FPM and all available extensions"@,
    }
}

fn what_happened_v(p: Provenance) -> (r: &'static str)
    ensures r@ == what_happened(p),
{
    match p {
        Provenance::Already => "was already installed",
        Provenance::FromStream => "was installed",
        Provenance::FromApt => "was installed with FPM and all available extensions",
    }
}

/// The result an install awaits.
#[derive(Debug, Clone, Copy, PartialEq, Eq, Structural)]
pub enum PhpStage {
    /// Whether the version's packages are installed.
    Installed,
    /// The module streams the RPM family offers (none on apt).
    Streams,
    EnableStream,
    InstallCore,
    InstallExtensions,
    Restart,
    /// Whether apt already has a candidate for the FPM package.
    AptProbe,
    OsRelease,
    Repo,
    Rollback,
    Install,
    StartFpm,
    /// Whether the FPM socket exists yet.
    Socket,
    /// The name of the FPM unit, for the report.
    Unit,
    Done,
}

/// What the install answers.
#[derive(Debug)]
pub struct PhpResponse {
    pub status: u16,
    pub success: bool,
    pub message: String,
}

/// What the host is asked to do next.
#[derive(Debug)]
pub enum PhpAction {
    CheckInstalled,
    ListStreams,
    EnableStream,
    InstallPackages(Vec<String>),
    /// Install those of these packages that have a candidate.
    InstallAvailable(Vec<String>),
    /// Enable and restart the FPM unit.
    RestartFpm,
    ProbeApt,
    ReadOsRelease,
    RunRepoScript(String),
    /// Remove the third-party sources a failed script may have left.
    RollbackRepo,
    RunInstall(String),
    /// `systemctl enable --now` on the FPM unit.
    StartFpm,
    /// Look for the socket (after 200 ms from the second look on).
    CheckSocket { attempt: u32 },
    ServiceName,
    Respond(PhpResponse),
    /// Nothing more to do.
    Stop,
}

/// What the host reports back.
#[derive(Debug)]
pub enum PhpEvent {
    Answer(bool),
    Streams(Vec<String>),
    Text(String),
    Done,
    Failed(String),
    Exited { ok: bool, stdout: String, stderr: String },
    TimedOut,
}

pub enum PhpActionView {
    CheckInstalled,
    ListStreams,
    EnableStream,
    InstallPackages(Seq<Seq<char>>),
    InstallAvailable(Seq<Seq<char>>),
    RestartFpm,
    ProbeApt,
    ReadOsRelease,
    RunRepoScript(Seq<char>),
    RollbackRepo,
    RunInstall(Seq<char>),
    StartFpm,
    CheckSocket { attempt: u32 },
    ServiceName,
    Respond { status: u16, success: bool, message: Seq<char> },
    Stop,
}

pub enum PhpEventView {
    Answer(bool),
    Streams(Seq<Seq<char>>),
    Text(Seq<char>),
    Done,
    Failed(Seq<char>),
    Exited { ok: bool, stdout: Seq<char>, stderr: Seq<char> },
    TimedOut,
}

impl View for PhpAction {
    type V = PhpActionView;

    open spec fn view(&self) -> PhpActionView {
        match self {
            PhpAction::CheckInstalled => PhpActionView::CheckInstalled,
            PhpAction::ListStreams => PhpActionView::ListStreams,
            PhpAction::EnableStream => PhpActionView::EnableStream,
            PhpAction::InstallPackages(p) => PhpActionView::InstallPackages(str_views(p@)),
            PhpAction::InstallAvailable(p) => PhpActionView::InstallAvailable(str_views(p@)),
            PhpAction::RestartFpm => PhpActionView::RestartFpm,
            PhpAction::ProbeApt => PhpActionView::ProbeApt,
            PhpAction::ReadOsRelease => PhpActionView::ReadOsRelease,
            PhpAction::RunRepoScript(s) => PhpActionView::RunRepoScript(s@),
            PhpAction::RollbackRepo => PhpActionView::RollbackRepo,
            PhpAction::RunInstall(s) => PhpActionView::RunInstall(s@),
            PhpAction::StartFpm => PhpActionView::StartFpm,
            PhpAction::CheckSocket { attempt } => PhpActionView::CheckSocket { attempt: *attempt },
            PhpAction::ServiceName => PhpActionView::ServiceName,
            PhpAction::Respond(r) => PhpActionView::Respond { status: r.status, success: r.success, message: r.message@ },
            PhpAction::Stop => PhpActionView::Stop,
        }
    }
}

impl View for PhpEvent {
    type V = PhpEventView;

    open spec fn view(&self) -> PhpEventView {
        match self {
            PhpEvent::Answer(b) => PhpEventView::Answer(*b),
            PhpEvent::Streams(s) => PhpEventView::Streams(str_views(s@)),
            PhpEvent::Text(t) => PhpEventView::Text(t@),
            PhpEvent::Done => PhpEventView::Done,
            PhpEvent::Failed(e) => PhpEventView::Failed(e@),
            PhpEvent::Exited { ok, stdout, stderr } => PhpEventView::Exited { ok: *ok, stdout: stdout@, stderr: stderr@ },
            PhpEvent::TimedOut => PhpEventView::TimedOut,
        }
    }
}

/// An install in progress: the version, what it awaits, how the version
/// got there, how many times the socket has been looked for, and the
/// sentence held back while a rollback runs.
pub struct PhpInstall {
    pub version: String,
    pub stage: PhpStage,
    pub provenance: Provenance,
    pub attempt: u32,
    pub pending: String,
}

/// The install's state as plain values.
pub struct InstallView {
    pub stage: PhpStage,
    pub provenance: Provenance,
    pub attempt: u32,
    pub pending: Seq<char>,
}

pub open spec fn respond(st: InstallView, status: u16, success: bool, message: Seq<char>) -> (InstallView, PhpActionView) {
    (InstallView { stage: PhpStage::Done, ..st }, PhpActionView::Respond { status, success, message })
}

pub open spec fn await_(st: InstallView, stage: PhpStage, a: PhpActionView) -> (InstallView, PhpActionView) {
    (InstallView { stage, ..st }, a)
}

/// One step of the install of version `v`.
pub open spec fn php_next(v: Seq<char>, st: InstallView, ev: PhpEventView) -> (InstallView, PhpActionView) {
    match (st.stage, ev) {
        (PhpStage::Installed, PhpEventView::Answer(yes)) => if yes {
            await_(InstallView { provenance: Provenance::Already, ..st }, PhpStage::StartFpm, PhpActionView::StartFpm)
        } else {
            await_(st, PhpStage::Streams, PhpActionView::ListStreams)
        },
        (PhpStage::Streams, PhpEventView::Streams(list)) => if list.len() > 0 {
            if list.contains(v) {
                await_(st, PhpStage::EnableStream, PhpActionView::EnableStream)
            } else {
                respond(st, 501, false, not_offered(v, join(list, ", "@)))
            }
        } else {
            await_(st, PhpStage::AptProbe, PhpActionView::ProbeApt)
        },
        (PhpStage::EnableStream, PhpEventView::Done) =>
            await_(st, PhpStage::InstallCore, PhpActionView::InstallPackages(core_packages(v))),
        (PhpStage::EnableStream, PhpEventView::Failed(e)) =>
            respond(st, 500, false, "Could not select PHP "@ + v + ": "@ + e),
        (PhpStage::InstallCore, PhpEventView::Done) =>
            await_(st, PhpStage::InstallExtensions, PhpActionView::InstallAvailable(extension_packages(v))),
        (PhpStage::InstallCore, PhpEventView::Failed(e)) =>
            respond(st, 500, false, "PHP "@ + v + " install failed: "@ + e),
        (PhpStage::InstallExtensions, PhpEventView::Done) =>
            await_(InstallView { provenance: Provenance::FromStream, ..st }, PhpStage::Restart, PhpActionView::RestartFpm),
        (PhpStage::InstallExtensions, PhpEventView::Failed(e)) =>
            respond(st, 500, false, "PHP "@ + v + " extension install failed: "@ + e),
        (PhpStage::Restart, PhpEventView::Done) =>
            await_(InstallView { attempt: 0, ..st }, PhpStage::Socket, PhpActionView::CheckSocket { attempt: 0 }),
        (PhpStage::AptProbe, PhpEventView::Answer(yes)) => if yes {
            await_(st, PhpStage::Install, PhpActionView::RunInstall(apt_install_script(v)))
        } else {
            await_(st, PhpStage::OsRelease, PhpActionView::ReadOsRelease)
        },
        (PhpStage::OsRelease, PhpEventView::Text(osr)) => {
            let id = os_value(lines(osr), "ID"@);
            let codename = os_value(lines(osr), "VERSION_CODENAME"@);
            if id == "debian"@ && codename.len() > 0 {
                await_(st, PhpStage::Repo, PhpActionView::RunRepoScript(debian_repo_script(codename, v)))
            } else if id == "ubuntu"@ && codename.len() > 0 {
                await_(st, PhpStage::Repo, PhpActionView::RunRepoScript(ubuntu_repo_script(codename, v)))
            } else {
                respond(st, 400, false, unsupported_distro(id, v))
            }
        },
        (PhpStage::Repo, PhpEventView::Exited { ok, stdout: _, stderr }) => if ok {
            await_(st, PhpStage::Install, PhpActionView::RunInstall(apt_install_script(v)))
        } else {
            await_(
                InstallView { pending: "Failed to configure PHP repo: "@ + stderr, ..st },
                PhpStage::Rollback,
                PhpActionView::RollbackRepo,
            )
        },
        (PhpStage::Repo, PhpEventView::Failed(e)) => respond(st, 500, false, "Failed to configure PHP repo: "@ + e),
        (PhpStage::Rollback, PhpEventView::Done) => respond(st, 500, false, st.pending),
        (PhpStage::Install, PhpEventView::Exited { ok, stdout, stderr }) => if ok {
            await_(InstallView { provenance: Provenance::FromApt, ..st }, PhpStage::StartFpm, PhpActionView::StartFpm)
        } else {
            respond(st, 500, false, apt_failed(stdout, stderr))
        },
        (PhpStage::Install, PhpEventView::Failed(e)) => respond(st, 500, false, "Install command failed: "@ + e),
        (PhpStage::Install, PhpEventView::TimedOut) => respond(st, 500, false, "Installation timed out (5 min limit)"@),
        (PhpStage::StartFpm, PhpEventView::Done) =>
            await_(InstallView { attempt: 0, ..st }, PhpStage::Socket, PhpActionView::CheckSocket { attempt: 0 }),
        (PhpStage::Socket, PhpEventView::Answer(found)) => if found {
            respond(st, 200, true, socket_up(v, what_happened(st.provenance)))
        } else if st.attempt + 1 < 25 {
            await_(
                InstallView { attempt: (st.attempt + 1) as u32, ..st },
                PhpStage::Socket,
                PhpActionView::CheckSocket { attempt: (st.attempt + 1) as u32 },
            )
        } else {
            await_(st, PhpStage::Unit, PhpActionView::ServiceName)
        },
        (PhpStage::Unit, PhpEventView::Text(unit)) =>
            respond(st, 200, false, socket_missing(v, what_happened(st.provenance), unit)),
        _ => (InstallView { stage: PhpStage::Done, ..st }, PhpActionView::Stop),
    }
}

impl PhpInstall {
    pub open spec fn state(&self) -> InstallView {
        InstallView { stage: self.stage, provenance: self.provenance, attempt: self.attempt, pending: self.pending@ }
    }

    /// Start the install of the version a request names: refused at once
    /// when it is not offered, else the first question.
    pub fn begin(version: &str) -> (r: (PhpInstall, PhpAction))
        ensures
            r.0.version@ == trim(version@),
            r.0.stage == (if version_allowed(trim(version@)) { PhpStage::Installed } else { PhpStage::Done }),
            r.0.attempt == 0,
            version_allowed(trim(version@)) ==> r.1@ == PhpActionView::CheckInstalled,
            !version_allowed(trim(version@)) ==> r.1@ == (PhpActionView::Respond {
                status: 400, success: false, message: invalid_version(),
            }),
    {
        let t = string_of(&trim_v(&chars_of(version)));
        let st = PhpInstall {
            version: t,
            stage: PhpStage::Installed,
            provenance: Provenance::Already,
            attempt: 0,
            pending: String::new(),
        };
        if is_allowed_version(st.version.as_str()) {
            (st, PhpAction::CheckInstalled)
        } else {
            let msg = string_of(&chars_of("Invalid version. Allowed: 8.1, 8.2, 8.3, 8.4, 8.5"));
            (PhpInstall { stage: PhpStage::Done, ..st }, PhpAction::Respond(PhpResponse { status: 400, success: false, message: msg }))
        }
    }

    /// Take the host's report and say what to do next.
    pub fn step(&mut self, ev: PhpEvent) -> (a: PhpAction)
        ensures
            final(self).version@ == old(self).version@,
            (final(self).state(), a@) == php_next(old(self).version@, old(self).state(), ev@),
    {
        match self.stage {
            PhpStage::Installed | PhpStage::Streams | PhpStage::EnableStream | PhpStage::InstallCore
            | PhpStage::InstallExtensions | PhpStage::Restart => self.stream_step(ev),
            PhpStage::AptProbe | PhpStage::OsRelease | PhpStage::Repo | PhpStage::Rollback => self.repo_step(ev),
            _ => self.finish_step(ev),
        }
    }

    fn respond_with(&mut self, status: u16, success: bool, message: String) -> (a: PhpAction)
        ensures
            final(self).version == old(self).version,
            final(self).state() == (InstallView { stage: PhpStage::Done, ..old(self).state() }),
            a@ == (PhpActionView::Respond { status, success, message: message@ }),
    {
        self.stage = PhpStage::Done;
        PhpAction::Respond(PhpResponse { status, success, message })
    }

    fn stop(&mut self) -> (a: PhpAction)
        ensures
            final(self).version == old(self).version,
            final(self).state() == (InstallView { stage: PhpStage::Done, ..old(self).state() }),
            a@ == PhpActionView::Stop,
    {
        self.stage = PhpStage::Done;
        PhpAction::Stop
    }

    fn stream_step(&mut self, ev: PhpEvent) -> (a: PhpAction)
        requires
            old(self).stage == PhpStage::Installed || old(self).stage == PhpStage::Streams
                || old(self).stage == PhpStage::EnableStream || old(self).stage == PhpStage::InstallCore
                || old(self).stage == PhpStage::InstallExtensions || old(self).stage == PhpStage::Restart,
        ensures
            final(self).version@ == old(self).version@,
            (final(self).state(), a@) == php_next(old(self).version@, old(self).state(), ev@),
    {
        let v = self.version.as_str();
        match (self.stage, ev) {
            (PhpStage::Installed, PhpEvent::Answer(yes)) => {
                if yes {
                    self.provenance = Provenance::Already;
                    self.stage = PhpStage::StartFpm;
                    PhpAction::StartFpm
                } else {
                    self.stage = PhpStage::Streams;
                    PhpAction::ListStreams
                }
            },
            (PhpStage::Streams, PhpEvent::Streams(list)) => {
                if list.len() > 0 {
                    let mut found = false;
                    let mut i: usize = 0;
                    while i < list.len()
                        invariant
                            i <= list.len(),
                            v@ == self.version@,
                            found == str_views(list@).take(i as int).contains(v@),
                        decreases list.len() - i,
                    {
                        assert(str_views(list@).take(i + 1) =~= str_views(list@).take(i as int).push(list@[i as int]@));
                        proof { lemma_push_contains(str_views(list@).take(i as int), list@[i as int]@, v@); }
                        if list[i] == self.version {
                            found = true;
                        }
                        i += 1;
                    }
                    assert(str_views(list@).take(list.len() as int) =~= str_views(list@));
                    if found {
                        self.stage = PhpStage::EnableStream;
                        PhpAction::EnableStream
                    } else {
                        let mut parts: Vec<Vec<char>> = Vec::new();
                        let mut j: usize = 0;
                        while j < list.len()
                            invariant
                                j <= list.len(),
                                views(parts@) == str_views(list@).take(j as int),
                            decreases list.len() - j,
                        {
                            let c = chars_of(list[j].as_str());
                            proof { lemma_views_push(parts@, c); }
                            parts.push(c);
                            j += 1;
                            assert(views(parts@) =~= str_views(list@).take(j as int));
                        }
                        assert(str_views(list@).take(list.len() as int) =~= str_views(list@));
                        let joined = join_v(&parts, &chars_of(", "));
                        let msg = not_offered_v(self.version.as_str(), string_of(&joined).as_str());
                        self.respond_with(501, false, msg)
                    }
                } else {
                    self.stage = PhpStage::AptProbe;
                    PhpAction::ProbeApt
                }
            },
            (PhpStage::EnableStream, PhpEvent::Done) => {
                self.stage = PhpStage::InstallCore;
                PhpAction::InstallPackages(core_packages_v(v))
            },
            (PhpStage::EnableStream, PhpEvent::Failed(e)) => {
                let mut m = chars_of("Could not select PHP ");
                append(&mut m, &chars_of(v));
                append(&mut m, &chars_of(": "));
                append(&mut m, &chars_of(e.as_str()));
                self.respond_with(500, false, string_of(&m))
            },
            (PhpStage::InstallCore, PhpEvent::Done) => {
                self.stage = PhpStage::InstallExtensions;
                PhpAction::InstallAvailable(extension_packages_v(v))
            },
            (PhpStage::InstallCore, PhpEvent::Failed(e)) => {
                let mut m = chars_of("PHP ");
                append(&mut m, &chars_of(v));
                append(&mut m, &chars_of(" install failed: "));
                append(&mut m, &chars_of(e.as_str()));
                self.respond_with(500, false, string_of(&m))
            },
            (PhpStage::InstallExtensions, PhpEvent::Done) => {
                self.provenance = Provenance::FromStream;
                self.stage = PhpStage::Restart;
                PhpAction::RestartFpm
            },
            (PhpStage::InstallExtensions, PhpEvent::Failed(e)) => {
                let mut m = chars_of("PHP ");
                append(&mut m, &chars_of(v));
                append(&mut m, &chars_of(" extension install failed: "));
                append(&mut m, &chars_of(e.as_str()));
                self.respond_with(500, false, string_of(&m))
            },
            (PhpStage::Restart, PhpEvent::Done) => {
                self.attempt = 0;
                self.stage = PhpStage::Socket;
                PhpAction::CheckSocket { attempt: 0 }
            },
            _ => self.stop(),
        }
    }

    fn repo_step(&mut self, ev: PhpEvent) -> (a: PhpAction)
        requires
            old(self).stage == PhpStage::AptProbe || old(self).stage == PhpStage::OsRelease
                || old(self).stage == PhpStage::Repo || old(self).stage == PhpStage::Rollback,
        ensures
            final(self).version@ == old(self).version@,
            (final(self).state(), a@) == php_next(old(self).version@, old(self).state(), ev@),
    {
        let v = self.version.as_str();
        match (self.stage, ev) {
            (PhpStage::AptProbe, PhpEvent::Answer(yes)) => {
                if yes {
                    self.stage = PhpStage::Install;
                    PhpAction::RunInstall(apt_install_script_v(v))
                } else {
                    self.stage = PhpStage::OsRelease;
                    PhpAction::ReadOsRelease
                }
            },
            (PhpStage::OsRelease, PhpEvent::Text(osr)) => {
                let id = os_release_value(osr.as_str(), "ID");
                let codename = os_release_value(osr.as_str(), "VERSION_CODENAME");
                let cv = chars_of(codename.as_str());
                if eq_v(&chars_of(id.as_str()), &chars_of("debian")) && cv.len() > 0 {
                    self.stage = PhpStage::Repo;
                    PhpAction::RunRepoScript(debian_repo_script_v(codename.as_str(), v))
                } else if eq_v(&chars_of(id.as_str()), &chars_of("ubuntu")) && cv.len() > 0 {
                    self.stage = PhpStage::Repo;
                    PhpAction::RunRepoScript(ubuntu_repo_script_v(codename.as_str(), v))
                } else {
                    let msg = unsupported_distro_v(id.as_str(), v);
                    self.respond_with(400, false, msg)
                }
            },
            (PhpStage::Repo, PhpEvent::Exited { ok, stdout: _, stderr }) => {
                if ok {
                    self.stage = PhpStage::Install;
                    PhpAction::RunInstall(apt_install_script_v(v))
                } else {
                    let mut m = chars_of("Failed to configure PHP repo: ");
                    append(&mut m, &chars_of(stderr.as_str()));
                    self.pending = string_of(&m);
                    self.stage = PhpStage::Rollback;
                    PhpAction::RollbackRepo
                }
            },
            (PhpStage::Repo, PhpEvent::Failed(e)) => {
                let mut m = chars_of("Failed to configure PHP repo: ");
                append(&mut m, &chars_of(e.as_str()));
                self.respond_with(500, false, string_of(&m))
            },
            (PhpStage::Rollback, PhpEvent::Done) => {
                let m = self.pending.clone();
                self.respond_with(500, false, m)
            },
            _ => self.stop(),
        }
    }

    fn finish_step(&mut self, ev: PhpEvent) -> (a: PhpAction)
        requires
            old(self).stage == PhpStage::Install || old(self).stage == PhpStage::StartFpm
                || old(self).stage == PhpStage::Socket || old(self).stage == PhpStage::Unit
                || old(self).stage == PhpStage::Done,
        ensures
            final(self).version@ == old(self).version@,
            (final(self).state(), a@) == php_next(old(self).version@, old(self).state(), ev@),
    {
        let v = self.version.as_str();
        match (self.stage, ev) {
            (PhpStage::Install, PhpEvent::Exited { ok, stdout, stderr }) => {
                if ok {
                    self.provenance = Provenance::FromApt;
                    self.stage = PhpStage::StartFpm;
                    PhpAction::StartFpm
                } else {
                    let msg = apt_failed_v(stdout.as_str(), stderr.as_str());
                    self.respond_with(500, false, msg)
                }
            },
            (PhpStage::Install, PhpEvent::Failed(e)) => {
                let mut m = chars_of("Install command failed: ");
                append(&mut m, &chars_of(e.as_str()));
                self.respond_with(500, false, string_of(&m))
            },
            (PhpStage::Install, PhpEvent::TimedOut) => {
                let m = string_of(&chars_of("Installation timed out (5 min limit)"));
                self.respond_with(500, false, m)
            },
            (PhpStage::StartFpm, PhpEvent::Done) => {
                self.attempt = 0;
                self.stage = PhpStage::Socket;
                PhpAction::CheckSocket { attempt: 0 }
            },
            (PhpStage::Socket, PhpEvent::Answer(found)) => {
                if found {
                    let msg = socket_up_v(v, what_happened_v(self.provenance));
                    self.respond_with(200, true, msg)
                } else if self.attempt < 24 {
                    self.attempt = self.attempt + 1;
                    PhpAction::CheckSocket { attempt: self.attempt }
                } else {
                    self.stage = PhpStage::Unit;
                    PhpAction::ServiceName
                }
            },
            (PhpStage::Unit, PhpEvent::Text(unit)) => {
                let msg = socket_missing_v(v, what_happened_v(self.provenance), unit.as_str());
                self.respond_with(200, false, msg)
            },
            _ => self.stop(),
        }
    }
}

// ── laws ────────────────────────────────────────────────────────────────

/// An install reports success only when the FPM socket was found: packages
/// installed and units enabled are not enough.
pub proof fn law_success_needs_socket(v: Seq<char>, st: InstallView, ev: PhpEventView)
    ensures
        php_next(v, st, ev).1 matches PhpActionView::Respond { success: true, .. } ==>
            st.stage == PhpStage::Socket && ev == PhpEventView::Answer(true),
{
}

/// A repository script that failed is always rolled back before the
/// failure is answered, and the answer is the one held back.
pub proof fn law_failed_repo_rolled_back(v: Seq<char>, st: InstallView, stdout: Seq<char>, stderr: Seq<char>)
    requires st.stage == PhpStage::Repo,
    ensures
        ({
            let (st2, a) = php_next(v, st, PhpEventView::Exited { ok: false, stdout, stderr });
            &&& a == PhpActionView::RollbackRepo
            &&& php_next(v, st2, PhpEventView::Done).1 == (PhpActionView::Respond {
                status: 500, success: false, message: "Failed to configure PHP repo: "@ + stderr,
            })
        }),
{
}

/// The socket is looked for at most 25 times.
pub proof fn law_socket_wait_bounded(v: Seq<char>, st: InstallView, ev: PhpEventView)
    requires st.attempt < 25,
    ensures
        php_next(v, st, ev).1 matches PhpActionView::CheckSocket { attempt } ==> attempt < 25,
        php_next(v, st, ev).0.attempt < 25,
{
}

/// Once the package manager offers module streams, nothing of the apt path
/// runs.
pub proof fn law_stream_family_never_uses_apt(v: Seq<char>, st: InstallView, ev: PhpEventView)
    requires
        (st.stage == PhpStage::Streams && (ev matches PhpEventView::Streams(l) && l.len() > 0))
            || st.stage == PhpStage::EnableStream || st.stage == PhpStage::InstallCore
            || st.stage == PhpStage::InstallExtensions || st.stage == PhpStage::Restart,
    ensures
        ({
            let a = php_next(v, st, ev).1;
            !(a is ProbeApt) && !(a is ReadOsRelease) && !(a is RunRepoScript) && !(a is RunInstall)
        }),
{
}

// ── extensions ──────────────────────────────────────────────────────────

/// The modules `php -m` lists: lines that are not empty and not a `[...]`
/// heading, trimmed and lowercased.
pub open spec fn installed_list(ls: Seq<Seq<char>>, n: nat) -> Seq<Seq<char>>
    decreases n,
{
    if n == 0 || n > ls.len() {
        Seq::empty()
    } else {
        let p = installed_list(ls, (n - 1) as nat);
        let l = ls[n - 1];
        if l.len() > 0 && l[0] != '[' { p.push(lowercase(trim(l))) } else { p }
    }
}

pub fn installed_extensions(stdout: &str) -> (r: Vec<String>)
    ensures str_views(r@) == installed_list(lines(stdout@), lines(stdout@).len()),
{
    let ls = lines_v(&chars_of(stdout));
    let mut out: Vec<String> = Vec::new();
    let mut k: usize = 0;
    while k < ls.len()
        invariant
            k <= ls.len(),
            views(ls@) == lines(stdout@),
            str_views(out@) == installed_list(lines(stdout@), k as nat),
        decreases ls.len() - k,
    {
        let l = &ls[k];
        assert(l@ == lines(stdout@)[k as int]);
        if l.len() > 0 && l[0] != '[' {
            let t = string_of(&trim_v(l));
            let lower = to_lowercase(t.as_str());
            let ghost before = out@;
            out.push(lower);
            assert(str_views(out@) =~= str_views(before).push(lower@));
        }
        k += 1;
    }
    out
}

/// Package suffixes that name no extension.
pub open spec fn not_an_extension(e: Seq<char>) -> bool {
    e == "common"@ || e == "cli"@ || e == "fpm"@ || e == "dev"@ || e == "dbg"@ || e == "devel"@
}

/// The extension a package-search line offers: its first word, up to any
/// `.arch` suffix, after `prefix`; none when the word lacks the prefix or
/// names no extension.
pub open spec fn offered(l: Seq<char>, prefix: Seq<char>) -> Option<Seq<char>> {
    let toks = ws_tokens(l);
    if toks.len() == 0 {
        None
    } else {
        let pkg = split_on(toks[0], '.')[0];
        if prefix.is_prefix_of(pkg) {
            let e = pkg.skip(prefix.len() as int);
            if e.len() == 0 || not_an_extension(e) { None } else { Some(e) }
        } else {
            None
        }
    }
}

pub open spec fn offered_list(ls: Seq<Seq<char>>, prefix: Seq<char>, n: nat) -> Seq<Seq<char>>
    decreases n,
{
    if n == 0 || n > ls.len() {
        Seq::empty()
    } else {
        let p = offered_list(ls, prefix, (n - 1) as nat);
        match offered(ls[n - 1], prefix) {
            Some(e) => p.push(e),
            None => p,
        }
    }
}

fn not_an_extension_v(e: &Vec<char>) -> (r: bool)
    ensures r == not_an_extension(e@),
{
    eq_v(e, &chars_of("common")) || eq_v(e, &chars_of("cli")) || eq_v(e, &chars_of("fpm"))
        || eq_v(e, &chars_of("dev")) || eq_v(e, &chars_of("dbg")) || eq_v(e, &chars_of("devel"))
}

fn offered_v(l: &Vec<char>, prefix: &Vec<char>) -> (r: Option<Vec<char>>)
    ensures
        match offered(l@, prefix@) {
            Some(e) => r matches Some(x) && x@ == e,
            None => r is None,
        },
{
    let toks = ws_tokens_v(l);
    if toks.len() == 0 {
        return None;
    }
    assert(views(toks@)[0] == toks@[0]@);
    let pieces = split_v(&toks[0], '.');
    proof { lemma_split_on_len(toks@[0]@, '.'); }
    assert(views(pieces@)[0] == pieces@[0]@);
    let pkg = &pieces[0];
    if !starts_with_v(pkg, prefix) {
        return None;
    }
    let e = slice(pkg, prefix.len(), pkg.len());
    assert(e@ =~= pkg@.skip(prefix@.len() as int));
    if e.len() == 0 || not_an_extension_v(&e) {
        None
    } else {
        Some(e)
    }
}

/// The prefix an extension package carries: `php-` on the RPM family,
/// `php{version}-` on apt.
pub fn extension_prefix(rpm: bool, version: &str) -> (r: String)
    ensures r@ == (if rpm { "php-"@ } else { "php"@ + version@ + "-"@ }),
{
    if rpm {
        string_of(&chars_of("php-"))
    } else {
        let mut v = chars_of("php");
        append(&mut v, &chars_of(version));
        append(&mut v, &chars_of("-"));
        string_of(&v)
    }
}

/// The extensions a package search offers, sorted, each once.
pub fn available_extensions(search_output: &str, prefix: &str) -> (r: Vec<String>)
    ensures
        ascending(str_views(r@)),
        forall|x: Seq<char>| str_views(r@).contains(x)
            <==> offered_list(lines(search_output@), prefix@, lines(search_output@).len()).contains(x),
{
    let ls = lines_v(&chars_of(search_output));
    let p = chars_of(prefix);
    let mut out: Vec<String> = Vec::new();
    let mut k: usize = 0;
    while k < ls.len()
        invariant
            k <= ls.len(),
            views(ls@) == lines(search_output@),
            p@ == prefix@,
            str_views(out@) == offered_list(lines(search_output@), prefix@, k as nat),
        decreases ls.len() - k,
    {
        assert(ls@[k as int]@ == lines(search_output@)[k as int]);
        match offered_v(&ls[k], &p) {
            Some(e) => {
                let s = string_of(&e);
                let ghost before = out@;
                out.push(s);
                assert(str_views(out@) =~= str_views(before).push(e@));
            },
            None => {},
        }
        k += 1;
    }
    sorted_unique(out)
}

pub open spec fn extension_name_ok(e: Seq<char>) -> bool {
    e.len() > 0 && forall|k: int| 0 <= k < e.len() ==> is_alnum(#[trigger] e[k]) || e[k] == '-' || e[k] == '_'
}

/// The package an extension install asks for (the version defaulting to
/// 8.3), or the sentence it is refused with.
pub fn extension_package(version: Option<&str>, extension: Option<&str>) -> (r: Result<String, String>)
    ensures
        ({
            let v = match version { Some(v) => v@, None => "8.3"@ };
            let e = match extension { Some(e) => e@, None => ""@ };
            if !version_allowed(v) {
                r matches Err(m) && m@ == invalid_php_version()
            } else if !extension_name_ok(e) {
                r matches Err(m) && m@ == "Invalid extension name"@
            } else {
                r matches Ok(p) && p@ == package(v, e)
            }
        }),
{
    let v = match version { Some(v) => v, None => "8.3" };
    let e = match extension { Some(e) => e, None => "" };
    if !is_allowed_version(v) {
        return Err(string_of(&chars_of("Invalid PHP version. Allowed: 8.1, 8.2, 8.3, 8.4, 8.5")));
    }
    let ev = chars_of(e);
    let mut ok = ev.len() > 0;
    let mut i: usize = 0;
    while i < ev.len()
        invariant
            i <= ev.len(),
            ev@ == e@,
            ok == (ev@.len() > 0 && forall|k: int| 0 <= k < i ==> is_alnum(#[trigger] ev@[k]) || ev@[k] == '-' || ev@[k] == '_'),
        decreases ev.len() - i,
    {
        let c = ev[i];
        if !(alnum(c) || c == '-' || c == '_') {
            ok = false;
        }
        i += 1;
    }
    if !ok {
        return Err(string_of(&chars_of("Invalid extension name")));
    }
    Ok(package_v(v, e))
}

/// The command that removes a version's packages: every PHP package on the
/// RPM family (its packages are not versioned), the version's on apt.
pub fn purge_command(rpm: bool, version: &str) -> (r: String)
    ensures r@ == (if rpm { "dnf remove -y 'php-*' 2>&1"@ } else { "apt-get purge -y php"@ + version@ + "-* 2>&1"@ }),
{
    if rpm {
        string_of(&chars_of("dnf remove -y 'php-*' 2>&1"))
    } else {
        let mut v = chars_of("apt-get purge -y php");
        append(&mut v, &chars_of(version));
        append(&mut v, &chars_of("-* 2>&1"));
        string_of(&v)
    }
}

/// How the purge of an uninstall ended.
pub enum PurgeOutcome {
    /// The shell could not be started.
    SpawnFailed(String),
    /// Five minutes passed.
    TimedOut,
    Exited { ok: bool, stdout: String, stderr: String },
}

/// What an uninstall answers once its purge has run: success only when
/// the purge exited cleanly.
pub fn purge_reply(version: &str, outcome: &PurgeOutcome) -> (r: Result<String, String>)
    ensures
        match outcome {
            PurgeOutcome::SpawnFailed(e) => r matches Err(m) && m@ == "Purge command failed: "@ + e@,
            PurgeOutcome::TimedOut => r matches Err(m) && m@ == "Uninstall timed out (5 min limit)"@,
            PurgeOutcome::Exited { ok, stdout, stderr } => if *ok {
                r matches Ok(m) && m@ == "PHP "@ + version@ + " has been uninstalled"@
            } else {
                r matches Err(m) && m@ == "apt purge failed:\n"@ + stdout@ + "\n"@ + stderr@
            },
        },
{
    match outcome {
        PurgeOutcome::SpawnFailed(e) => {
            let mut v = chars_of("Purge command failed: ");
            append(&mut v, &chars_of(e.as_str()));
            Err(string_of(&v))
        },
        PurgeOutcome::TimedOut => Err(string_of(&chars_of("Uninstall timed out (5 min limit)"))),
        PurgeOutcome::Exited { ok, stdout, stderr } => {
            if *ok {
                let mut v = chars_of("PHP ");
                append(&mut v, &chars_of(version));
                append(&mut v, &chars_of(" has been uninstalled"));
                Ok(string_of(&v))
            } else {
                let mut v = chars_of("apt purge failed:\n");
                append(&mut v, &chars_of(stdout.as_str()));
                append(&mut v, &chars_of("\n"));
                append(&mut v, &chars_of(stderr.as_str()));
                Err(string_of(&v))
            }
        },
    }
}

/// What uninstalling a version that is not there answers (a success).
pub fn not_installed_reply(version: &str) -> (r: String)
    ensures r@ == "PHP "@ + version@ + " is not installed"@,
{
    let mut v = chars_of("PHP ");
    append(&mut v, &chars_of(version));
    append(&mut v, &chars_of(" is not installed"));
    string_of(&v)
}

} // verus!
