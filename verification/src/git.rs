//! Git deploys: the checks on what the panel sends before a clone, build or
//! deploy, the defaults of its requests, and the names derived from them.
use vstd::prelude::*;
use crate::text::{
    append, chars_of, contains, eq_v, find_from_v, is_alnum, lemma_find_from, starts_with_v, string_of,
    alnum,
};
use crate::validation::{is_valid_name, name_ok};

verus! {

fn has_prefix(s: &Vec<char>, p: &str) -> (r: bool)
    ensures r == p@.is_prefix_of(s@),
{
    starts_with_v(s, &chars_of(p))
}

fn has_dotdot(s: &Vec<char>) -> (r: bool)
    ensures r == contains(s@, ".."@),
{
    let dd = chars_of("..");
    proof { lemma_find_from(s@, dd@, 0); }
    find_from_v(s, &dd, 0).is_some()
}

/// A repository URL of an allowed protocol that cannot be read as an
/// option.
pub open spec fn repo_url_ok(u: Seq<char>) -> bool {
    !"-"@.is_prefix_of(u) && !"file://"@.is_prefix_of(u) && !"ext://"@.is_prefix_of(u)
        && ("https://"@.is_prefix_of(u) || "http://"@.is_prefix_of(u) || "ssh://"@.is_prefix_of(u)
            || "git@"@.is_prefix_of(u))
}

/// Validate that a repo URL uses an allowed protocol and is not malicious.
pub fn is_valid_repo_url(url: &str) -> (r: bool)
    ensures r == repo_url_ok(url@),
{
    let u = chars_of(url);
    if has_prefix(&u, "-") {
        return false;
    }
    if has_prefix(&u, "file://") || has_prefix(&u, "ext://") {
        return false;
    }
    has_prefix(&u, "https://") || has_prefix(&u, "http://") || has_prefix(&u, "ssh://") || has_prefix(&u, "git@")
}

/// Validate that a branch name is safe.
pub fn is_valid_branch(branch: &str) -> (r: bool)
    ensures r == (!"-"@.is_prefix_of(branch@) && !contains(branch@, ".."@)),
{
    let b = chars_of(branch);
    !has_prefix(&b, "-") && !has_dotdot(&b)
}

/// A domain that is safe as an nginx file name and `server_name`: 1 to 253
/// characters of `[A-Za-z0-9._-]`, without `..`.
pub open spec fn nginx_domain_ok(d: Seq<char>) -> bool {
    0 < d.len() <= 253 && !contains(d, ".."@)
        && forall|k: int| 0 <= k < d.len() ==> is_alnum(#[trigger] d[k]) || d[k] == '.' || d[k] == '-' || d[k] == '_'
}

/// Security floor for a domain that becomes an nginx file path and an
/// unescaped `server_name`.
pub fn is_safe_nginx_domain(domain: &str) -> (r: bool)
    ensures r == nginx_domain_ok(domain@),
{
    let d = chars_of(domain);
    if d.len() == 0 || d.len() > 253 || has_dotdot(&d) {
        return false;
    }
    let mut i: usize = 0;
    while i < d.len()
        invariant
            i <= d.len(),
            d@ == domain@,
            forall|k: int| 0 <= k < i ==> is_alnum(#[trigger] d@[k]) || d@[k] == '.' || d@[k] == '-' || d@[k] == '_',
        decreases d.len() - i,
    {
        let c = d[i];
        if !(alnum(c) || c == '.' || c == '-' || c == '_') {
            assert(!(is_alnum(d@[i as int]) || d@[i as int] == '.' || d@[i as int] == '-' || d@[i as int] == '_'));
            return false;
        }
        i += 1;
    }
    true
}

/// A path inside the repository: no `..` and not absolute.
pub open spec fn repo_path_ok(p: Seq<char>) -> bool {
    !contains(p, ".."@) && !"/"@.is_prefix_of(p)
}

/// Validate that a dockerfile path does not escape the build context.
pub fn is_valid_dockerfile(dockerfile: &str) -> (r: bool)
    ensures r == repo_path_ok(dockerfile@),
{
    let d = chars_of(dockerfile);
    !has_dotdot(&d) && !has_prefix(&d, "/")
}

/// Validate that a build_context path does not escape the repo directory.
pub fn is_valid_build_context(ctx: &str) -> (r: bool)
    ensures r == repo_path_ok(ctx@),
{
    let d = chars_of(ctx);
    !has_dotdot(&d) && !has_prefix(&d, "/")
}

/// Validate that an image_tag is a dockpanel-managed tag and has no path
/// traversal.
pub fn is_valid_image_tag(tag: &str) -> (r: bool)
    ensures r == ("dockpanel-git-"@.is_prefix_of(tag@) && !tag@.contains('/')),
{
    let t = chars_of(tag);
    has_prefix(&t, "dockpanel-git-") && !crate::text::has_char(&t, '/')
}

/// Which of the two disjoint name spaces a git endpoint addresses.
#[derive(PartialEq, Eq, Structural, Clone, Copy)]
pub enum GitScope {
    Deploy,
    Preview,
}

/// The scope the panel names; absent or unrecognised means `Deploy`, so a
/// panel older than previews keeps working as before.
pub fn scope_of(raw: &str) -> (r: GitScope)
    ensures r == (if raw@ == "preview"@ { GitScope::Preview } else { GitScope::Deploy }),
{
    if eq_v(&chars_of(raw), &chars_of("preview")) { GitScope::Preview } else { GitScope::Deploy }
}

pub fn default_dockerfile() -> (r: String)
    ensures r@ == "Dockerfile"@,
{
    string_of(&chars_of("Dockerfile"))
}

pub fn default_context() -> (r: String)
    ensures r@ == "."@,
{
    string_of(&chars_of("."))
}

/// How many images a prune keeps when the panel does not say.
pub fn default_keep() -> (r: usize)
    ensures r == 5,
{
    5
}

/// How many log lines are fetched when the panel does not say.
pub fn default_log_lines() -> (r: usize)
    ensures r == 200,
{
    200
}

fn err(msg: &str) -> (r: Result<(), String>)
    ensures r matches Err(m) && m@ == msg@,
{
    Err(string_of(&chars_of(msg)))
}

/// The checks `/git/clone` runs.
pub fn check_clone(name: &str, repo_url: &str, branch: &str) -> (r: Result<(), String>)
    ensures
        !name_ok(name@) ==> (r matches Err(m) && m@ == "Invalid name"@),
        name_ok(name@) && repo_url@.len() == 0 ==> (r matches Err(m) && m@ == "Missing repo_url"@),
        name_ok(name@) && repo_url@.len() > 0 && !repo_url_ok(repo_url@) ==>
            (r matches Err(m) && m@ == "Invalid repo_url: must use https://, http://, ssh://, or git@ protocol"@),
        name_ok(name@) && repo_url@.len() > 0 && repo_url_ok(repo_url@)
            && ("-"@.is_prefix_of(branch@) || contains(branch@, ".."@)) ==> (r matches Err(m) && m@ == "Invalid branch name"@),
        name_ok(name@) && repo_url@.len() > 0 && repo_url_ok(repo_url@)
            && !("-"@.is_prefix_of(branch@) || contains(branch@, ".."@)) ==> r is Ok,
{
    if !is_valid_name(name) {
        return err("Invalid name");
    }
    if repo_url.is_empty() {
        return err("Missing repo_url");
    }
    if !is_valid_repo_url(repo_url) {
        return err("Invalid repo_url: must use https://, http://, ssh://, or git@ protocol");
    }
    if !is_valid_branch(branch) {
        return err("Invalid branch name");
    }
    Ok(())
}

/// The checks `/git/build` runs.
pub fn check_build(name: &str, dockerfile: &str, build_context: &str) -> (r: Result<(), String>)
    ensures
        !name_ok(name@) ==> (r matches Err(m) && m@ == "Invalid name"@),
        name_ok(name@) && !repo_path_ok(dockerfile@) ==> (r matches Err(m) && m@ == "Invalid dockerfile path"@),
        name_ok(name@) && repo_path_ok(dockerfile@) && !repo_path_ok(build_context@) ==>
            (r matches Err(m) && m@ == "Invalid build_context path"@),
        name_ok(name@) && repo_path_ok(dockerfile@) && repo_path_ok(build_context@) ==> r is Ok,
{
    if !is_valid_name(name) {
        return err("Invalid name");
    }
    if !is_valid_dockerfile(dockerfile) {
        return err("Invalid dockerfile path");
    }
    if !is_valid_build_context(build_context) {
        return err("Invalid build_context path");
    }
    Ok(())
}

/// The checks `/git/deploy` runs.
pub fn check_deploy(name: &str, image_tag: &str, container_port: u16, host_port: u16, domain: Option<&str>) -> (r: Result<(), String>)
    ensures
        ({
            let tag_ok = "dockpanel-git-"@.is_prefix_of(image_tag@) && !image_tag@.contains('/');
            let dom_bad = domain matches Some(d) && d@.len() > 0 && !nginx_domain_ok(d@);
            if !name_ok(name@) {
                r matches Err(m) && m@ == "Invalid name"@
            } else if !tag_ok {
                r matches Err(m) && m@ == "Invalid image_tag: must start with dockpanel-git- and not contain /"@
            } else if container_port == 0 || host_port == 0 {
                r matches Err(m) && m@ == "Invalid port"@
            } else if dom_bad {
                r matches Err(m) && m@ == "Invalid domain"@
            } else {
                r is Ok
            }
        }),
{
    if !is_valid_name(name) {
        return err("Invalid name");
    }
    if !is_valid_image_tag(image_tag) {
        return err("Invalid image_tag: must start with dockpanel-git- and not contain /");
    }
    if container_port == 0 || host_port == 0 {
        return err("Invalid port");
    }
    match domain {
        Some(d) => {
            if !d.is_empty() && !is_safe_nginx_domain(d) {
                return err("Invalid domain");
            }
        },
        None => {},
    }
    Ok(())
}

/// The checks `/git/cleanup` runs.
pub fn check_cleanup(name: &str, domain: Option<&str>) -> (r: Result<(), String>)
    ensures
        !name_ok(name@) ==> (r matches Err(m) && m@ == "Invalid name"@),
        name_ok(name@) && (domain matches Some(d) && d@.len() > 0 && !nginx_domain_ok(d@)) ==>
            (r matches Err(m) && m@ == "Invalid domain"@),
        name_ok(name@) && !(domain matches Some(d) && d@.len() > 0 && !nginx_domain_ok(d@)) ==> r is Ok,
{
    if !is_valid_name(name) {
        return err("Invalid name");
    }
    match domain {
        Some(d) => {
            if !d.is_empty() && !is_safe_nginx_domain(d) {
                return err("Invalid domain");
            }
        },
        None => {},
    }
    Ok(())
}

/// The check `/git/release-domain` runs.
pub fn check_release_domain(domain: &str) -> (r: Result<(), String>)
    ensures
        !nginx_domain_ok(domain@) ==> (r matches Err(m) && m@ == "Invalid domain"@),
        nginx_domain_ok(domain@) ==> r is Ok,
{
    if domain.is_empty() || !is_safe_nginx_domain(domain) {
        return err("Invalid domain");
    }
    Ok(())
}

/// The commands a pre-build hook may run on the host.
pub open spec fn allowed_pre_build() -> Seq<Seq<char>> {
    seq!["npm install"@, "npm ci"@, "yarn install"@, "pnpm install"@, "composer install"@,
        "bundle install"@, "pip install -r requirements.txt"@, "pip3 install -r requirements.txt"@,
        "cargo build --release"@]
}

pub open spec fn pre_build_refusal() -> Seq<char> {
    "Command not allowed. Permitted commands: npm install, npm ci, yarn install, pnpm install, composer install, bundle install, pip install -r requirements.txt, pip3 install -r requirements.txt, cargo build --release"@
}

/// The checks `/git/pre-build-hook` runs before it looks for the repository.
pub fn check_pre_build_hook(name: &str, command: &str) -> (r: Result<(), String>)
    ensures
        !name_ok(name@) ==> (r matches Err(m) && m@ == "Invalid name"@),
        name_ok(name@) && command@.len() == 0 ==> (r matches Err(m) && m@ == "Empty command"@),
        name_ok(name@) && command@.len() > 0 && !allowed_pre_build().contains(command@) ==>
            (r matches Err(m) && m@ == pre_build_refusal()),
        name_ok(name@) && command@.len() > 0 && allowed_pre_build().contains(command@) ==> r is Ok,
{
    if !is_valid_name(name) {
        return err("Invalid name");
    }
    if command.is_empty() {
        return err("Empty command");
    }
    let c = chars_of(command);
    let allowed: [&str; 9] = ["npm install", "npm ci", "yarn install", "pnpm install", "composer install",
        "bundle install", "pip install -r requirements.txt", "pip3 install -r requirements.txt", "cargo build --release"];
    let ghost a = allowed_pre_build();
    assert(forall|k: int| 0 <= k < 9 ==> #[trigger] allowed@[k]@ == a[k]);
    let mut i: usize = 0;
    while i < 9
        invariant
            i <= 9,
            c@ == command@,
            name_ok(name@),
            command@.len() > 0,
            a == allowed_pre_build(),
            forall|k: int| 0 <= k < 9 ==> #[trigger] allowed@[k]@ == a[k],
            forall|k: int| 0 <= k < i ==> a[k] != command@,
        decreases 9 - i,
    {
        if eq_v(&c, &chars_of(allowed[i])) {
            assert(a[i as int] == command@);
            return Ok(());
        }
        i += 1;
    }
    assert(!a.contains(command@));
    err("Command not allowed. Permitted commands: npm install, npm ci, yarn install, pnpm install, composer install, bundle install, pip install -r requirements.txt, pip3 install -r requirements.txt, cargo build --release")
}

/// The checks `/git/hook` runs; `command_safe` is the hook command filter's
/// verdict on the command.
pub fn check_hook(name: &str, command: &str, command_safe: bool) -> (r: Result<(), String>)
    ensures
        !name_ok(name@) ==> (r matches Err(m) && m@ == "Invalid name"@),
        name_ok(name@) && command@.len() == 0 ==> (r matches Err(m) && m@ == "Empty command"@),
        name_ok(name@) && command@.len() > 0 && !command_safe ==>
            (r matches Err(m) && m@ == "Command contains disallowed characters or patterns"@),
        name_ok(name@) && command@.len() > 0 && command_safe ==> r is Ok,
{
    if !is_valid_name(name) {
        return err("Invalid name");
    }
    if command.is_empty() {
        return err("Empty command");
    }
    if !command_safe {
        return err("Command contains disallowed characters or patterns");
    }
    Ok(())
}

/// The container a git deploy runs as: `dockpanel-git-{scoped name}`.
pub fn container_name(scoped: &str) -> (r: String)
    ensures r@ == "dockpanel-git-"@ + scoped@,
{
    let mut v = chars_of("dockpanel-git-");
    append(&mut v, &chars_of(scoped));
    string_of(&v)
}

/// Where a build context lives: the checkout itself for `.`, else the
/// context below it.
pub fn context_dir(name: &str, build_context: &str) -> (r: String)
    ensures
        r@ == (if build_context@ == "."@ { "/var/lib/dockpanel/git/"@ + name@ }
            else { "/var/lib/dockpanel/git/"@ + name@ + seq!['/'] + build_context@ }),
{
    let mut v = chars_of("/var/lib/dockpanel/git/");
    append(&mut v, &chars_of(name));
    if !eq_v(&chars_of(build_context), &chars_of(".")) {
        v.push('/');
        append(&mut v, &chars_of(build_context));
    }
    string_of(&v)
}

/// The compose file names a repository is searched for, in order.
pub fn compose_candidates() -> (r: Vec<&'static str>)
    ensures r@.len() == 4, r@[0]@ == "docker-compose.yml"@, r@[1]@ == "docker-compose.yaml"@,
        r@[2]@ == "compose.yml"@, r@[3]@ == "compose.yaml"@,
{
    vec!["docker-compose.yml", "docker-compose.yaml", "compose.yml", "compose.yaml"]
}

} // verus!
