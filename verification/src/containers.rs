//! Container routes beyond the deploy: compose validation findings, stack
//! actions, mounts, images, snapshots, limits, registries and the models
//! of an Ollama container.
use vstd::prelude::*;
use crate::apps::{image_ref_ok, is_valid_image_ref};
use crate::server_utils::{capped_len_v, utf8_len};
use crate::text::{
    alnum, append, chars_of, contains, decimal, decimal_v, eq_v, find_from_v, is_alnum, join, join_v, lemma_find_from,
    lemma_split_on_len, lemma_views_push, lines, lines_v, slice, split_on, split_v, starts_with_v, str_views, string_of,
    trim, trim_v, views, ws_tokens, ws_tokens_v, parse_u64, parse_u64_v, unicode_alphanumeric, is_alphanumeric,
};

verus! {

fn text(s: &str) -> (r: String)
    ensures r@ == s@,
{
    string_of(&chars_of(s))
}

fn holds(s: &Vec<char>, p: &str) -> (r: bool)
    ensures r == contains(s@, p@),
{
    proof { lemma_find_from(s@, p@, 0); }
    find_from_v(s, &chars_of(p), 0).is_some()
}

fn is(s: &str, l: &str) -> (r: bool)
    ensures r == (s@ == l@),
{
    eq_v(&chars_of(s), &chars_of(l))
}

/// The first `n` characters of `s`.
pub open spec fn first_chars(s: Seq<char>, n: nat) -> Seq<char> {
    if s.len() <= n { s } else { s.take(n as int) }
}

fn first_chars_v(s: &str, n: usize) -> (r: String)
    ensures r@ == first_chars(s@, n as nat),
{
    let v = chars_of(s);
    let k = if v.len() <= n { v.len() } else { n };
    let c = slice(&v, 0, k);
    assert(c@ =~= first_chars(s@, n as nat));
    string_of(&c)
}

// ── compose validation ──────────────────────────────────────────────────

/// What validation reads of a parsed compose service.
pub struct ServiceSummary {
    pub key: String,
    pub image: String,
    /// The host ports it publishes.
    pub host_ports: Vec<u16>,
    pub has_volumes: bool,
    pub restart: String,
    pub has_environment: bool,
}

/// A finding: the service it concerns, if any, and the sentence.
pub struct Finding {
    pub service: Option<String>,
    pub message: String,
}

/// The findings of a validation.
pub struct ComposeReport {
    pub valid: bool,
    pub errors: Vec<Finding>,
    pub warnings: Vec<Finding>,
    pub info: Vec<Finding>,
}

pub open spec fn finding_view(f: Finding) -> (Option<Seq<char>>, Seq<char>) {
    (match f.service { Some(s) => Some(s@), None => None }, f.message@)
}

pub open spec fn findings_view(v: Seq<Finding>) -> Seq<(Option<Seq<char>>, Seq<char>)> {
    Seq::new(v.len(), |i: int| finding_view(v[i]))
}

pub open spec fn database_image(image: Seq<char>) -> bool {
    contains(image, "postgres"@) || contains(image, "mysql"@) || contains(image, "mariadb"@)
        || contains(image, "mongo"@) || contains(image, "redis"@)
}

pub open spec fn unpinned(image: Seq<char>) -> bool {
    ":latest"@.is_suffix_of(image) || !image.contains(':')
}

pub open spec fn privileged(p: u16) -> bool {
    p < 1024 && p != 80 && p != 443
}

pub open spec fn latest_msg() -> Seq<char> {
    "Using ':latest' tag — pin to a specific version for reproducible deploys"@
}

pub open spec fn privileged_msg(p: u16) -> Seq<char> {
    "Privileged port "@ + decimal(p as nat) + " — consider using a higher port"@
}

pub open spec fn no_volumes_msg() -> Seq<char> {
    "Database service without volumes — data will be lost on container restart"@
}

pub open spec fn no_restart_msg() -> Seq<char> {
    "No restart policy — container won't auto-restart. Consider 'unless-stopped'"@
}

pub open spec fn no_env_msg() -> Seq<char> {
    "Database without environment variables — password/root may use defaults"@
}

pub open spec fn tabs_msg() -> Seq<char> {
    "YAML contains tabs — use spaces for indentation to avoid parse errors"@
}

/// The port warnings of one service, in the order its ports are listed.
pub open spec fn port_warnings(key: Seq<char>, ports: Seq<u16>) -> Seq<(Option<Seq<char>>, Seq<char>)>
    decreases ports.len(),
{
    if ports.len() == 0 {
        Seq::empty()
    } else {
        let p = port_warnings(key, ports.drop_last());
        if privileged(ports.last()) { p.push((Some(key), privileged_msg(ports.last()))) } else { p }
    }
}

/// The warnings one service earns: an unpinned image, each privileged
/// port, a database without volumes, a database without environment.
pub open spec fn service_warnings(s: ServiceSummary) -> Seq<(Option<Seq<char>>, Seq<char>)> {
    let k = s.key@;
    (if unpinned(s.image@) { seq![(Some(k), latest_msg())] } else { Seq::empty() })
        + port_warnings(k, s.host_ports@)
        + (if database_image(s.image@) && !s.has_volumes { seq![(Some(k), no_volumes_msg())] } else { Seq::empty() })
        + (if !s.has_environment && database_image(s.image@) { seq![(Some(k), no_env_msg())] } else { Seq::empty() })
}

pub open spec fn service_info(s: ServiceSummary) -> Seq<(Option<Seq<char>>, Seq<char>)> {
    if s.restart@.len() == 0 || s.restart@ == "no"@ { seq![(Some(s.key@), no_restart_msg())] } else { Seq::empty() }
}

pub open spec fn all_warnings(ss: Seq<ServiceSummary>) -> Seq<(Option<Seq<char>>, Seq<char>)>
    decreases ss.len(),
{
    if ss.len() == 0 { Seq::empty() } else { all_warnings(ss.drop_last()) + service_warnings(ss.last()) }
}

pub open spec fn all_info(ss: Seq<ServiceSummary>) -> Seq<(Option<Seq<char>>, Seq<char>)>
    decreases ss.len(),
{
    if ss.len() == 0 { Seq::empty() } else { all_info(ss.drop_last()) + service_info(ss.last()) }
}

/// Every service whose image is tagged `:latest`, or carries no tag at all,
/// draws the latest-tag warning under its own name.
pub proof fn law_unpinned_images_are_warned(ss: Seq<ServiceSummary>)
    ensures
        forall|j: int| 0 <= j < ss.len()
            && (":latest"@.is_suffix_of((#[trigger] ss[j]).image@) || !ss[j].image@.contains(':')) ==>
            all_warnings(ss).contains((Some(ss[j].key@), latest_msg())),
    decreases ss.len(),
{
    if ss.len() > 0 {
        let init = ss.drop_last();
        law_unpinned_images_are_warned(init);
        let last = ss.last();
        let pre = all_warnings(init);
        let sw = service_warnings(last);
        assert(all_warnings(ss) == pre + sw);
        assert forall|j: int| 0 <= j < ss.len()
            && (":latest"@.is_suffix_of((#[trigger] ss[j]).image@) || !ss[j].image@.contains(':')) implies
            all_warnings(ss).contains((Some(ss[j].key@), latest_msg())) by {
            let m = (Some(ss[j].key@), latest_msg());
            if j < ss.len() - 1 {
                assert(init[j] == ss[j]);
                assert(pre.contains(m));
                let v = choose|v: int| 0 <= v < pre.len() && pre[v] == m;
                assert((pre + sw)[v] == m);
            } else {
                assert(unpinned(last.image@));
                assert(sw[0] == m);
                assert((pre + sw)[pre.len() as int] == m);
            }
        }
    }
}

fn finding(service: &String, message: String) -> (r: Finding)
    ensures finding_view(r) == (Some(service@), message@),
{
    Finding { service: Some(text(service.as_str())), message }
}

fn push_finding(v: &mut Vec<Finding>, f: Finding)
    ensures findings_view(final(v)@) == findings_view(old(v)@).push(finding_view(f)),
{
    let ghost before = v@;
    v.push(f);
    assert(findings_view(v@) =~= findings_view(before).push(finding_view(f)));
}

fn add_service(warnings: &mut Vec<Finding>, info: &mut Vec<Finding>, s: &ServiceSummary)
    ensures
        findings_view(final(warnings)@) == findings_view(old(warnings)@) + service_warnings(*s),
        findings_view(final(info)@) == findings_view(old(info)@) + service_info(*s),
{
    let img = chars_of(s.image.as_str());
    let ghost w0 = findings_view(warnings@);
    let ghost k = s.key@;
    if crate::text::ends_with_v(&img, &chars_of(":latest")) || !crate::text::has_char(&img, ':') {
        push_finding(warnings, finding(&s.key, text("Using ':latest' tag — pin to a specific version for reproducible deploys")));
    }
    let ghost w1 = findings_view(warnings@);
    assert(w1 == w0 + (if unpinned(s.image@) { seq![(Some(k), latest_msg())] } else { Seq::empty() }));
    let mut i: usize = 0;
    while i < s.host_ports.len()
        invariant
            i <= s.host_ports.len(),
            k == s.key@,
            findings_view(warnings@) == w1 + port_warnings(k, s.host_ports@.take(i as int)),
        decreases s.host_ports.len() - i,
    {
        let p = s.host_ports[i];
        assert(s.host_ports@.take(i + 1).drop_last() =~= s.host_ports@.take(i as int));
        if p < 1024 && p != 80 && p != 443 {
            let mut m = chars_of("Privileged port ");
            append(&mut m, &decimal_v(p as u64));
            append(&mut m, &chars_of(" — consider using a higher port"));
            push_finding(warnings, finding(&s.key, string_of(&m)));
        }
        i += 1;
    }
    assert(s.host_ports@.take(s.host_ports.len() as int) =~= s.host_ports@);
    let db = holds(&img, "postgres") || holds(&img, "mysql") || holds(&img, "mariadb") || holds(&img, "mongo")
        || holds(&img, "redis");
    let ghost w2 = findings_view(warnings@);
    if db && !s.has_volumes {
        push_finding(warnings, finding(&s.key, text("Database service without volumes — data will be lost on container restart")));
    }
    let ghost w3 = findings_view(warnings@);
    let r = chars_of(s.restart.as_str());
    if r.len() == 0 || eq_v(&r, &chars_of("no")) {
        push_finding(info, finding(&s.key, text("No restart policy — container won't auto-restart. Consider 'unless-stopped'")));
    }
    if !s.has_environment && db {
        push_finding(warnings, finding(&s.key, text("Database without environment variables — password/root may use defaults")));
    }
    assert(findings_view(warnings@) =~= w0 + service_warnings(*s));
}

/// The findings of validating a compose file: a parse error is the only
/// error; otherwise the service count as information, then each service's
/// findings in order; tabs in the YAML are always a warning.
pub fn compose_report(parsed: Result<Vec<ServiceSummary>, String>, yaml: &str) -> (r: ComposeReport)
    ensures
        ({
            let tabs = if yaml@.contains('\t') { seq![(None::<Seq<char>>, tabs_msg())] } else { Seq::empty() };
            match parsed {
                Ok(ss) => {
                    &&& r.valid
                    &&& r.errors@.len() == 0
                    &&& findings_view(r.info@) == seq![(None::<Seq<char>>, decimal(ss@.len()) + " service(s) found"@)] + all_info(ss@)
                    &&& findings_view(r.warnings@) == all_warnings(ss@) + tabs
                },
                Err(e) => {
                    &&& !r.valid
                    &&& findings_view(r.errors@) == seq![(None::<Seq<char>>, e@)]
                    &&& r.info@.len() == 0
                    &&& findings_view(r.warnings@) == tabs
                },
            }
        }),
{
    let mut errors: Vec<Finding> = Vec::new();
    let mut warnings: Vec<Finding> = Vec::new();
    let mut info: Vec<Finding> = Vec::new();
    let ghost g = parsed;
    match parsed {
        Ok(ss) => {
            let mut m = decimal_v(ss.len() as u64);
            append(&mut m, &chars_of(" service(s) found"));
            push_finding(&mut info, Finding { service: None, message: string_of(&m) });
            let mut i: usize = 0;
            assert(ss@.take(0) =~= Seq::<ServiceSummary>::empty());
            assert(findings_view(warnings@) =~= Seq::empty());
            while i < ss.len()
                invariant
                    i <= ss.len(),
                    errors@.len() == 0,
                    findings_view(info@) == seq![(None::<Seq<char>>, decimal(ss@.len()) + " service(s) found"@)]
                        + all_info(ss@.take(i as int)),
                    findings_view(warnings@) == all_warnings(ss@.take(i as int)),
                decreases ss.len() - i,
            {
                assert(ss@.take(i + 1).drop_last() =~= ss@.take(i as int));
                add_service(&mut warnings, &mut info, &ss[i]);
                i += 1;
            }
            assert(ss@.take(ss.len() as int) =~= ss@);
        },
        Err(e) => {
            push_finding(&mut errors, Finding { service: None, message: e });
            assert(findings_view(errors@).len() == errors@.len());
            assert(findings_view(warnings@) =~= Seq::empty());
        },
    }
    let ghost w = findings_view(warnings@);
    let yv = chars_of(yaml);
    if crate::text::has_char(&yv, '\t') {
        push_finding(&mut warnings, Finding { service: None, message: text("YAML contains tabs — use spaces for indentation to avoid parse errors") });
    }
    assert(findings_view(warnings@) =~= w + (if yaml@.contains('\t') { seq![(None::<Seq<char>>, tabs_msg())] } else { Seq::empty() }));
    let valid = errors.len() == 0;
    proof {
        match g {
            Ok(ss) => {
                assert(valid);
                assert(findings_view(warnings@) == all_warnings(ss@) + (if yaml@.contains('\t') { seq![(None::<Seq<char>>, tabs_msg())] } else { Seq::empty() }));
            },
            Err(e) => {
                assert(!valid);
            },
        }
    }
    ComposeReport { valid, errors, warnings, info }
}

// ── stacks ──────────────────────────────────────────────────────────────

pub open spec fn no_port_msg() -> Seq<char> {
    "This stack publishes no host port, so there is nothing for the domain to point at. Add a 'ports:' entry to the service you want reachable."@
}

/// The first published port of the first service that publishes any.
pub open spec fn first_published(ports: Seq<Seq<u16>>) -> Option<u16>
    decreases ports.len(),
{
    if ports.len() == 0 {
        None
    } else if ports[0].len() > 0 {
        Some(ports[0][0])
    } else {
        first_published(ports.skip(1))
    }
}

/// The port a stack's domain points at: the one asked for, else the first
/// the stack publishes; without a domain there is none, and a domain with
/// nothing to point at is refused before anything runs.
pub fn stack_expose_port(has_domain: bool, expose_port: Option<u16>, service_ports: &Vec<Vec<u16>>) -> (r: Result<Option<u16>, String>)
    ensures
        !has_domain ==> r == Ok::<Option<u16>, String>(None),
        has_domain ==> match (match expose_port { Some(p) => Some(p), None => first_published(Seq::new(service_ports@.len(), |i: int| service_ports@[i]@)) }) {
            Some(p) => r == Ok::<Option<u16>, String>(Some(p)),
            None => r matches Err(m) && m@ == no_port_msg(),
        },
{
    if !has_domain {
        return Ok(None);
    }
    if let Some(p) = expose_port {
        return Ok(Some(p));
    }
    let ghost all = Seq::new(service_ports@.len(), |i: int| service_ports@[i]@);
    let mut i: usize = 0;
    assert(all.skip(0) =~= all);
    while i < service_ports.len()
        invariant
            i <= service_ports.len(),
            has_domain,
            expose_port is None,
            all == Seq::new(service_ports@.len(), |k: int| service_ports@[k]@),
            first_published(all) == first_published(all.skip(i as int)),
        decreases service_ports.len() - i,
    {
        assert(all.skip(i as int)[0] == service_ports@[i as int]@);
        assert(all.skip(i as int).skip(1) =~= all.skip(i + 1));
        if service_ports[i].len() > 0 {
            return Ok(Some(service_ports[i][0]));
        }
        i += 1;
    }
    assert(all.skip(i as int) =~= Seq::<Seq<u16>>::empty());
    Err(text("This stack publishes no host port, so there is nothing for the domain to point at. Add a 'ports:' entry to the service you want reachable."))
}

/// A stack is fronted only when a service stayed running.
pub fn stack_came_up(statuses: &Vec<String>) -> (r: bool)
    ensures r == exists|i: int| 0 <= i < statuses@.len() && #[trigger] statuses@[i]@ == "running"@,
{
    let mut i: usize = 0;
    while i < statuses.len()
        invariant
            i <= statuses.len(),
            forall|k: int| 0 <= k < i ==> #[trigger] statuses@[k]@ != "running"@,
        decreases statuses.len() - i,
    {
        if is(statuses[i].as_str(), "running") {
            return true;
        }
        i += 1;
    }
    false
}

/// The lifecycle actions a stack takes.
#[derive(Debug, Clone, Copy, PartialEq, Eq, Structural)]
pub enum StackAction {
    Start,
    Stop,
    Restart,
    Remove,
}

/// The action a request names, if it is one of the four.
pub open spec fn stack_action_of(a: Seq<char>) -> Option<StackAction> {
    if a == "start"@ {
        Some(StackAction::Start)
    } else if a == "stop"@ {
        Some(StackAction::Stop)
    } else if a == "restart"@ {
        Some(StackAction::Restart)
    } else if a == "remove"@ {
        Some(StackAction::Remove)
    } else {
        None
    }
}

pub fn stack_action(action: &str) -> (r: Result<StackAction, String>)
    ensures
        match stack_action_of(action@) {
            Some(a) => r == Ok::<StackAction, String>(a),
            None => r matches Err(m) && m@ == "Action must be start, stop, restart, or remove"@,
        },
{
    if is(action, "start") {
        Ok(StackAction::Start)
    } else if is(action, "stop") {
        Ok(StackAction::Stop)
    } else if is(action, "restart") {
        Ok(StackAction::Restart)
    } else if is(action, "remove") {
        Ok(StackAction::Remove)
    } else {
        Err(text("Action must be start, stop, restart, or remove"))
    }
}

/// The status a container reports after a stack action.
pub fn action_status(a: StackAction, ok: bool) -> (r: &'static str)
    ensures
        r@ == (if !ok { "failed"@ } else {
            match a {
                StackAction::Start => "started"@,
                StackAction::Stop => "stopped"@,
                StackAction::Restart => "restarted"@,
                StackAction::Remove => "removed"@,
            }
        }),
{
    if !ok {
        return "failed";
    }
    match a {
        StackAction::Start => "started",
        StackAction::Stop => "stopped",
        StackAction::Restart => "restarted",
        StackAction::Remove => "removed",
    }
}

// ── mounts ──────────────────────────────────────────────────────────────

/// A mount as `docker inspect` formats it: source, destination, type.
pub struct Mount {
    pub source: String,
    pub destination: String,
    pub kind: String,
}

pub open spec fn mount_of(l: Seq<char>) -> Option<(Seq<char>, Seq<char>, Seq<char>)> {
    let p = split_on(l, '|');
    if p.len() >= 3 { Some((p[0], p[1], p[2])) } else { None }
}

pub open spec fn mounts_of(ls: Seq<Seq<char>>, n: nat) -> Seq<(Seq<char>, Seq<char>, Seq<char>)>
    decreases n,
{
    if n == 0 || n > ls.len() {
        Seq::empty()
    } else {
        let p = mounts_of(ls, (n - 1) as nat);
        match mount_of(ls[n - 1]) { Some(m) => p.push(m), None => p }
    }
}

pub fn parse_mounts(stdout: &str) -> (r: Vec<Mount>)
    ensures
        r@.len() == mounts_of(lines(stdout@), lines(stdout@).len()).len(),
        forall|i: int| 0 <= i < r@.len() ==>
            (#[trigger] r@[i]).source@ == mounts_of(lines(stdout@), lines(stdout@).len())[i].0
            && r@[i].destination@ == mounts_of(lines(stdout@), lines(stdout@).len())[i].1
            && r@[i].kind@ == mounts_of(lines(stdout@), lines(stdout@).len())[i].2,
{
    let ls = lines_v(&chars_of(stdout));
    let mut out: Vec<Mount> = Vec::new();
    let mut k: usize = 0;
    while k < ls.len()
        invariant
            k <= ls.len(),
            views(ls@) == lines(stdout@),
            out@.len() == mounts_of(lines(stdout@), k as nat).len(),
            forall|i: int| 0 <= i < out@.len() ==>
                (#[trigger] out@[i]).source@ == mounts_of(lines(stdout@), k as nat)[i].0
                && out@[i].destination@ == mounts_of(lines(stdout@), k as nat)[i].1
                && out@[i].kind@ == mounts_of(lines(stdout@), k as nat)[i].2,
        decreases ls.len() - k,
    {
        assert(ls@[k as int]@ == lines(stdout@)[k as int]);
        let p = split_v(&ls[k], '|');
        if p.len() >= 3 {
            assert(views(p@)[0] == p@[0]@ && views(p@)[1] == p@[1]@ && views(p@)[2] == p@[2]@);
            out.push(Mount { source: string_of(&p[0]), destination: string_of(&p[1]), kind: string_of(&p[2]) });
        }
        k += 1;
    }
    out
}

/// The size `du -sb` reports: its first word as a number, else 0 (an
/// empty answer reads as "0").
pub fn du_size(stdout: &str) -> (r: u64)
    ensures
        r == (if ws_tokens(stdout@).len() == 0 {
            0
        } else {
            match parse_u64(ws_tokens(stdout@)[0]) { Some(v) => v, None => 0 }
        }),
{
    let t = ws_tokens_v(&chars_of(stdout));
    if t.len() == 0 {
        return 0;
    }
    assert(views(t@)[0] == t@[0]@);
    match parse_u64_v(&t[0]) {
        Some(v) => v,
        None => 0,
    }
}

/// The first 20 lines of a listing, joined by newlines.
pub fn listing_head(listing: &str) -> (r: String)
    ensures r@ == join(lines(listing@).take(if lines(listing@).len() < 20 { lines(listing@).len() as int } else { 20 }), seq!['\n']),
{
    let ls = lines_v(&chars_of(listing));
    let n = if ls.len() < 20 { ls.len() } else { 20 };
    let mut head: Vec<Vec<char>> = Vec::new();
    let mut i: usize = 0;
    while i < n
        invariant
            i <= n <= ls.len(),
            views(ls@) == lines(listing@),
            views(head@) == lines(listing@).take(i as int),
        decreases n - i,
    {
        let c = slice(&ls[i], 0, ls[i].len());
        assert(c@ =~= lines(listing@)[i as int]);
        proof { lemma_views_push(head@, c); }
        head.push(c);
        i += 1;
        assert(views(head@) =~= lines(listing@).take(i as int));
    }
    let nl = vec!['\n'];
    assert(nl@ =~= seq!['\n']);
    string_of(&join_v(&head, &nl))
}

// ── images ──────────────────────────────────────────────────────────────

/// An image as `docker images` formats it.
pub struct ImageRow {
    pub repository: String,
    pub tag: String,
    pub id: String,
    pub size: String,
    pub created: String,
}

pub open spec fn part(p: Seq<Seq<char>>, i: int) -> Seq<char> {
    if i < p.len() { p[i] } else { Seq::empty() }
}

pub open spec fn image_rows(ls: Seq<Seq<char>>, n: nat) -> Seq<Seq<char>>
    decreases n,
{
    if n == 0 || n > ls.len() {
        Seq::empty()
    } else {
        let p = image_rows(ls, (n - 1) as nat);
        if ls[n - 1].len() > 0 { p.push(ls[n - 1]) } else { p }
    }
}

pub open spec fn image_row_ok(r: ImageRow, l: Seq<char>) -> bool {
    let p = split_on(l, '|');
    r.repository@ == part(p, 0) && r.tag@ == part(p, 1) && r.id@ == part(p, 2) && r.size@ == part(p, 3)
        && r.created@ == part(p, 4)
}

fn part_v(p: &Vec<Vec<char>>, i: usize) -> (r: String)
    ensures r@ == part(views(p@), i as int),
{
    if i < p.len() { string_of(&p[i]) } else { String::new() }
}

/// The images `docker images` listed, one per non-empty line.
pub fn parse_images(stdout: &str) -> (r: Vec<ImageRow>)
    ensures
        r@.len() == image_rows(lines(stdout@), lines(stdout@).len()).len(),
        forall|i: int| 0 <= i < r@.len() ==>
            image_row_ok(#[trigger] r@[i], image_rows(lines(stdout@), lines(stdout@).len())[i]),
{
    let ls = lines_v(&chars_of(stdout));
    let mut out: Vec<ImageRow> = Vec::new();
    let mut k: usize = 0;
    while k < ls.len()
        invariant
            k <= ls.len(),
            views(ls@) == lines(stdout@),
            out@.len() == image_rows(lines(stdout@), k as nat).len(),
            forall|i: int| 0 <= i < out@.len() ==> image_row_ok(#[trigger] out@[i], image_rows(lines(stdout@), k as nat)[i]),
        decreases ls.len() - k,
    {
        assert(ls@[k as int]@ == lines(stdout@)[k as int]);
        if ls[k].len() > 0 {
            let p = split_v(&ls[k], '|');
            out.push(ImageRow {
                repository: part_v(&p, 0),
                tag: part_v(&p, 1),
                id: part_v(&p, 2),
                size: part_v(&p, 3),
                created: part_v(&p, 4),
            });
        }
        k += 1;
    }
    out
}

/// An image id a removal accepts: 1 to 256 characters, ASCII letters and
/// digits, `:`, `/`, `.`, `-` and `_`.
pub open spec fn image_id_ok(id: Seq<char>) -> bool {
    0 < id.len() <= 256
        && forall|k: int| 0 <= k < id.len() ==> is_alnum(#[trigger] id[k]) || id[k] == ':' || id[k] == '/'
            || id[k] == '.' || id[k] == '-' || id[k] == '_'
}

pub fn is_valid_image_id(id: &str) -> (r: bool)
    ensures r == image_id_ok(id@),
{
    let v = chars_of(id);
    if v.len() == 0 || v.len() > 256 {
        return false;
    }
    let mut i: usize = 0;
    while i < v.len()
        invariant
            i <= v.len(),
            v@ == id@,
            forall|k: int| 0 <= k < i ==> is_alnum(#[trigger] v@[k]) || v@[k] == ':' || v@[k] == '/'
                || v@[k] == '.' || v@[k] == '-' || v@[k] == '_',
        decreases v.len() - i,
    {
        let c = v[i];
        if !(alnum(c) || c == ':' || c == '/' || c == '.' || c == '-' || c == '_') {
            return false;
        }
        i += 1;
    }
    true
}

/// The refusal a failed image removal or registry login answers with:
/// `prefix` and the first 200 characters of the tool's error output.
pub fn tool_refusal(prefix: &str, stderr: &str) -> (r: String)
    ensures r@ == prefix@ + first_chars(stderr@, 200),
{
    let mut v = chars_of(prefix);
    append(&mut v, &chars_of(first_chars_v(stderr, 200).as_str()));
    string_of(&v)
}

// ── snapshots ───────────────────────────────────────────────────────────

pub open spec fn tag_char(c: char) -> bool {
    is_alnum(c) || c == '-' || c == '_' || c == '.'
}

pub open spec fn tag_chars(s: Seq<char>) -> Seq<char>
    decreases s.len(),
{
    if s.len() == 0 {
        Seq::empty()
    } else {
        let p = tag_chars(s.drop_last());
        if tag_char(s.last()) { p.push(s.last()) } else { p }
    }
}

/// The tag a snapshot is committed under: always in the
/// `dockpanel-snapshot:` namespace, its suffix the requested tag (or the
/// time) reduced to letters, digits, `-`, `_` and `.`, at most 128 of them;
/// the time when nothing is left.
pub open spec fn snapshot_tag(requested: Option<Seq<char>>, now: u64) -> Seq<char> {
    let raw = match requested { Some(t) => t, None => decimal(now as nat) };
    let suffix = if "dockpanel-snapshot:"@.is_prefix_of(raw) { raw.skip(19) } else { raw };
    let safe = first_chars(tag_chars(suffix), 128);
    if safe.len() == 0 { "dockpanel-snapshot:"@ + decimal(now as nat) } else { "dockpanel-snapshot:"@ + safe }
}

pub fn snapshot_tag_v(requested: Option<&str>, now: u64) -> (r: String)
    ensures r@ == snapshot_tag(match requested { Some(t) => Some(t@), None => None }, now),
{
    let raw = match requested { Some(t) => chars_of(t), None => decimal_v(now) };
    let prefix = chars_of("dockpanel-snapshot:");
    proof { reveal_strlit("dockpanel-snapshot:"); }
    let suffix = if starts_with_v(&raw, &prefix) { slice(&raw, 19, raw.len()) } else { slice(&raw, 0, raw.len()) };
    assert(suffix@ =~= (if "dockpanel-snapshot:"@.is_prefix_of(raw@) { raw@.skip(19) } else { raw@ }));
    let mut kept: Vec<char> = Vec::new();
    let mut i: usize = 0;
    while i < suffix.len()
        invariant
            i <= suffix.len(),
            kept@ == tag_chars(suffix@.take(i as int)),
        decreases suffix.len() - i,
    {
        assert(suffix@.take(i + 1).drop_last() =~= suffix@.take(i as int));
        let c = suffix[i];
        if alnum(c) || c == '-' || c == '_' || c == '.' {
            kept.push(c);
        }
        i += 1;
    }
    assert(suffix@.take(suffix.len() as int) =~= suffix@);
    let n = if kept.len() <= 128 { kept.len() } else { 128 };
    let safe = slice(&kept, 0, n);
    assert(safe@ =~= first_chars(kept@, 128));
    let mut out = chars_of("dockpanel-snapshot:");
    if safe.len() == 0 {
        append(&mut out, &decimal_v(now));
    } else {
        append(&mut out, &safe);
    }
    string_of(&out)
}

// ── images and limits ───────────────────────────────────────────────────

pub open spec fn bad_image_msg() -> Seq<char> {
    "Invalid image reference: must be <= 256 chars, alphanumeric with / : . - _ @ only, and not start with -"@
}

/// The image a change asks for, trimmed, or its refusal.
pub fn check_new_image(image: Option<&str>) -> (r: Result<String, String>)
    ensures
        ({
            let t = trim(match image { Some(i) => i@, None => ""@ });
            if t.len() == 0 {
                r matches Err(m) && m@ == "image is required"@
            } else if !image_ref_ok(t) {
                r matches Err(m) && m@ == bad_image_msg()
            } else {
                r matches Ok(x) && x@ == t
            }
        }),
{
    let t = string_of(&trim_v(&chars_of(match image { Some(i) => i, None => "" })));
    if t.as_str().is_empty() {
        return Err(text("image is required"));
    }
    if !is_valid_image_ref(t.as_str()) {
        return Err(text("Invalid image reference: must be <= 256 chars, alphanumeric with / : . - _ @ only, and not start with -"));
    }
    Ok(t)
}

/// The memory arguments of `docker update`: the limit, and swap at twice
/// the limit.
pub fn memory_args(memory_mb: u64) -> (r: Vec<String>)
    requires memory_mb * 2 <= u64::MAX,
    ensures
        r@.len() == 2,
        r@[0]@ == "--memory="@ + decimal(memory_mb as nat) + "m"@,
        r@[1]@ == "--memory-swap="@ + decimal((memory_mb * 2) as nat) + "m"@,
{
    let mut a = chars_of("--memory=");
    append(&mut a, &decimal_v(memory_mb));
    append(&mut a, &chars_of("m"));
    let mut b = chars_of("--memory-swap=");
    append(&mut b, &decimal_v(memory_mb * 2));
    append(&mut b, &chars_of("m"));
    vec![string_of(&a), string_of(&b)]
}

// ── registries ──────────────────────────────────────────────────────────

/// The checks a registry login makes before running `docker login`.
pub fn check_registry_login(server: &str, username: &str) -> (r: Result<(), String>)
    ensures
        (server@.len() == 0 || username@.len() == 0) ==> (r matches Err(m) && m@ == "Server and username required"@),
        (server@.len() > 0 && username@.len() > 0 && !image_ref_ok(server@)) ==> (r matches Err(m) && m@ == "Invalid registry server"@),
        (server@.len() > 0 && username@.len() > 0 && image_ref_ok(server@)) ==> r is Ok,
{
    if server.is_empty() || username.is_empty() {
        return Err(text("Server and username required"));
    }
    if !is_valid_image_ref(server) {
        return Err(text("Invalid registry server"));
    }
    Ok(())
}

/// The check a registry logout makes.
pub fn check_registry_logout(server: Option<&str>) -> (r: Result<(), String>)
    ensures
        ({
            let s = match server { Some(s) => s@, None => ""@ };
            if s.len() == 0 {
                r matches Err(m) && m@ == "Server required"@
            } else if !image_ref_ok(s) {
                r matches Err(m) && m@ == "Invalid registry server"@
            } else {
                r is Ok
            }
        }),
{
    let s = match server { Some(s) => s, None => "" };
    if s.is_empty() {
        return Err(text("Server required"));
    }
    if !is_valid_image_ref(s) {
        return Err(text("Invalid registry server"));
    }
    Ok(())
}

// ── Ollama ──────────────────────────────────────────────────────────────

pub open spec fn model_char(c: char) -> bool {
    unicode_alphanumeric(c) || c == '-' || c == '_' || c == ':' || c == '/' || c == '.'
}

/// The model a pull or removal names, trimmed, or its refusal: 1 to 200
/// bytes, not starting with `-`, and only letters, digits and `-_:/.`.
pub open spec fn model_refusal(t: Seq<char>) -> Option<Seq<char>> {
    if t.len() == 0 || utf8_len(t) > 200 || t[0] == '-' {
        Some("Invalid model name"@)
    } else if exists|k: int| 0 <= k < t.len() && !model_char(#[trigger] t[k]) {
        Some("Invalid model name characters"@)
    } else {
        None
    }
}

pub fn check_model_name(model: Option<&str>) -> (r: Result<String, String>)
    ensures
        ({
            let t = trim(match model { Some(m) => m@, None => ""@ });
            match model_refusal(t) {
                Some(e) => r matches Err(x) && x@ == e,
                None => r matches Ok(x) && x@ == t,
            }
        }),
{
    let v = trim_v(&chars_of(match model { Some(m) => m, None => "" }));
    if v.len() == 0 || capped_len_v(&v, 201) > 200 || v[0] == '-' {
        return Err(text("Invalid model name"));
    }
    let ghost t = trim(match model { Some(m) => m@, None => ""@ });
    assert(v@ == t);
    assert(!(t.len() == 0 || utf8_len(t) > 200 || t[0] == '-'));
    let mut i: usize = 0;
    while i < v.len()
        invariant
            i <= v.len(),
            v@ == t,
            t == trim(match model { Some(m) => m@, None => ""@ }),
            !(t.len() == 0 || utf8_len(t) > 200 || t[0] == '-'),
            forall|k: int| 0 <= k < i ==> model_char(#[trigger] v@[k]),
        decreases v.len() - i,
    {
        let c = v[i];
        if !(is_alphanumeric(c) || c == '-' || c == '_' || c == ':' || c == '/' || c == '.') {
            assert(!model_char(t[i as int]));
            assert(model_refusal(t) == Some("Invalid model name characters"@));
            return Err(text("Invalid model name characters"));
        }
        i += 1;
    }
    Ok(string_of(&v))
}

/// A model `ollama list` shows.
pub struct ModelRow {
    pub name: String,
    pub id: String,
    pub size: String,
    pub modified: String,
}

/// The fields of one listing line: name, id, size with its unit, and the
/// rest as the modification time.
pub open spec fn model_of(l: Seq<char>) -> (Seq<char>, Seq<char>, Seq<char>, Seq<char>) {
    let w = ws_tokens(l);
    (
        part(w, 0),
        part(w, 1),
        if w.len() > 2 { w[2] + seq![' '] + part(w, 3) } else { Seq::empty() },
        if w.len() >= 4 { join(w.skip(4), seq![' ']) } else { Seq::empty() },
    )
}

pub open spec fn model_lines(ls: Seq<Seq<char>>, n: nat) -> Seq<Seq<char>>
    decreases n,
{
    if n <= 1 || n > ls.len() {
        Seq::empty()
    } else {
        let p = model_lines(ls, (n - 1) as nat);
        if trim(ls[n - 1]).len() > 0 { p.push(ls[n - 1]) } else { p }
    }
}

fn model_v(l: &Vec<char>) -> (r: ModelRow)
    ensures (r.name@, r.id@, r.size@, r.modified@) == model_of(l@),
{
    let w = ws_tokens_v(l);
    let size = if w.len() > 2 {
        let mut s = slice(&w[2], 0, w[2].len());
        s.push(' ');
        append(&mut s, &chars_of(part_v(&w, 3).as_str()));
        assert(views(w@)[2] == w@[2]@);
        assert(s@ =~= views(w@)[2] + seq![' '] + part(views(w@), 3));
        string_of(&s)
    } else {
        String::new()
    };
    let modified = if w.len() >= 4 {
        let mut rest: Vec<Vec<char>> = Vec::new();
        let mut i: usize = 4;
        while i < w.len()
            invariant
                4 <= i <= w.len(),
                views(rest@) == views(w@).subrange(4, i as int),
            decreases w.len() - i,
        {
            let c = slice(&w[i], 0, w[i].len());
            assert(c@ =~= views(w@)[i as int]);
            proof { lemma_views_push(rest@, c); }
            rest.push(c);
            i += 1;
            assert(views(rest@) =~= views(w@).subrange(4, i as int));
        }
        assert(views(w@).subrange(4, w.len() as int) =~= views(w@).skip(4));
        let sp = vec![' '];
        assert(sp@ =~= seq![' ']);
        string_of(&join_v(&rest, &sp))
    } else {
        String::new()
    };
    ModelRow { name: part_v(&w, 0), id: part_v(&w, 1), size, modified }
}

/// The models `ollama list` printed: every non-blank line after the header.
pub fn parse_models(stdout: &str) -> (r: Vec<ModelRow>)
    ensures
        r@.len() == model_lines(lines(stdout@), lines(stdout@).len()).len(),
        forall|i: int| 0 <= i < r@.len() ==>
            ((#[trigger] r@[i]).name@, r@[i].id@, r@[i].size@, r@[i].modified@)
                == model_of(model_lines(lines(stdout@), lines(stdout@).len())[i]),
{
    let ls = lines_v(&chars_of(stdout));
    let mut out: Vec<ModelRow> = Vec::new();
    let mut k: usize = 1;
    if ls.len() == 0 {
        return out;
    }
    while k < ls.len()
        invariant
            1 <= k <= ls.len(),
            views(ls@) == lines(stdout@),
            out@.len() == model_lines(lines(stdout@), k as nat).len(),
            forall|i: int| 0 <= i < out@.len() ==>
                ((#[trigger] out@[i]).name@, out@[i].id@, out@[i].size@, out@[i].modified@)
                    == model_of(model_lines(lines(stdout@), k as nat)[i]),
        decreases ls.len() - k,
    {
        assert(ls@[k as int]@ == lines(stdout@)[k as int]);
        if trim_v(&ls[k]).len() > 0 {
            out.push(model_v(&ls[k]));
        }
        k += 1;
    }
    out
}

} // verus!
