//! Remote backup destinations: what an upload, a connection test and a
//! prune need from the request, and which remote backups a prune deletes.
use vstd::prelude::*;
use crate::order::{descending, sorted_descending};
use crate::text::{
    append, chars_of, contains, ends_with_v, eq_v, find_from_v, lemma_find_from, lemma_split_on_len, split_on, split_v,
    starts_with_v, str_views, string_of, views,
};

verus! {

/// Where backups go, as the panel sends it.
pub struct DestinationConfig {
    pub dtype: String,
    pub bucket: Option<String>,
    pub region: Option<String>,
    pub endpoint: Option<String>,
    pub access_key: Option<String>,
    pub secret_key: Option<String>,
    pub path_prefix: Option<String>,
    pub host: Option<String>,
    pub port: Option<u16>,
    pub username: Option<String>,
    pub password: Option<String>,
    pub key_path: Option<String>,
    pub remote_path: Option<String>,
}

/// Upload a local backup file to a destination.
pub struct UploadRequest {
    pub filepath: String,
    pub destination: DestinationConfig,
}

/// Test the connection to a destination.
pub struct TestRequest {
    pub destination: DestinationConfig,
}

/// Delete a domain's old remote backups, keeping the newest `retention`.
pub struct PruneRequest {
    pub destination: DestinationConfig,
    pub domain: String,
    pub retention: usize,
}

/// A destination with every field it needs.
pub enum Destination {
    S3 { bucket: String, region: String, endpoint: String, access_key: String, secret_key: String, prefix: String },
    Sftp { host: String, port: u16, username: String, password: Option<String>, key_path: Option<String>, remote_path: String },
}

pub open spec fn opt_view(o: Option<String>) -> Option<Seq<char>> {
    match o { Some(s) => Some(s@), None => None }
}

pub open spec fn or_default(o: Option<String>, d: Seq<char>) -> Seq<char> {
    match o { Some(s) => s@, None => d }
}

/// The first S3 field a destination lacks, by the sentence that names it.
pub open spec fn s3_missing(c: DestinationConfig) -> Option<Seq<char>> {
    if c.bucket is None {
        Some("Missing bucket"@)
    } else if c.endpoint is None {
        Some("Missing endpoint"@)
    } else if c.access_key is None {
        Some("Missing access_key"@)
    } else if c.secret_key is None {
        Some("Missing secret_key"@)
    } else {
        None
    }
}

/// The first SFTP field a destination lacks.
pub open spec fn sftp_missing(c: DestinationConfig) -> Option<Seq<char>> {
    if c.host is None {
        Some("Missing host"@)
    } else if c.username is None {
        Some("Missing username"@)
    } else {
        None
    }
}

/// The S3 destination a complete configuration describes: the region
/// defaults to `us-east-1`, the prefix to nothing.
pub open spec fn s3_of(c: DestinationConfig, d: Destination) -> bool {
    d matches Destination::S3 { bucket, region, endpoint, access_key, secret_key, prefix }
        && Some(bucket@) == opt_view(c.bucket) && region@ == or_default(c.region, "us-east-1"@)
        && Some(endpoint@) == opt_view(c.endpoint) && Some(access_key@) == opt_view(c.access_key)
        && Some(secret_key@) == opt_view(c.secret_key) && prefix@ == or_default(c.path_prefix, ""@)
}

/// The SFTP destination: port 22 and `/backups` unless given.
pub open spec fn sftp_of(c: DestinationConfig, d: Destination) -> bool {
    d matches Destination::Sftp { host, port, username, password, key_path, remote_path }
        && Some(host@) == opt_view(c.host) && port == (match c.port { Some(p) => p, None => 22u16 })
        && Some(username@) == opt_view(c.username) && opt_view(password) == opt_view(c.password)
        && opt_view(key_path) == opt_view(c.key_path) && remote_path@ == or_default(c.remote_path, "/backups"@)
}

fn text(s: &str) -> (r: String)
    ensures r@ == s@,
{
    string_of(&chars_of(s))
}

fn copy(s: &String) -> (r: String)
    ensures r@ == s@,
{
    text(s.as_str())
}

fn copy_opt(o: &Option<String>) -> (r: Option<String>)
    ensures opt_view(r) == opt_view(*o),
{
    match o { Some(s) => Some(copy(s)), None => None }
}

fn s3_from(c: &DestinationConfig) -> (r: Result<Destination, String>)
    ensures
        match s3_missing(*c) {
            Some(m) => r matches Err(e) && e@ == m,
            None => r matches Ok(d) && s3_of(*c, d),
        },
{
    let bucket = match &c.bucket { Some(b) => copy(b), None => return Err(text("Missing bucket")) };
    let region = match &c.region { Some(x) => copy(x), None => text("us-east-1") };
    let endpoint = match &c.endpoint { Some(x) => copy(x), None => return Err(text("Missing endpoint")) };
    let access_key = match &c.access_key { Some(x) => copy(x), None => return Err(text("Missing access_key")) };
    let secret_key = match &c.secret_key { Some(x) => copy(x), None => return Err(text("Missing secret_key")) };
    let prefix = match &c.path_prefix { Some(x) => copy(x), None => text("") };
    Ok(Destination::S3 { bucket, region, endpoint, access_key, secret_key, prefix })
}

fn sftp_from(c: &DestinationConfig) -> (r: Result<Destination, String>)
    ensures
        match sftp_missing(*c) {
            Some(m) => r matches Err(e) && e@ == m,
            None => r matches Ok(d) && sftp_of(*c, d),
        },
{
    let host = match &c.host { Some(x) => copy(x), None => return Err(text("Missing host")) };
    let port = match c.port { Some(p) => p, None => 22 };
    let username = match &c.username { Some(x) => copy(x), None => return Err(text("Missing username")) };
    let remote_path = match &c.remote_path { Some(x) => copy(x), None => text("/backups") };
    Ok(Destination::Sftp {
        host,
        port,
        username,
        password: copy_opt(&c.password),
        key_path: copy_opt(&c.key_path),
        remote_path,
    })
}

/// The destination a configuration names, or the sentence it is refused
/// with; an unknown type is named after `unknown` (the upload and the test
/// word it differently).
pub open spec fn destination_ok(c: DestinationConfig, unknown: Seq<char>, r: Result<Destination, String>) -> bool {
    if c.dtype@ == "s3"@ {
        match s3_missing(c) {
            Some(m) => r matches Err(e) && e@ == m,
            None => r matches Ok(d) && s3_of(c, d),
        }
    } else if c.dtype@ == "sftp"@ {
        match sftp_missing(c) {
            Some(m) => r matches Err(e) && e@ == m,
            None => r matches Ok(d) && sftp_of(c, d),
        }
    } else {
        r matches Err(e) && e@ == unknown + c.dtype@
    }
}

fn destination(c: &DestinationConfig, unknown: &str) -> (r: Result<Destination, String>)
    ensures destination_ok(*c, unknown@, r),
{
    let t = chars_of(c.dtype.as_str());
    if eq_v(&t, &chars_of("s3")) {
        s3_from(c)
    } else if eq_v(&t, &chars_of("sftp")) {
        sftp_from(c)
    } else {
        let mut m = chars_of(unknown);
        append(&mut m, &t);
        Err(string_of(&m))
    }
}

/// A backup path an upload may read: under the backup root, with no `..`.
pub open spec fn backup_path_ok(p: Seq<char>) -> bool {
    "/var/backups/dockpanel/"@.is_prefix_of(p) && !contains(p, ".."@)
}

/// What an upload sends and where, or the sentence it is refused with.
pub fn check_upload(req: &UploadRequest) -> (r: Result<Destination, String>)
    ensures
        !backup_path_ok(req.filepath@) ==> (r matches Err(e) && e@ == "Invalid backup filepath"@),
        backup_path_ok(req.filepath@) ==> destination_ok(req.destination, "Unknown destination type: "@, r),
{
    let f = chars_of(req.filepath.as_str());
    proof { lemma_find_from(f@, ".."@, 0); }
    if !starts_with_v(&f, &chars_of("/var/backups/dockpanel/")) || find_from_v(&f, &chars_of(".."), 0).is_some() {
        return Err(text("Invalid backup filepath"));
    }
    destination(&req.destination, "Unknown destination type: ")
}

/// The destination a connection test probes, or its refusal.
pub fn check_test(req: &TestRequest) -> (r: Result<Destination, String>)
    ensures destination_ok(req.destination, "Unknown type: "@, r),
{
    destination(&req.destination, "Unknown type: ")
}

/// The status an SFTP failure answers with: a missing `sshpass` is a
/// precondition the operator can act on (424); anything else is the
/// transfer failing (500 for an upload, 502 for a test).
pub fn sftp_failure_status(error: &str, sshpass_missing: &str, upload: bool) -> (r: u16)
    ensures r == (if error@ == sshpass_missing@ { 424u16 } else if upload { 500u16 } else { 502u16 }),
{
    if eq_v(&chars_of(error), &chars_of(sshpass_missing)) {
        424
    } else if upload {
        500
    } else {
        502
    }
}

// ── pruning ─────────────────────────────────────────────────────────────

/// How a prune request starts: not supported for this destination type
/// (answered with the sentence), refused for a missing field, or an S3
/// listing to make.
pub enum PruneStart {
    Unsupported(String),
    Refused(String),
    Listing(Destination),
}

pub open spec fn prune_unsupported(dtype: Seq<char>, domain: Seq<char>) -> Seq<char> {
    "Automatic pruning is not supported for "@ + dtype + " destinations. Old backups for '"@ + domain
        + "' must be pruned manually on the remote server."@
}

pub fn start_prune(req: &PruneRequest) -> (r: PruneStart)
    ensures
        req.destination.dtype@ != "s3"@ ==>
            (r matches PruneStart::Unsupported(m) && m@ == prune_unsupported(req.destination.dtype@, req.domain@)),
        req.destination.dtype@ == "s3"@ ==> match s3_missing(req.destination) {
            Some(m) => r matches PruneStart::Refused(e) && e@ == m,
            None => r matches PruneStart::Listing(d) && s3_of(req.destination, d),
        },
{
    let t = chars_of(req.destination.dtype.as_str());
    if !eq_v(&t, &chars_of("s3")) {
        let mut m = chars_of("Automatic pruning is not supported for ");
        append(&mut m, &t);
        append(&mut m, &chars_of(" destinations. Old backups for '"));
        append(&mut m, &chars_of(req.domain.as_str()));
        append(&mut m, &chars_of("' must be pruned manually on the remote server."));
        return PruneStart::Unsupported(string_of(&m));
    }
    match s3_from(&req.destination) {
        Ok(d) => PruneStart::Listing(d),
        Err(e) => PruneStart::Refused(e),
    }
}

/// A key is one of the domain's backups: its file name (after the last
/// `/`) starts with `domain-` and ends with `.tar.gz`.
pub open spec fn domain_backup(key: Seq<char>, domain: Seq<char>) -> bool {
    let name = split_on(key, '/').last();
    (domain + seq!['-']).is_prefix_of(name) && ".tar.gz"@.is_suffix_of(name)
}

pub open spec fn domain_backups(keys: Seq<Seq<char>>, domain: Seq<char>, n: nat) -> Seq<Seq<char>>
    decreases n,
{
    if n == 0 || n > keys.len() {
        Seq::empty()
    } else {
        let p = domain_backups(keys, domain, (n - 1) as nat);
        if domain_backup(keys[n - 1], domain) { p.push(keys[n - 1]) } else { p }
    }
}

fn domain_backup_v(key: &String, domain: &Vec<char>) -> (r: bool)
    ensures r == domain_backup(key@, domain@),
{
    let parts = split_v(&chars_of(key.as_str()), '/');
    proof { lemma_split_on_len(key@, '/'); }
    let last = &parts[parts.len() - 1];
    assert(last@ == split_on(key@, '/').last());
    let mut p = crate::text::slice(domain, 0, domain.len());
    p.push('-');
    assert(p@ =~= domain@ + seq!['-']);
    starts_with_v(last, &p) && ends_with_v(last, &chars_of(".tar.gz"))
}

/// Which of a domain's backups a prune keeps and deletes: its backups
/// sorted newest first (names carry timestamps, so later sorts later), the
/// first `retention` kept.
pub struct PruneSelection {
    pub keep: Vec<String>,
    pub delete: Vec<String>,
}

pub fn select_for_prune(keys: &Vec<String>, domain: &str, retention: usize) -> (r: PruneSelection)
    ensures
        ({
            let all = domain_backups(str_views(keys@), domain@, keys@.len());
            let order = str_views(r.keep@) + str_views(r.delete@);
            &&& descending(order)
            &&& order.to_multiset() == all.to_multiset()
            &&& r.keep@.len() == (if all.len() < retention { all.len() } else { retention as nat })
        }),
{
    let d = chars_of(domain);
    let mut mine: Vec<String> = Vec::new();
    let mut k: usize = 0;
    while k < keys.len()
        invariant
            k <= keys.len(),
            d@ == domain@,
            str_views(mine@) == domain_backups(str_views(keys@), domain@, k as nat),
        decreases keys.len() - k,
    {
        assert(str_views(keys@)[k as int] == keys@[k as int]@);
        if domain_backup_v(&keys[k], &d) {
            let c = copy(&keys[k]);
            let ghost before = mine@;
            mine.push(c);
            assert(str_views(mine@) =~= str_views(before).push(c@));
        }
        k += 1;
    }
    let sorted = sorted_descending(mine);
    let mut keep: Vec<String> = Vec::new();
    let mut delete: Vec<String> = Vec::new();
    let mut i: usize = 0;
    while i < sorted.len()
        invariant
            i <= sorted.len(),
            str_views(keep@) + str_views(delete@) == str_views(sorted@).take(i as int),
            keep@.len() == (if i < retention { i } else { retention }),
            keep@.len() + delete@.len() == i,
        decreases sorted.len() - i,
    {
        let c = copy(&sorted[i]);
        let ghost kv = str_views(keep@);
        let ghost dv = str_views(delete@);
        if i < retention {
            assert(delete@.len() == 0);
            keep.push(c);
            assert(str_views(keep@) =~= kv.push(c@));
        } else {
            delete.push(c);
            assert(str_views(delete@) =~= dv.push(c@));
        }
        assert(str_views(sorted@).take(i + 1) =~= str_views(sorted@).take(i as int).push(sorted@[i as int]@));
        assert(str_views(keep@) + str_views(delete@) =~= str_views(sorted@).take(i + 1));
        i += 1;
    }
    assert(str_views(sorted@).take(sorted.len() as int) =~= str_views(sorted@));
    proof {
        let all = domain_backups(str_views(keys@), domain@, keys@.len());
        assert(str_views(sorted@).len() == all.len()) by {
            vstd::seq_lib::to_multiset_len(str_views(sorted@));
            vstd::seq_lib::to_multiset_len(all);
        }
    }
    PruneSelection { keep, delete }
}

/// A prune deletes only the domain's older backups: each deleted key sorts
/// no later than each kept one, and every deleted key is one of the
/// domain's backups.
pub proof fn law_prune_deletes_only_older(keep: Seq<Seq<char>>, delete: Seq<Seq<char>>, all: Seq<Seq<char>>)
    requires
        descending(keep + delete),
        (keep + delete).to_multiset() == all.to_multiset(),
    ensures
        forall|i: int, j: int| 0 <= i < keep.len() && 0 <= j < delete.len() ==>
            crate::order::lex_le(#[trigger] delete[j], #[trigger] keep[i]),
        forall|j: int| 0 <= j < delete.len() ==> all.contains(#[trigger] delete[j]),
{
    broadcast use vstd::seq_lib::group_to_multiset_ensures;
    let o = keep + delete;
    assert forall|i: int, j: int| 0 <= i < keep.len() && 0 <= j < delete.len() implies
        crate::order::lex_le(#[trigger] delete[j], #[trigger] keep[i]) by {
        assert(o[i] == keep[i]);
        assert(o[keep.len() + j] == delete[j]);
    }
    assert forall|j: int| 0 <= j < delete.len() implies all.contains(#[trigger] delete[j]) by {
        assert(o[keep.len() + j] == delete[j]);
        assert(o.contains(delete[j]));
        assert(o.to_multiset().count(delete[j]) > 0);
        assert(all.to_multiset().count(delete[j]) > 0);
    }
}

} // verus!
