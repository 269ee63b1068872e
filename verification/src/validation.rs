//! Name checks shared across the agent's routes.
use vstd::prelude::*;
use crate::text::{alnum, chars_of, has_char, hex, is_alnum, is_hex, split_on, split_v, string_of, trim, trim_v, views};

verus! {

/// One label of a domain: 1 to 63 ASCII letters, digits or hyphens, not
/// starting or ending with a hyphen.
pub open spec fn label_ok(p: Seq<char>) -> bool {
    0 < p.len() <= 63
        && (forall|k: int| 0 <= k < p.len() ==> is_alnum(#[trigger] p[k]) || p[k] == '-')
        && p[0] != '-' && p.last() != '-'
}

/// A domain name: 1 to 253 characters with at least one dot, every
/// dot-separated label well formed.
pub open spec fn domain_ok(s: Seq<char>) -> bool {
    0 < s.len() <= 253 && s.contains('.')
        && forall|i: int| 0 <= i < split_on(s, '.').len() ==> label_ok(#[trigger] split_on(s, '.')[i])
}

fn label_ok_v(p: &Vec<char>) -> (r: bool)
    ensures r == label_ok(p@),
{
    if p.len() == 0 || p.len() > 63 {
        return false;
    }
    let mut i: usize = 0;
    while i < p.len()
        invariant
            i <= p.len(),
            forall|k: int| 0 <= k < i ==> is_alnum(#[trigger] p@[k]) || p@[k] == '-',
        decreases p.len() - i,
    {
        let c = p[i];
        if !(alnum(c) || c == '-') {
            assert(!(is_alnum(p@[i as int]) || p@[i as int] == '-'));
            return false;
        }
        i += 1;
    }
    p[0] != '-' && p[p.len() - 1] != '-'
}

/// Validate a domain name format (shared across route modules).
pub fn is_valid_domain(domain: &str) -> (r: bool)
    ensures r == domain_ok(domain@),
{
    let v = chars_of(domain);
    if v.len() == 0 || v.len() > 253 {
        return false;
    }
    let parts = split_v(&v, '.');
    let mut i: usize = 0;
    while i < parts.len()
        invariant
            i <= parts.len(),
            views(parts@) == split_on(v@, '.'),
            v@ == domain@,
            forall|k: int| 0 <= k < i ==> label_ok(#[trigger] split_on(v@, '.')[k]),
        decreases parts.len() - i,
    {
        assert(views(parts@)[i as int] == parts@[i as int]@);
        if !label_ok_v(&parts[i]) {
            return false;
        }
        i += 1;
    }
    has_char(&v, '.')
}

/// A resource name: 1 to 64 ASCII letters, digits, `_` or `-`, starting
/// with a letter or digit.
pub open spec fn name_ok(s: Seq<char>) -> bool {
    0 < s.len() <= 64 && is_alnum(s[0])
        && forall|k: int| 0 <= k < s.len() ==> is_alnum(#[trigger] s[k]) || s[k] == '_' || s[k] == '-'
}

/// Validate a resource name (database, app, container, etc.).
pub fn is_valid_name(name: &str) -> (r: bool)
    ensures r == name_ok(name@),
{
    let v = chars_of(name);
    if v.len() == 0 || v.len() > 64 || !alnum(v[0]) {
        return false;
    }
    let mut i: usize = 0;
    while i < v.len()
        invariant
            i <= v.len(),
            v@ == name@,
            forall|k: int| 0 <= k < i ==> is_alnum(#[trigger] v@[k]) || v@[k] == '_' || v@[k] == '-',
        decreases v.len() - i,
    {
        let c = v[i];
        if !(alnum(c) || c == '_' || c == '-') {
            assert(!(is_alnum(v@[i as int]) || v@[i as int] == '_' || v@[i as int] == '-'));
            return false;
        }
        i += 1;
    }
    true
}

/// A Docker container id: 1 to 64 hexadecimal digits.
pub open spec fn container_id_ok(s: Seq<char>) -> bool {
    0 < s.len() <= 64 && forall|k: int| 0 <= k < s.len() ==> is_hex(#[trigger] s[k])
}

/// Validate a Docker container ID (hex string, 1–64 chars).
pub fn is_valid_container_id(id: &str) -> (r: bool)
    ensures r == container_id_ok(id@),
{
    let v = chars_of(id);
    if v.len() == 0 || v.len() > 64 {
        return false;
    }
    let mut i: usize = 0;
    while i < v.len()
        invariant
            i <= v.len(),
            v@ == id@,
            forall|k: int| 0 <= k < i ==> is_hex(#[trigger] v@[k]),
        decreases v.len() - i,
    {
        if !hex(v[i]) {
            assert(!is_hex(v@[i as int]));
            return false;
        }
        i += 1;
    }
    true
}

/// What the bearer-token middleware decides for a request.
#[derive(Debug, PartialEq, Eq, Structural, Clone, Copy)]
pub enum AuthDecision {
    /// Pass the request on.
    Allow,
    /// Answer 401.
    Unauthorized,
}

/// The bearer-token check: `/health` is open; every other path needs an
/// `Authorization: Bearer <token>` header carrying exactly the agent's token.
pub fn authorize(path: &str, authorization: Option<&str>, token: &str) -> (r: AuthDecision)
    ensures
        r == (if path@ == "/health"@ {
            AuthDecision::Allow
        } else {
            match authorization {
                Some(h) => if "Bearer "@.is_prefix_of(h@) && h@.skip(7) == token@ { AuthDecision::Allow } else { AuthDecision::Unauthorized },
                None => AuthDecision::Unauthorized,
            }
        }),
{
    let p = chars_of(path);
    if crate::text::eq_v(&p, &chars_of("/health")) {
        return AuthDecision::Allow;
    }
    match authorization {
        Some(h) => {
            let hv = chars_of(h);
            let pre = chars_of("Bearer ");
            proof { reveal_strlit("Bearer "); }
            if crate::text::starts_with_v(&hv, &pre) {
                let provided = crate::text::slice(&hv, 7, hv.len());
                assert(provided@ =~= h@.skip(7));
                if crate::text::eq_v(&provided, &chars_of(token)) {
                    return AuthDecision::Allow;
                }
            }
            AuthDecision::Unauthorized
        },
        None => AuthDecision::Unauthorized,
    }
}

/// Whether the audit log records a request: only state-modifying methods.
pub fn audited(method: &str) -> (r: bool)
    ensures r == (method@ == "POST"@ || method@ == "PUT"@ || method@ == "DELETE"@),
{
    let m = chars_of(method);
    crate::text::eq_v(&m, &chars_of("POST")) || crate::text::eq_v(&m, &chars_of("PUT"))
        || crate::text::eq_v(&m, &chars_of("DELETE"))
}

/// Where the agent's token comes from at start-up.
pub enum TokenSource {
    /// `AGENT_TOKEN`, trimmed; it is also written to the token file.
    Env(String),
    /// The token file, trimmed.
    File(String),
    /// Neither holds one: a fresh token is generated and saved.
    Generate,
}

/// The environment's token when it is not blank, else the file's when it
/// is not blank, else a new one.
pub fn token_source(env: Option<&str>, file: Option<&str>) -> (r: TokenSource)
    ensures
        match env {
            Some(e) if trim(e@).len() > 0 => r matches TokenSource::Env(t) && t@ == trim(e@),
            _ => match file {
                Some(f) if trim(f@).len() > 0 => r matches TokenSource::File(t) && t@ == trim(f@),
                _ => r is Generate,
            },
        },
{
    if let Some(e) = env {
        let t = trim_v(&chars_of(e));
        if t.len() > 0 {
            return TokenSource::Env(string_of(&t));
        }
    }
    if let Some(f) = file {
        let t = trim_v(&chars_of(f));
        if t.len() > 0 {
            return TokenSource::File(string_of(&t));
        }
    }
    TokenSource::Generate
}

} // verus!
