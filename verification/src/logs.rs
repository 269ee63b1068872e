//! Log reading and live streaming: which log a request names, how a read
//! failure is answered, and whether a stream may open.
use vstd::prelude::*;
use crate::text::{append, chars_of, contains, eq_v, find_from_v, lemma_find_from, string_of};

verus! {

fn holds(s: &str, p: &str) -> (r: bool)
    ensures r == contains(s@, p@),
{
    proof { lemma_find_from(s@, p@, 0); }
    find_from_v(&chars_of(s), &chars_of(p), 0).is_some()
}

fn is(s: &str, l: &str) -> (r: bool)
    ensures r == (s@ == l@),
{
    eq_v(&chars_of(s), &chars_of(l))
}

/// How a failed read of a named log is answered: 404 for a log that is not
/// there or not known, 500 otherwise.
pub fn log_read_status(e: &str) -> (r: u16)
    ensures r == (if contains(e@, "not found"@) || contains(e@, "Unknown log type"@) { 404u16 } else { 500u16 }),
{
    if holds(e, "not found") || holds(e, "Unknown log type") { 404 } else { 500 }
}

/// How a failed read of a site's log is answered: 400 for a refusal of the
/// request (missing, a traversal, a bad domain), 500 otherwise.
pub fn site_log_status(e: &str) -> (r: u16)
    ensures
        r == (if contains(e@, "not found"@) || contains(e@, "traversal"@) || contains(e@, "Invalid domain"@) {
            400u16
        } else {
            500u16
        }),
{
    if holds(e, "not found") || holds(e, "traversal") || holds(e, "Invalid domain") { 400 } else { 500 }
}

/// How a failed search is answered: 404 for a missing log, 422 otherwise.
pub fn search_status(e: &str) -> (r: u16)
    ensures r == (if contains(e@, "not found"@) { 404u16 } else { 422u16 }),
{
    if holds(e, "not found") { 404 } else { 422 }
}

/// The log type a site-log request names: its access log unless the error
/// log is asked for; any other word is refused.
pub fn site_log_type(kind: Option<&str>, domain: &str) -> (r: Result<String, String>)
    ensures
        ({
            let k = match kind { Some(k) => k@, None => "access"@ };
            if k == "access"@ {
                r matches Ok(t) && t@ == "nginx_access:"@ + domain@
            } else if k == "error"@ {
                r matches Ok(t) && t@ == "nginx_error:"@ + domain@
            } else {
                r matches Err(m) && m@ == "Invalid site log type: "@ + k + ". Use 'access' or 'error'"@
            }
        }),
{
    let k = match kind { Some(k) => k, None => "access" };
    if is(k, "access") {
        let mut v = chars_of("nginx_access:");
        append(&mut v, &chars_of(domain));
        Ok(string_of(&v))
    } else if is(k, "error") {
        let mut v = chars_of("nginx_error:");
        append(&mut v, &chars_of(domain));
        Ok(string_of(&v))
    } else {
        let mut v = chars_of("Invalid site log type: ");
        append(&mut v, &chars_of(k));
        append(&mut v, &chars_of(". Use 'access' or 'error'"));
        Err(string_of(&v))
    }
}

/// A log read: the type (syslog by default) and how many lines (100).
pub fn log_query(kind: Option<&str>, lines: Option<usize>) -> (r: (String, usize))
    ensures
        r.0@ == (match kind { Some(k) => k@, None => "syslog"@ }),
        r.1 == (match lines { Some(n) => n, None => 100 }),
{
    (string_of(&chars_of(match kind { Some(k) => k, None => "syslog" })), match lines { Some(n) => n, None => 100 })
}

/// A search: the log (nginx's access log by default), the pattern, which
/// must be given, and the most matches (500).
pub fn search_query(kind: Option<&str>, pattern: Option<&str>, max: Option<usize>) -> (r: Result<(String, String, usize), String>)
    ensures
        ({
            let p = match pattern { Some(p) => p@, None => ""@ };
            if p.len() == 0 {
                r matches Err(m) && m@ == "Pattern is required"@
            } else {
                r matches Ok(q) && q.0@ == (match kind { Some(k) => k@, None => "nginx_access"@ }) && q.1@ == p
                    && q.2 == (match max { Some(m) => m, None => 500 })
            }
        }),
{
    let p = match pattern { Some(p) => p, None => "" };
    if chars_of(p).len() == 0 {
        return Err(string_of(&chars_of("Pattern is required")));
    }
    Ok((
        string_of(&chars_of(match kind { Some(k) => k, None => "nginx_access" })),
        string_of(&chars_of(p)),
        match max { Some(m) => m, None => 500 },
    ))
}

/// The log a stream tails: for a site, its access or error log by the
/// short names, any other word taken as a full type; without a site, the
/// type as given (nginx's access log by default).
pub fn stream_log_type(kind: Option<&str>, domain: Option<&str>) -> (r: String)
    ensures
        ({
            let k = match kind { Some(k) => k@, None => "nginx_access"@ };
            r@ == match domain {
                Some(d) => if k == "access"@ {
                    "nginx_access:"@ + d@
                } else if k == "error"@ {
                    "nginx_error:"@ + d@
                } else {
                    k
                },
                None => k,
            }
        }),
{
    let k = match kind { Some(k) => k, None => "nginx_access" };
    match domain {
        Some(d) => {
            if is(k, "access") {
                let mut v = chars_of("nginx_access:");
                append(&mut v, &chars_of(d));
                string_of(&v)
            } else if is(k, "error") {
                let mut v = chars_of("nginx_error:");
                append(&mut v, &chars_of(d));
                string_of(&v)
            } else {
                string_of(&chars_of(k))
            }
        },
        None => string_of(&chars_of(k)),
    }
}

/// At most this many log streams run at once.
pub const MAX_STREAMS: usize = 10;

/// `jsonwebtoken::decode` with HS256 under `secret`, requiring `exp` and
/// `sub` and checking expiry against the clock: the ticket's `purpose`
/// claim when the token verifies and carries string `sub` and `purpose`
/// claims, else `None`. Nothing is promised of the result: it depends on
/// the time.
#[verifier::external_body]
fn ticket_purpose(token: &str, secret: &str) -> (r: Option<String>) {
    let mut validation = jsonwebtoken::Validation::new(jsonwebtoken::Algorithm::HS256);
    validation.set_required_spec_claims(&["exp", "sub"]);
    validation.validate_exp = true;
    let key = jsonwebtoken::DecodingKey::from_secret(secret.as_bytes());
    match jsonwebtoken::decode::<serde_json::Value>(token, &key, &validation) {
        Ok(data) => match (data.claims.get("sub"), data.claims.get("purpose")) {
            (Some(serde_json::Value::String(_)), Some(serde_json::Value::String(p))) => Some(p.clone()),
            _ => None,
        },
        Err(_) => None,
    }
}

/// Whether a verified ticket's `purpose` claim is the one log streaming
/// issues (`log_stream`); verifying the ticket itself is `ticket_purpose`'s.
pub fn is_log_stream_purpose(purpose: Option<&str>) -> (r: bool)
    ensures r == (purpose matches Some(p) && p@ == "log_stream"@),
{
    match purpose {
        Some(p) => is(p, "log_stream"),
        None => false,
    }
}

/// Whether the query's token is a log-stream ticket under `secret`; no
/// token is never one.
pub fn stream_ticket_valid(token: Option<&str>, secret: &str) -> (r: bool)
    ensures token is None ==> !r,
{
    match token {
        Some(t) => {
            let p = ticket_purpose(t, secret);
            match p {
                Some(s) => is_log_stream_purpose(Some(s.as_str())),
                None => false,
            }
        },
        None => false,
    }
}

/// Whether a stream opens, and if not, the status and body it is refused
/// with: an invalid ticket first, then too many streams, then a log type
/// that resolves to no file.
pub enum StreamAdmission {
    Open,
    Refuse { status: u16, body: String },
}

pub fn admit_stream(ticket_ok: bool, active: usize, path_ok: bool) -> (r: StreamAdmission)
    ensures
        !ticket_ok ==> (r matches StreamAdmission::Refuse { status, body } && status == 401 && body@ == "Unauthorized"@),
        ticket_ok && active >= MAX_STREAMS ==>
            (r matches StreamAdmission::Refuse { status, body } && status == 429 && body@ == "Too many active log streams"@),
        ticket_ok && active < MAX_STREAMS && !path_ok ==>
            (r matches StreamAdmission::Refuse { status, body } && status == 400 && body@ == "Invalid log type"@),
        ticket_ok && active < MAX_STREAMS && path_ok ==> r is Open,
{
    if !ticket_ok {
        StreamAdmission::Refuse { status: 401, body: string_of(&chars_of("Unauthorized")) }
    } else if active >= MAX_STREAMS {
        StreamAdmission::Refuse { status: 429, body: string_of(&chars_of("Too many active log streams")) }
    } else if !path_ok {
        StreamAdmission::Refuse { status: 400, body: string_of(&chars_of("Invalid log type")) }
    } else {
        StreamAdmission::Open
    }
}

} // verus!
