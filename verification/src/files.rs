//! The site file manager: how a file-service refusal is answered, and the
//! name a download is offered under.
use vstd::prelude::*;
use crate::text::{append, chars_of, eq_v, starts_with_v, string_of};

verus! {

fn is(s: &str, l: &str) -> (r: bool)
    ensures r == (s@ == l@),
{
    eq_v(&chars_of(s), &chars_of(l))
}

/// The status a file-service refusal answers with: the decisions the
/// service made on purpose (missing, taken, too large, not text) are 4xx so
/// their sentence reaches the operator; anything else is a fault.
pub open spec fn file_error_status(e: Seq<char>) -> u16 {
    if "File not found"@.is_prefix_of(e) || e == "Source does not exist"@ || e == "Path does not exist"@ {
        404
    } else if e == "Path already exists"@ || e == "Destination already exists"@ {
        409
    } else if e == "File too large (max 2MB)"@ {
        413
    } else if e == "File is binary or not readable as text"@ {
        415
    } else {
        500
    }
}

pub fn file_status(e: &str) -> (r: u16)
    ensures r == file_error_status(e@),
{
    let v = chars_of(e);
    if starts_with_v(&v, &chars_of("File not found")) || is(e, "Source does not exist") || is(e, "Path does not exist") {
        404
    } else if is(e, "Path already exists") || is(e, "Destination already exists") {
        409
    } else if is(e, "File too large (max 2MB)") {
        413
    } else if is(e, "File is binary or not readable as text") {
        415
    } else {
        500
    }
}

/// The characters a download's file name loses in its header.
pub open spec fn header_unsafe(c: char) -> bool {
    c == '"' || c == '\\' || c == '\n' || c == '\r'
}

pub open spec fn without_unsafe(s: Seq<char>) -> Seq<char>
    decreases s.len(),
{
    if s.len() == 0 {
        Seq::empty()
    } else {
        let p = without_unsafe(s.drop_last());
        if header_unsafe(s.last()) { p } else { p.push(s.last()) }
    }
}

/// The `Content-Disposition` a download answers with: the file's name
/// (`download` when it has none that is text), without quotes,
/// backslashes or line breaks.
pub fn content_disposition(file_name: Option<&str>) -> (r: String)
    ensures
        r@ == "attachment; filename=\""@
            + without_unsafe(match file_name { Some(n) => n@, None => "download"@ }) + "\""@,
{
    let name = chars_of(match file_name { Some(n) => n, None => "download" });
    let mut safe: Vec<char> = Vec::new();
    let mut i: usize = 0;
    while i < name.len()
        invariant
            i <= name.len(),
            safe@ == without_unsafe(name@.take(i as int)),
        decreases name.len() - i,
    {
        assert(name@.take(i + 1).drop_last() =~= name@.take(i as int));
        let c = name[i];
        if !(c == '"' || c == '\\' || c == '\n' || c == '\r') {
            safe.push(c);
        }
        i += 1;
    }
    assert(name@.take(name.len() as int) =~= name@);
    let mut v = chars_of("attachment; filename=\"");
    append(&mut v, &safe);
    append(&mut v, &chars_of("\""));
    string_of(&v)
}

/// The directory a listing shows: the one asked for, else the site root.
pub fn listing_path(path: Option<&str>) -> (r: &str)
    ensures r@ == (match path { Some(p) => p@, None => "/"@ }),
{
    match path {
        Some(p) => p,
        None => "/",
    }
}

/// A create request makes a directory only when its type says `dir`.
pub fn creates_directory(kind: Option<&str>) -> (r: bool)
    ensures r == (kind matches Some(k) && k@ == "dir"@),
{
    match kind {
        Some(k) => is(k, "dir"),
        None => false,
    }
}

} // verus!
