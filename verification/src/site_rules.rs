//! Per-site rules kept beside the vhost: redirects, password protection,
//! domain aliases and the `.env` file.
use vstd::prelude::*;
use crate::text::{
    append, chars_of, contains, count_of, count_of_v, lemma_count_of_bound, lemma_lines_total,
    lemma_total_len_step, lemma_total_len_take, total_len, eq_v, find, find_from, find_from_v, has_char, is_ws,
    join, join_v, lemma_find_from, lemma_views_push, lines, lines_v, replace_all, replace_all_v, rfind_char,
    rfind_char_v, slice, split_on, split_v, starts_with_v, string_of, strip_trailing, strip_trailing_v, trim,
    trim_char, trim_char_v, trim_v, views, ws, ws_tokens, ws_tokens_v, occurs_at, lemma_find_none,
    lemma_split_on_concat, lemma_split_on_none,
};
use crate::validation::{domain_ok, is_valid_domain};

verus! {

fn lit(s: &str) -> (r: Vec<char>)
    ensures r@ == s@,
{
    chars_of(s)
}

fn msg(s: &str) -> (r: String)
    ensures r@ == s@,
{
    string_of(&lit(s))
}

fn has_sub(s: &Vec<char>, p: &Vec<char>) -> (r: bool)
    ensures r == contains(s@, p@),
{
    proof { lemma_find_from(s@, p@, 0); }
    find_from_v(s, p, 0).is_some()
}

// ── redirects ───────────────────────────────────────────────────────────

/// A character a redirect source may not hold.
pub open spec fn bad_source_char(c: char) -> bool {
    is_ws(c) || c == ';' || c == '{' || c == '}' || c == '\n' || c == '\r'
}

/// A character a redirect target may not hold.
pub open spec fn bad_target_char(c: char) -> bool {
    c == '\n' || c == '\r' || c == ';' || c == '{' || c == '}'
}

pub open spec fn has_bad(s: Seq<char>, source: bool) -> bool {
    exists|k: int| 0 <= k < s.len() && (if source { bad_source_char(#[trigger] s[k]) } else { bad_target_char(s[k]) })
}

fn has_bad_v(s: &Vec<char>, source: bool) -> (r: bool)
    ensures r == has_bad(s@, source),
{
    let mut i: usize = 0;
    while i < s.len()
        invariant
            i <= s.len(),
            forall|k: int| 0 <= k < i ==> !(if source { bad_source_char(#[trigger] s@[k]) } else { bad_target_char(s@[k]) }),
        decreases s.len() - i,
    {
        let c = s[i];
        let bad = if source {
            ws(c) || c == ';' || c == '{' || c == '}' || c == '\n' || c == '\r'
        } else {
            c == '\n' || c == '\r' || c == ';' || c == '{' || c == '}'
        };
        if bad {
            return true;
        }
        i += 1;
    }
    false
}

/// The first problem with a redirect request, if any.
pub open spec fn redirect_error(domain: Seq<char>, source: Seq<char>, target: Seq<char>, kind: Seq<char>) -> Option<Seq<char>> {
    if domain.len() == 0 || source.len() == 0 || target.len() == 0 {
        Some("Missing fields"@)
    } else if !domain_ok(domain) {
        Some("Invalid domain format"@)
    } else if kind != "301"@ && kind != "302"@ {
        Some("Type must be 301 or 302"@)
    } else if !"/"@.is_prefix_of(source) {
        Some("Source must start with /"@)
    } else if has_bad(source, true) {
        Some("Invalid source path characters"@)
    } else if has_bad(target, false) {
        Some("Invalid target URL characters"@)
    } else {
        None
    }
}

/// The checks adding a redirect runs.
pub fn check_redirect(domain: &str, source: &str, target: &str, redirect_type: &str) -> (r: Result<(), String>)
    ensures
        match redirect_error(domain@, source@, target@, redirect_type@) {
            Some(m) => r matches Err(e) && e@ == m,
            None => r is Ok,
        },
{
    if domain.is_empty() || source.is_empty() || target.is_empty() {
        return Err(msg("Missing fields"));
    }
    if !is_valid_domain(domain) {
        return Err(msg("Invalid domain format"));
    }
    let k = lit(redirect_type);
    if !eq_v(&k, &lit("301")) && !eq_v(&k, &lit("302")) {
        return Err(msg("Type must be 301 or 302"));
    }
    let s = lit(source);
    if !starts_with_v(&s, &lit("/")) {
        return Err(msg("Source must start with /"));
    }
    if has_bad_v(&s, true) {
        return Err(msg("Invalid source path characters"));
    }
    if has_bad_v(&lit(target), false) {
        return Err(msg("Invalid target URL characters"));
    }
    Ok(())
}

/// The rule a redirect adds: `location = {source} { return {type} {target}; }`.
pub open spec fn redirect_line(source: Seq<char>, kind: Seq<char>, target: Seq<char>) -> Seq<char> {
    "location = "@ + source + " { return "@ + kind + seq![' '] + target + "; }"@
}

/// The rule a redirect adds, with its newline.
pub fn redirect_rule(source: &str, redirect_type: &str, target: &str) -> (r: String)
    ensures r@ == redirect_line(source@, redirect_type@, target@) + seq!['\n'],
{
    let mut v = lit("location = ");
    append(&mut v, &lit(source));
    append(&mut v, &lit(" { return "));
    append(&mut v, &lit(redirect_type));
    v.push(' ');
    append(&mut v, &lit(target));
    append(&mut v, &lit("; }"));
    v.push('\n');
    string_of(&v)
}

/// A vhost with `include {path};` added before its last `}`, unless it
/// already includes the file; `None` when nothing changes.
pub open spec fn with_include(content: Seq<char>, path: Seq<char>) -> Option<Seq<char>> {
    if contains(content, "include "@ + path) {
        None
    } else {
        match rfind_char(content, '}') {
            Some(pos) => Some(content.take(pos) + "    include "@ + path + ";\n"@ + content.skip(pos)),
            None => None,
        }
    }
}

/// The vhost text that includes `path`, if it has to change.
pub fn include_in_site(content: &str, path: &str) -> (r: Option<String>)
    ensures
        match with_include(content@, path@) {
            Some(c) => r matches Some(x) && x@ == c,
            None => r is None,
        },
{
    let c = lit(content);
    let mut needle = lit("include ");
    append(&mut needle, &lit(path));
    if has_sub(&c, &needle) {
        return None;
    }
    match rfind_char_v(&c, '}') {
        Some(pos) => {
            let mut v = slice(&c, 0, pos);
            append(&mut v, &lit("    include "));
            append(&mut v, &lit(path));
            append(&mut v, &lit(";\n"));
            append(&mut v, &slice(&c, pos, c.len()));
            assert(v@ =~= c@.take(pos as int) + "    include "@ + path@ + ";\n"@ + c@.skip(pos as int));
            Some(string_of(&v))
        },
        None => None,
    }
}

/// The second piece of `s` split at `p` (`s.split(p).nth(1)`).
pub open spec fn second_piece(s: Seq<char>, p: Seq<char>) -> Option<Seq<char>> {
    match find(s, p) {
        None => None,
        Some(i) => {
            let st = i + p.len();
            match find_from(s, p, st) {
                None => Some(s.subrange(st, s.len() as int)),
                Some(j) => Some(s.subrange(st, j)),
            }
        },
    }
}

fn second_piece_v(s: &Vec<char>, p: &Vec<char>) -> (r: Option<Vec<char>>)
    ensures
        match second_piece(s@, p@) {
            Some(x) => r matches Some(v) && v@ == x,
            None => r is None,
        },
{
    match find_from_v(s, p, 0) {
        None => None,
        Some(i) => {
            let st = i + p.len();
            proof { lemma_find_from(s@, p@, st as int); }
            let en = match find_from_v(s, p, st) {
                None => s.len(),
                Some(j) => j,
            };
            Some(slice(s, st, en))
        },
    }
}

/// One listed redirect as `(source, target, type)`, read back from a rule
/// line; `None` for a line that is not one.
pub open spec fn parse_redirect(l: Seq<char>) -> Option<(Seq<char>, Seq<char>, Seq<char>)> {
    match second_piece(l, "location = "@) {
        None => None,
        Some(a) => {
            let source = split_on(a, ' ')[0];
            match second_piece(l, "return "@) {
                None => None,
                Some(b) => {
                    let parts = ws_tokens(b);
                    if parts.len() >= 2 { Some((source, strip_trailing(parts[1], ';'), parts[0])) } else { None }
                },
            }
        },
    }
}

/// The redirects of the first `n` lines that mention `return `.
pub open spec fn listed_redirects(ls: Seq<Seq<char>>, n: nat) -> Seq<(Seq<char>, Seq<char>, Seq<char>)>
    decreases n,
{
    if n == 0 {
        Seq::empty()
    } else {
        let p = listed_redirects(ls, (n - 1) as nat);
        if contains(ls[n - 1], "return "@) && parse_redirect(ls[n - 1]) is Some { p.push(parse_redirect(ls[n - 1])->0) } else { p }
    }
}

/// One redirect as listed.
pub struct RedirectRule {
    pub source: String,
    pub target: String,
    pub redirect_type: String,
}

pub open spec fn rule_view(r: RedirectRule) -> (Seq<char>, Seq<char>, Seq<char>) {
    (r.source@, r.target@, r.redirect_type@)
}

fn parse_redirect_v(l: &Vec<char>) -> (r: Option<RedirectRule>)
    ensures
        match parse_redirect(l@) {
            Some(t) => r matches Some(x) && rule_view(x) == t,
            None => r is None,
        },
{
    let a = match second_piece_v(l, &lit("location = ")) {
        Some(a) => a,
        None => { return None; },
    };
    let pieces = split_v(&a, ' ');
    proof { crate::text::lemma_split_on_len(a@, ' '); }
    assert(views(pieces@)[0] == pieces@[0]@);
    let source = pieces[0].clone();
    let b = match second_piece_v(l, &lit("return ")) {
        Some(b) => b,
        None => { return None; },
    };
    let parts = ws_tokens_v(&b);
    if parts.len() < 2 {
        return None;
    }
    assert(views(parts@)[0] == parts@[0]@ && views(parts@)[1] == parts@[1]@);
    let target = strip_trailing_v(&parts[1], ';');
    Some(RedirectRule { source: string_of(&source), target: string_of(&target), redirect_type: string_of(&parts[0]) })
}

/// The redirects a domain's redirect file holds, in order.
pub fn list_redirects(content: &str) -> (r: Vec<RedirectRule>)
    ensures
        r@.len() == listed_redirects(lines(content@), lines(content@).len()).len(),
        forall|i: int| 0 <= i < r@.len() ==>
            rule_view(#[trigger] r@[i]) == listed_redirects(lines(content@), lines(content@).len())[i],
{
    let ls = lines_v(&lit(content));
    let ret = lit("return ");
    let mut out: Vec<RedirectRule> = Vec::new();
    let mut k: usize = 0;
    while k < ls.len()
        invariant
            k <= ls.len(),
            views(ls@) == lines(content@),
            ret@ == "return "@,
            out@.len() == listed_redirects(lines(content@), k as nat).len(),
            forall|i: int| 0 <= i < out@.len() ==>
                rule_view(#[trigger] out@[i]) == listed_redirects(lines(content@), k as nat)[i],
        decreases ls.len() - k,
    {
        assert(views(ls@)[k as int] == ls@[k as int]@);
        if has_sub(&ls[k], &ret) {
            match parse_redirect_v(&ls[k]) {
                Some(x) => { out.push(x); },
                None => {},
            }
        }
        k += 1;
    }
    out
}

/// The first `n` lines without those of the redirect from `source`.
pub open spec fn without_redirect(ls: Seq<Seq<char>>, source: Seq<char>, n: nat) -> Seq<Seq<char>>
    decreases n,
{
    if n == 0 {
        Seq::empty()
    } else {
        let p = without_redirect(ls, source, (n - 1) as nat);
        if contains(ls[n - 1], "location = "@ + source + seq![' ']) { p } else { p.push(ls[n - 1]) }
    }
}

proof fn lemma_without_redirect(ls: Seq<Seq<char>>, source: Seq<char>, n: nat)
    requires n <= ls.len(),
    ensures
        forall|i: int| 0 <= i < n && !contains(ls[i], "location = "@ + source + seq![' ']) ==>
            #[trigger] without_redirect(ls, source, n).contains(ls[i]),
        forall|w: int| 0 <= w < without_redirect(ls, source, n).len() ==>
            !contains(#[trigger] without_redirect(ls, source, n)[w], "location = "@ + source + seq![' ']),
    decreases n,
{
    if n > 0 {
        lemma_without_redirect(ls, source, (n - 1) as nat);
        let p = without_redirect(ls, source, (n - 1) as nat);
        let q = without_redirect(ls, source, n);
        let needle = "location = "@ + source + seq![' '];
        assert forall|i: int| 0 <= i < n && !contains(ls[i], needle) implies #[trigger] q.contains(ls[i]) by {
            if i < n - 1 {
                assert(p.contains(ls[i]));
                let w = choose|w: int| 0 <= w < p.len() && p[w] == ls[i];
                assert(q[w] == ls[i]);
            } else {
                assert(q[p.len() as int] == ls[i]);
            }
        }
        assert forall|w: int| 0 <= w < q.len() implies !contains(#[trigger] q[w], needle) by {
            if w < p.len() {
                assert(q[w] == p[w]);
            }
        }
    }
}

/// A rule line for another source never holds the removal's needle: when
/// `location = ` occurs only at the start of `l` and `l`'s rule is for
/// `t != source`, `l` does not contain `location = {source} `.
proof fn lemma_other_source_untouched(l: Seq<char>, source: Seq<char>, t: Seq<char>)
    requires
        !source.contains(' '),
        "location = "@.is_prefix_of(l),
        find_from(l, "location = "@, 1) is None,
        second_piece(l, "location = "@) matches Some(a) && split_on(a, ' ')[0] == t,
        t != source,
    ensures !contains(l, "location = "@ + source + seq![' ']),
{
    reveal_strlit("location = ");
    let loc = "location = "@;
    let needle = loc + source + seq![' '];
    lemma_find_from(l, loc, 1);
    lemma_find_from(l, needle, 0);
    if contains(l, needle) {
        let p = find(l, needle)->0;
        assert(occurs_at(l, needle, p));
        assert(l.subrange(p, p + needle.len()).subrange(0, loc.len() as int) =~= l.subrange(p, p + loc.len()));
        assert(needle.subrange(0, loc.len() as int) =~= loc);
        assert(l.subrange(p, p + loc.len()) =~= loc);
        assert(occurs_at(l, loc, p));
        assert(p == 0);
        // the rule's text after the marker starts with `source` and a space
        assert(l.subrange(0, loc.len() as int) =~= loc);
        assert(occurs_at(l, loc, 0));
        assert(find_from(l, loc, 0) == Some(0int));
        lemma_find_from(l, loc, loc.len() as int);
        assert(find_from(l, loc, loc.len() as int) is None);
        let a = l.subrange(loc.len() as int, l.len() as int);
        assert(second_piece(l, loc) == Some(a));
        let rest = a.skip(source.len() as int + 1);
        assert forall|k: int| 0 <= k < source.len() implies a[k] == source[k] by {
            assert(l.subrange(0, needle.len() as int)[loc.len() + k] == needle[loc.len() + k]);
        }
        let e = loc.len() as int + source.len() as int;
        assert(l.subrange(0, needle.len() as int)[e] == needle[e]);
        assert(a =~= source + seq![' '] + rest);
        lemma_split_on_concat(source, rest, ' ');
        lemma_split_on_none(source, ' ');
        assert(split_on(a, ' ')[0] == source);
    }
}

/// Removing the redirect from `source` takes out only that source's rules:
/// a rule line for any other source (its only `location = ` at its start)
/// stays, as does a line that is no rule at all; and no line of the result
/// still holds the rule for `source`.
pub proof fn law_remove_redirect_keeps_other_sources(content: Seq<char>, source: Seq<char>)
    requires !source.contains(' '),
    ensures
        forall|i: int| 0 <= i < lines(content).len()
            && "location = "@.is_prefix_of(lines(content)[i])
            && find_from(lines(content)[i], "location = "@, 1) is None
            && (parse_redirect(lines(content)[i]) matches Some((t, _g, _k)) && t != source) ==>
            #[trigger] without_redirect(lines(content), source, lines(content).len()).contains(lines(content)[i]),
        forall|i: int| 0 <= i < lines(content).len() && find(lines(content)[i], "location = "@) is None ==>
            #[trigger] without_redirect(lines(content), source, lines(content).len()).contains(lines(content)[i]),
        forall|w: int| 0 <= w < without_redirect(lines(content), source, lines(content).len()).len() ==>
            !("location = "@ + source + seq![' ']).is_prefix_of(
                #[trigger] without_redirect(lines(content), source, lines(content).len())[w]),
{
    reveal_strlit("location = ");
    let ls = lines(content);
    let needle = "location = "@ + source + seq![' '];
    lemma_without_redirect(ls, source, ls.len());
    assert forall|i: int| 0 <= i < ls.len()
        && "location = "@.is_prefix_of(ls[i])
        && find_from(ls[i], "location = "@, 1) is None
        && (parse_redirect(ls[i]) matches Some((t, _g, _k)) && t != source) implies
        #[trigger] without_redirect(ls, source, ls.len()).contains(ls[i]) by {
        let tr = parse_redirect(ls[i])->0;
        let t = tr.0;
        lemma_other_source_untouched(ls[i], source, t);
    }
    assert forall|i: int| 0 <= i < ls.len() && find(ls[i], "location = "@) is None implies
        #[trigger] without_redirect(ls, source, ls.len()).contains(ls[i]) by {
        lemma_find_from(ls[i], "location = "@, 0);
        lemma_find_from(ls[i], needle, 0);
        if contains(ls[i], needle) {
            let p = find(ls[i], needle)->0;
            assert(ls[i].subrange(p, p + needle.len()).subrange(0, 11) =~= ls[i].subrange(p, p + 11));
            assert(needle.subrange(0, 11) =~= "location = "@);
            assert(ls[i].subrange(p, p + 11) =~= "location = "@);
            assert(occurs_at(ls[i], "location = "@, p));
        }
    }
    assert forall|w: int| 0 <= w < without_redirect(ls, source, ls.len()).len() implies
        !needle.is_prefix_of(#[trigger] without_redirect(ls, source, ls.len())[w]) by {
        let l = without_redirect(ls, source, ls.len())[w];
        if needle.is_prefix_of(l) {
            assert(l.subrange(0, needle.len() as int) =~= needle);
            assert(occurs_at(l, needle, 0));
            lemma_find_from(l, needle, 0);
        }
    }
}

/// The redirect file with the rules for `source` removed.
pub fn remove_redirect(content: &str, source: &str) -> (r: String)
    ensures r@ == join(without_redirect(lines(content@), source@, lines(content@).len()), seq!['\n']) + seq!['\n'],
{
    let ls = lines_v(&lit(content));
    let mut needle = lit("location = ");
    append(&mut needle, &lit(source));
    needle.push(' ');
    let mut out: Vec<Vec<char>> = Vec::new();
    let mut k: usize = 0;
    while k < ls.len()
        invariant
            k <= ls.len(),
            views(ls@) == lines(content@),
            needle@ == "location = "@ + source@ + seq![' '],
            views(out@) == without_redirect(lines(content@), source@, k as nat),
        decreases ls.len() - k,
    {
        assert(views(ls@)[k as int] == ls@[k as int]@);
        if !has_sub(&ls[k], &needle) {
            let l = ls[k].clone();
            proof { lemma_views_push(out@, l); }
            out.push(l);
        }
        k += 1;
    }
    let nl = vec!['\n'];
    assert(nl@ =~= seq!['\n']);
    let mut v = join_v(&out, &nl);
    v.push('\n');
    string_of(&v)
}

// ── password protection ─────────────────────────────────────────────────

/// The checks enabling password protection runs on its request.
pub fn check_protect(domain: &str, username: &str, password: &str) -> (r: Result<(), String>)
    ensures
        (domain@.len() == 0 || username@.len() == 0 || password@.len() == 0) ==> (r matches Err(m) && m@ == "Missing fields"@),
        !(domain@.len() == 0 || username@.len() == 0 || password@.len() == 0) && !domain_ok(domain@) ==>
            (r matches Err(m) && m@ == "Invalid domain format"@),
        !(domain@.len() == 0 || username@.len() == 0 || password@.len() == 0) && domain_ok(domain@) ==> r is Ok,
{
    if domain.is_empty() || username.is_empty() || password.is_empty() {
        return Err(msg("Missing fields"));
    }
    if !is_valid_domain(domain) {
        return Err(msg("Invalid domain format"));
    }
    Ok(())
}

/// The first `n` htpasswd lines that are kept: non-empty, and not the
/// user's own.
pub open spec fn other_users(ls: Seq<Seq<char>>, username: Seq<char>, n: nat) -> Seq<Seq<char>>
    decreases n,
{
    if n == 0 {
        Seq::empty()
    } else {
        let p = other_users(ls, username, (n - 1) as nat);
        if ls[n - 1].len() > 0 && !(username + seq![':']).is_prefix_of(ls[n - 1]) { p.push(ls[n - 1]) } else { p }
    }
}

/// The htpasswd file with `username`'s entry replaced by `username:hash`.
pub fn htpasswd_with(existing: &str, username: &str, hash: &str) -> (r: String)
    ensures
        r@ == join(other_users(lines(existing@), username@, lines(existing@).len()).push(username@ + seq![':'] + hash@), seq!['\n'])
            + seq!['\n'],
{
    let ls = lines_v(&lit(existing));
    let mut pre = lit(username);
    pre.push(':');
    let mut out: Vec<Vec<char>> = Vec::new();
    let mut k: usize = 0;
    while k < ls.len()
        invariant
            k <= ls.len(),
            views(ls@) == lines(existing@),
            pre@ == username@ + seq![':'],
            views(out@) == other_users(lines(existing@), username@, k as nat),
        decreases ls.len() - k,
    {
        assert(views(ls@)[k as int] == ls@[k as int]@);
        if ls[k].len() > 0 && !starts_with_v(&ls[k], &pre) {
            let l = ls[k].clone();
            proof { lemma_views_push(out@, l); }
            out.push(l);
        }
        k += 1;
    }
    let mut entry = pre.clone();
    append(&mut entry, &lit(hash));
    proof { lemma_views_push(out@, entry); }
    out.push(entry);
    let nl = vec!['\n'];
    assert(nl@ =~= seq!['\n']);
    let mut v = join_v(&out, &nl);
    v.push('\n');
    string_of(&v)
}

/// The location a password applies to: `/` when none is given; it must
/// start with `/` and hold no whitespace, `;`, braces or line breaks.
pub fn protected_path(path: &str) -> (r: Result<String, String>)
    ensures
        ({
            let p = if path@.len() == 0 { "/"@ } else { path@ };
            if !"/"@.is_prefix_of(p) || has_bad(p, true) {
                r matches Err(m) && m@ == "Invalid path format"@
            } else {
                r matches Ok(x) && x@ == p
            }
        }),
{
    let p = if path.is_empty() { lit("/") } else { lit(path) };
    if !starts_with_v(&p, &lit("/")) || has_bad_v(&p, true) {
        return Err(msg("Invalid path format"));
    }
    Ok(string_of(&p))
}

/// The basic-auth block for a location.
pub fn auth_block(path: &str, htpasswd_file: &str) -> (r: String)
    ensures
        r@ == "location "@ + path@ + " {\n    auth_basic \"Restricted\";\n    auth_basic_user_file "@ + htpasswd_file@
            + ";\n    try_files $uri $uri/ =404;\n}\n"@,
{
    let mut v = lit("location ");
    append(&mut v, &lit(path));
    append(&mut v, &lit(" {\n    auth_basic \"Restricted\";\n    auth_basic_user_file "));
    append(&mut v, &lit(htpasswd_file));
    append(&mut v, &lit(";\n    try_files $uri $uri/ =404;\n}\n"));
    string_of(&v)
}

/// The auth file with a block for `path` appended, unless it has one;
/// `None` when nothing changes.
pub fn auth_file_with(existing: &str, path: &str, htpasswd_file: &str) -> (r: Option<String>)
    ensures
        contains(existing@, "location "@ + path@ + seq![' ']) ==> r is None,
        !contains(existing@, "location "@ + path@ + seq![' ']) ==> (r matches Some(x) && x@ == existing@
            + "location "@ + path@ + " {\n    auth_basic \"Restricted\";\n    auth_basic_user_file "@ + htpasswd_file@
            + ";\n    try_files $uri $uri/ =404;\n}\n"@),
{
    let e = lit(existing);
    let mut needle = lit("location ");
    append(&mut needle, &lit(path));
    needle.push(' ');
    assert(needle@ =~= "location "@ + path@ + seq![' ']);
    if has_sub(&e, &needle) {
        return None;
    }
    let mut v = e;
    append(&mut v, &lit(auth_block(path, htpasswd_file).as_str()));
    Some(string_of(&v))
}

/// The protected paths an auth file lists: after `location ` up to the
/// next space, for each line that mentions it.
pub open spec fn listed_paths(ls: Seq<Seq<char>>, n: nat) -> Seq<Seq<char>>
    decreases n,
{
    if n == 0 {
        Seq::empty()
    } else {
        let p = listed_paths(ls, (n - 1) as nat);
        if contains(ls[n - 1], "location "@) && second_piece(ls[n - 1], "location "@) is Some {
            p.push(split_on(second_piece(ls[n - 1], "location "@)->0, ' ')[0])
        } else {
            p
        }
    }
}

/// The users an htpasswd file lists: the name before the first `:` of each
/// non-empty line.
pub open spec fn listed_users(ls: Seq<Seq<char>>, n: nat) -> Seq<Seq<char>>
    decreases n,
{
    if n == 0 {
        Seq::empty()
    } else {
        let p = listed_users(ls, (n - 1) as nat);
        if ls[n - 1].len() > 0 { p.push(split_on(ls[n - 1], ':')[0]) } else { p }
    }
}

/// The protected paths and users of a site.
pub fn list_protected(auth_content: &str, users_content: &str) -> (r: (Vec<String>, Vec<String>))
    ensures
        crate::text::str_views(r.0@) == listed_paths(lines(auth_content@), lines(auth_content@).len()),
        crate::text::str_views(r.1@) == listed_users(lines(users_content@), lines(users_content@).len()),
{
    let ls = lines_v(&lit(auth_content));
    let loc = lit("location ");
    let mut paths: Vec<String> = Vec::new();
    let mut k: usize = 0;
    while k < ls.len()
        invariant
            k <= ls.len(),
            views(ls@) == lines(auth_content@),
            loc@ == "location "@,
            crate::text::str_views(paths@) == listed_paths(lines(auth_content@), k as nat),
        decreases ls.len() - k,
    {
        assert(views(ls@)[k as int] == ls@[k as int]@);
        if has_sub(&ls[k], &loc) {
            match second_piece_v(&ls[k], &loc) {
                Some(a) => {
                    let pieces = split_v(&a, ' ');
                    proof { crate::text::lemma_split_on_len(a@, ' '); }
                    assert(views(pieces@)[0] == pieces@[0]@);
                    let ghost before = paths@;
                    paths.push(string_of(&pieces[0]));
                    assert(crate::text::str_views(paths@) =~= crate::text::str_views(before).push(pieces@[0]@));
                },
                None => {},
            }
        }
        k += 1;
    }
    let us = lines_v(&lit(users_content));
    let mut users: Vec<String> = Vec::new();
    let mut j: usize = 0;
    while j < us.len()
        invariant
            j <= us.len(),
            views(us@) == lines(users_content@),
            crate::text::str_views(users@) == listed_users(lines(users_content@), j as nat),
        decreases us.len() - j,
    {
        assert(views(us@)[j as int] == us@[j as int]@);
        if us[j].len() > 0 {
            let pieces = split_v(&us[j], ':');
            proof { crate::text::lemma_split_on_len(us@[j as int]@, ':'); }
            assert(views(pieces@)[0] == pieces@[0]@);
            let ghost before = users@;
            users.push(string_of(&pieces[0]));
            assert(crate::text::str_views(users@) =~= crate::text::str_views(before).push(pieces@[0]@));
        }
        j += 1;
    }
    (paths, users)
}

/// The state of removing a location block: the text kept so far, whether
/// lines are being skipped, and the brace depth inside the skipped block.
pub type SkipState = (Seq<char>, bool, int);

/// One line through the removal of `path`'s block.
pub open spec fn skip_step(st: SkipState, line: Seq<char>, path: Seq<char>) -> SkipState {
    let (out, skip0, depth0) = st;
    let starts = contains(line, "location "@ + path + seq![' ']);
    let skip = starts || skip0;
    let depth = if starts { 0 } else { depth0 };
    if skip {
        let d = depth + count_of(line, '{') - count_of(line, '}');
        if d <= 0 && line.contains('}') { (out, false, d) } else { (out, true, d) }
    } else {
        (out + line + seq!['\n'], false, depth)
    }
}

/// The state after the first `n` lines.
pub open spec fn skip_run(ls: Seq<Seq<char>>, path: Seq<char>, n: nat) -> SkipState
    decreases n,
{
    if n == 0 { (Seq::empty(), false, 0) } else { skip_step(skip_run(ls, path, (n - 1) as nat), ls[n - 1], path) }
}

proof fn lemma_skip_run_bounds(ls: Seq<Seq<char>>, path: Seq<char>, n: nat)
    requires n <= ls.len(),
    ensures
        -total_len(ls.take(n as int)) <= skip_run(ls, path, n).2 <= total_len(ls.take(n as int)),
    decreases n,
{
    if n > 0 {
        lemma_skip_run_bounds(ls, path, (n - 1) as nat);
        lemma_count_of_bound(ls[n - 1], '{');
        lemma_count_of_bound(ls[n - 1], '}');
        lemma_total_len_step(ls, n - 1);
    }
}

/// The auth file with the location block for `path` removed.
pub fn remove_protection(content: &str, path: &str) -> (r: String)
    ensures r@ == skip_run(lines(content@), path@, lines(content@).len()).0,
{
    let cv = lit(content);
    let ls = lines_v(&cv);
    let mut needle = lit("location ");
    append(&mut needle, &lit(path));
    needle.push(' ');
    let mut out: Vec<char> = Vec::new();
    let mut skip = false;
    let mut depth: i128 = 0;
    proof {
        lemma_lines_total(content@);
        lemma_total_len_take(lines(content@), lines(content@).len() as int);
    }
    let mut k: usize = 0;
    while k < ls.len()
        invariant
            k <= ls.len(),
            views(ls@) == lines(content@),
            cv@ == content@,
            needle@ == "location "@ + path@ + seq![' '],
            total_len(lines(content@)) <= cv.len(),
            skip_run(lines(content@), path@, k as nat) == (out@, skip, depth as int),
        decreases ls.len() - k,
    {
        proof {
            lemma_skip_run_bounds(lines(content@), path@, k as nat);
            lemma_total_len_step(lines(content@), k as int);
            lemma_total_len_take(lines(content@), k + 1);
        }
        let line = &ls[k];
        assert(line@ == lines(content@)[k as int]);
        let starts = has_sub(line, &needle);
        if starts {
            skip = true;
            depth = 0;
        }
        if skip {
            let opens = count_of_v(line, '{');
            let closes = count_of_v(line, '}');
            proof {
                lemma_count_of_bound(line@, '{');
                lemma_count_of_bound(line@, '}');
            }
            depth = depth + opens as i128 - closes as i128;
            if depth <= 0 && has_char(line, '}') {
                skip = false;
            }
        } else {
            append(&mut out, line);
            out.push('\n');
        }
        k += 1;
    }
    string_of(&out)
}

// ── aliases ─────────────────────────────────────────────────────────────

/// The checks adding an alias runs.
pub fn check_alias(domain: &str, alias: &str) -> (r: Result<(), String>)
    ensures
        (domain@.len() == 0 || alias@.len() == 0) ==> (r matches Err(m) && m@ == "Missing fields"@),
        !(domain@.len() == 0 || alias@.len() == 0) && !domain_ok(domain@) ==> (r matches Err(m) && m@ == "Invalid domain format"@),
        !(domain@.len() == 0 || alias@.len() == 0) && domain_ok(domain@) && !domain_ok(alias@) ==>
            (r matches Err(m) && m@ == "Invalid alias domain format"@),
        !(domain@.len() == 0 || alias@.len() == 0) && domain_ok(domain@) && domain_ok(alias@) ==> r is Ok,
{
    if domain.is_empty() || alias.is_empty() {
        return Err(msg("Missing fields"));
    }
    if !is_valid_domain(domain) {
        return Err(msg("Invalid domain format"));
    }
    if !is_valid_domain(alias) {
        return Err(msg("Invalid alias domain format"));
    }
    Ok(())
}

/// The vhost with `alias` added to `domain`'s `server_name`, or the error
/// when the directive is not there to extend.
pub fn add_alias_to(content: &str, domain: &str, alias: &str) -> (r: Result<String, String>)
    ensures
        ({
            let c = replace_all(content@, "server_name "@ + domain@ + seq![';'], "server_name "@ + domain@ + seq![' '] + alias@ + seq![';']);
            if c == content@ {
                r matches Err(m) && m@ == "Could not find server_name directive"@
            } else {
                r matches Ok(x) && x@ == c
            }
        }),
{
    let mut from = lit("server_name ");
    append(&mut from, &lit(domain));
    from.push(';');
    let mut to = lit("server_name ");
    append(&mut to, &lit(domain));
    to.push(' ');
    append(&mut to, &lit(alias));
    to.push(';');
    assert(from@ =~= "server_name "@ + domain@ + seq![';']);
    assert(to@ =~= "server_name "@ + domain@ + seq![' '] + alias@ + seq![';']);
    let cv = lit(content);
    let c = replace_all_v(&cv, &from, &to);
    if eq_v(&c, &cv) {
        return Err(msg("Could not find server_name directive"));
    }
    Ok(string_of(&c))
}

/// The vhost with `alias` taken out: ` alias` removed, then `alias `.
pub fn remove_alias_from(content: &str, alias: &str) -> (r: String)
    requires alias@.len() > 0,
    ensures r@ == replace_all(replace_all(content@, seq![' '] + alias@, Seq::empty()), alias@ + seq![' '], Seq::empty()),
{
    let mut a = vec![' '];
    append(&mut a, &lit(alias));
    let mut b = lit(alias);
    b.push(' ');
    assert(a@ =~= seq![' '] + alias@);
    assert(b@ =~= alias@ + seq![' ']);
    let empty: Vec<char> = Vec::new();
    let step = replace_all_v(&lit(content), &a, &empty);
    string_of(&replace_all_v(&step, &b, &empty))
}

// ── the .env file ───────────────────────────────────────────────────────

/// A variable read from a `.env` line that is not blank or a comment:
/// the trimmed key before the first `=`, and the trimmed value after it
/// with surrounding double, then single, quotes removed.
pub open spec fn env_var_of(l: Seq<char>) -> Option<(Seq<char>, Seq<char>)> {
    if trim(l).len() == 0 || "#"@.is_prefix_of(trim(l)) {
        None
    } else {
        match find(l, seq!['=']) {
            Some(eq) => Some((trim(l.take(eq)), trim_char(trim_char(trim(l.skip(eq + 1)), '"'), '\''))),
            None => None,
        }
    }
}

/// The variables of the first `n` lines.
pub open spec fn env_vars(ls: Seq<Seq<char>>, n: nat) -> Seq<(Seq<char>, Seq<char>)>
    decreases n,
{
    if n == 0 {
        Seq::empty()
    } else {
        let p = env_vars(ls, (n - 1) as nat);
        match env_var_of(ls[n - 1]) { Some(v) => p.push(v), None => p }
    }
}

/// The variables a `.env` file sets, as `(key, value)`.
pub fn parse_env(content: &str) -> (r: Vec<(String, String)>)
    ensures
        r@.len() == env_vars(lines(content@), lines(content@).len()).len(),
        forall|i: int| 0 <= i < r@.len() ==>
            (#[trigger] r@[i]).0@ == env_vars(lines(content@), lines(content@).len())[i].0
            && r@[i].1@ == env_vars(lines(content@), lines(content@).len())[i].1,
{
    let ls = lines_v(&lit(content));
    let eq = vec!['='];
    assert(eq@ =~= seq!['=']);
    let mut out: Vec<(String, String)> = Vec::new();
    let mut k: usize = 0;
    while k < ls.len()
        invariant
            k <= ls.len(),
            views(ls@) == lines(content@),
            eq@ == seq!['='],
            out@.len() == env_vars(lines(content@), k as nat).len(),
            forall|i: int| 0 <= i < out@.len() ==>
                (#[trigger] out@[i]).0@ == env_vars(lines(content@), k as nat)[i].0
                && out@[i].1@ == env_vars(lines(content@), k as nat)[i].1,
        decreases ls.len() - k,
    {
        let l = &ls[k];
        assert(l@ == lines(content@)[k as int]);
        let t = trim_v(l);
        if t.len() > 0 && !starts_with_v(&t, &lit("#")) {
            match find_from_v(l, &eq, 0) {
                Some(p) => {
                    let head = slice(l, 0, p);
                    let tail = slice(l, p + 1, l.len());
                    assert(head@ =~= l@.take(p as int));
                    assert(tail@ =~= l@.skip(p + 1));
                    let key = trim_v(&head);
                    let val = trim_char_v(&trim_char_v(&trim_v(&tail), '"'), '\'');
                    out.push((string_of(&key), string_of(&val)));
                },
                None => {},
            }
        }
        k += 1;
    }
    out
}

/// One `.env` line as written: quoted when the value holds a space or a
/// double quote.
pub open spec fn env_line(key: Seq<char>, value: Seq<char>) -> Seq<char> {
    if value.contains(' ') || value.contains('"') {
        key + "=\""@ + value + seq!['"']
    } else {
        key + seq!['='] + value
    }
}

/// The lines written for the first `n` variables; empty keys are dropped.
pub open spec fn env_lines(vars: Seq<(Seq<char>, Seq<char>)>, n: nat) -> Seq<Seq<char>>
    decreases n,
{
    if n == 0 {
        Seq::empty()
    } else {
        let p = env_lines(vars, (n - 1) as nat);
        if vars[n - 1].0.len() > 0 { p.push(env_line(vars[n - 1].0, vars[n - 1].1)) } else { p }
    }
}

pub open spec fn pair_views(v: Seq<(String, String)>) -> Seq<(Seq<char>, Seq<char>)> {
    Seq::new(v.len(), |i: int| (v[i].0@, v[i].1@))
}

/// The `.env` text for a list of variables.
pub fn render_env(vars: &Vec<(String, String)>) -> (r: String)
    ensures r@ == join(env_lines(pair_views(vars@), vars@.len()), seq!['\n']) + seq!['\n'],
{
    let mut out: Vec<Vec<char>> = Vec::new();
    let mut i: usize = 0;
    while i < vars.len()
        invariant
            i <= vars.len(),
            views(out@) == env_lines(pair_views(vars@), i as nat),
        decreases vars.len() - i,
    {
        let k = lit(vars[i].0.as_str());
        let v = lit(vars[i].1.as_str());
        if k.len() > 0 {
            let mut line = k;
            if has_char(&v, ' ') || has_char(&v, '"') {
                append(&mut line, &lit("=\""));
                append(&mut line, &v);
                line.push('"');
            } else {
                line.push('=');
                append(&mut line, &v);
            }
            assert(line@ =~= env_line(vars@[i as int].0@, vars@[i as int].1@));
            proof { lemma_views_push(out@, line); }
            out.push(line);
        }
        i += 1;
    }
    let nl = vec!['\n'];
    assert(nl@ =~= seq!['\n']);
    let mut v = join_v(&out, &nl);
    v.push('\n');
    string_of(&v)
}

} // verus!
