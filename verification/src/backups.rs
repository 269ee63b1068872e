//! Site backups: what a partial restore reports, and which restored
//! entries go back to the web server.
use vstd::prelude::*;
use crate::text::{append, chars_of, decimal, decimal_v, eq_v, join, join_v, lemma_views_push, str_views, string_of, views};

verus! {

/// A database a restore could not load, and why.
pub struct DbFailure {
    pub db_name: String,
    pub error: String,
}

pub open spec fn failure_line(f: DbFailure) -> Seq<char> {
    f.db_name@ + ": "@ + f.error@
}

pub open spec fn failure_lines(fs: Seq<DbFailure>) -> Seq<Seq<char>> {
    Seq::new(fs.len(), |i: int| failure_line(fs[i]))
}

/// The plain sentence a failed restore carries under `error`: the files
/// came back but named databases did not, or nothing came back.
pub open spec fn restore_summary(files_restored: bool, fs: Seq<DbFailure>) -> Seq<char> {
    let detail = join(failure_lines(fs), "; "@);
    if files_restored {
        "The site's files were restored, but "@ + decimal(fs.len()) + " database(s) were NOT: "@ + detail
    } else {
        "Restore failed: "@ + detail
    }
}

pub fn restore_summary_v(files_restored: bool, failures: &Vec<DbFailure>) -> (r: String)
    ensures r@ == restore_summary(files_restored, failures@),
{
    let mut parts: Vec<Vec<char>> = Vec::new();
    let mut i: usize = 0;
    while i < failures.len()
        invariant
            i <= failures.len(),
            views(parts@) == failure_lines(failures@).take(i as int),
        decreases failures.len() - i,
    {
        let mut line = chars_of(failures[i].db_name.as_str());
        append(&mut line, &chars_of(": "));
        append(&mut line, &chars_of(failures[i].error.as_str()));
        proof { lemma_views_push(parts@, line); }
        parts.push(line);
        i += 1;
        assert(views(parts@) =~= failure_lines(failures@).take(i as int));
    }
    assert(failure_lines(failures@).take(failures.len() as int) =~= failure_lines(failures@));
    let detail = join_v(&parts, &chars_of("; "));
    let mut v = if files_restored {
        let mut h = chars_of("The site's files were restored, but ");
        append(&mut h, &decimal_v(failures.len() as u64));
        append(&mut h, &chars_of(" database(s) were NOT: "));
        h
    } else {
        chars_of("Restore failed: ")
    };
    append(&mut v, &detail);
    string_of(&v)
}

/// The entries of a restored site that go back to the web server: all but
/// `.git`, which stays root's.
pub open spec fn handed_back(names: Seq<Seq<char>>) -> Seq<Seq<char>>
    decreases names.len(),
{
    if names.len() == 0 {
        Seq::empty()
    } else {
        let p = handed_back(names.drop_last());
        if names.last() == ".git"@ { p } else { p.push(names.last()) }
    }
}

pub fn entries_to_hand_back(names: &Vec<String>) -> (r: Vec<String>)
    ensures str_views(r@) == handed_back(str_views(names@)),
{
    let git = chars_of(".git");
    let mut out: Vec<String> = Vec::new();
    let mut i: usize = 0;
    while i < names.len()
        invariant
            i <= names.len(),
            git@ == ".git"@,
            str_views(out@) == handed_back(str_views(names@).take(i as int)),
        decreases names.len() - i,
    {
        assert(str_views(names@).take(i + 1).drop_last() =~= str_views(names@).take(i as int));
        assert(str_views(names@).take(i + 1).last() == names@[i as int]@);
        let n = chars_of(names[i].as_str());
        if !eq_v(&n, &git) {
            let s = string_of(&n);
            let ghost before = out@;
            out.push(s);
            assert(str_views(out@) =~= str_views(before).push(n@));
        }
        i += 1;
    }
    assert(str_views(names@).take(names.len() as int) =~= str_views(names@));
    out
}

} // verus!
