//! Security routes: which refusals of the firewall service are the
//! caller's to fix, and the shape of a diagnostic fix id.
use vstd::prelude::*;
use crate::text::{chars_of, contains, find_from_v, lemma_find_from, string_of};

verus! {

fn holds(s: &str, p: &str) -> (r: bool)
    ensures r == contains(s@, p@),
{
    proof { lemma_find_from(s@, p@, 0); }
    find_from_v(&chars_of(s), &chars_of(p), 0).is_some()
}

/// A one-click diagnostic fix names itself in 1 to 256 bytes.
pub fn check_fix_id(fix_id: &str) -> (r: Result<(), String>)
    ensures
        r is Ok <==> (fix_id@.len() > 0 && fix_id.len() <= 256),
        r matches Err(m) ==> m@ == "Invalid fix_id"@,
{
    if fix_id.is_empty() || fix_id.len() > 256 {
        Err(string_of(&chars_of("Invalid fix_id")))
    } else {
        Ok(())
    }
}

/// The status a firewall-rule refusal answers with: 400 for a rule the
/// service called invalid, 500 otherwise.
pub fn firewall_add_status(e: &str) -> (r: u16)
    ensures r == (if contains(e@, "Invalid"@) { 400u16 } else { 500u16 }),
{
    if holds(e, "Invalid") { 400 } else { 500 }
}

/// The status a rule removal's refusal answers with: 400 for a number out
/// of range ("must be"), 500 otherwise.
pub fn firewall_delete_status(e: &str) -> (r: u16)
    ensures r == (if contains(e@, "must be"@) { 400u16 } else { 500u16 }),
{
    if holds(e, "must be") { 400 } else { 500 }
}

} // verus!
