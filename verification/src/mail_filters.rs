//! Turning on the mail stack's guards: wiring Rspamd's milter into Postfix,
//! and arming the sender-login check only once its map is in place.
use vstd::prelude::*;
use crate::mail::{add_milter, with_milter, RSPAMD_MILTER};
use crate::text::{chars_of, eq_v, string_of, trim, trim_v};

verus! {

/// What installing Rspamd does to `main.cf`: the new text when adding its
/// milter changes it, nothing when it is already there, and a refusal when
/// Postfix has no milter setting at all (the mail server is not installed).
pub open spec fn rspamd_edit(cf: Seq<char>) -> Result<Option<Seq<char>>, Seq<char>> {
    match with_milter(cf, RSPAMD_MILTER@) {
        Some(new_cf) => if new_cf == cf { Ok(None) } else { Ok(Some(new_cf)) },
        None => Err("Postfix has no smtpd_milters setting — install the mail server before the spam filter"@),
    }
}

pub fn rspamd_main_cf(main_cf: &str) -> (r: Result<Option<String>, String>)
    ensures
        match rspamd_edit(main_cf@) {
            Ok(Some(c)) => r matches Ok(Some(x)) && x@ == c,
            Ok(None) => r matches Ok(None),
            Err(m) => r matches Err(e) && e@ == m,
        },
{
    match add_milter(main_cf, RSPAMD_MILTER) {
        Some(new_cf) => {
            if eq_v(&chars_of(new_cf.as_str()), &chars_of(main_cf)) {
                Ok(None)
            } else {
                Ok(Some(new_cf))
            }
        },
        None => Err(string_of(&chars_of(
            "Postfix has no smtpd_milters setting — install the mail server before the spam filter",
        ))),
    }
}

// ── the sender-login check ──────────────────────────────────────────────

/// The step the sender-login enforcement awaits.
#[derive(Debug, Clone, Copy, PartialEq, Eq, Structural)]
pub enum EnforceStage {
    Start,
    WriteMap,
    Postmap,
    SetLoginMaps,
    SetRestriction,
    Done,
}

/// What the host does next.
#[derive(Debug, Clone, Copy, PartialEq, Eq, Structural)]
pub enum EnforceAction {
    /// Write the sender-login map file.
    WriteMap,
    /// `postmap` the map.
    Postmap,
    /// `postconf smtpd_sender_login_maps=hash:<map>`.
    SetLoginMaps,
    /// `postconf smtpd_sender_restrictions=reject_authenticated_sender_login_mismatch`.
    SetRestriction,
    /// Nothing more.
    Stop,
}

/// One step: the map is written, then hashed; only a map with rows, once
/// both succeeded, gets the check armed. A failure stops with the check
/// left as it was.
pub open spec fn enforce_next(st: EnforceStage, map_empty: bool, ok: bool) -> (EnforceStage, EnforceAction) {
    match st {
        EnforceStage::Start => (EnforceStage::WriteMap, EnforceAction::WriteMap),
        EnforceStage::WriteMap => if ok {
            (EnforceStage::Postmap, EnforceAction::Postmap)
        } else {
            (EnforceStage::Done, EnforceAction::Stop)
        },
        EnforceStage::Postmap => if ok && !map_empty {
            (EnforceStage::SetLoginMaps, EnforceAction::SetLoginMaps)
        } else {
            (EnforceStage::Done, EnforceAction::Stop)
        },
        EnforceStage::SetLoginMaps => (EnforceStage::SetRestriction, EnforceAction::SetRestriction),
        EnforceStage::SetRestriction => (EnforceStage::Done, EnforceAction::Stop),
        EnforceStage::Done => (EnforceStage::Done, EnforceAction::Stop),
    }
}

/// Arming the sender-login check for a map's content.
pub struct SenderEnforcement {
    pub stage: EnforceStage,
    /// The map holds no row (only whitespace).
    pub map_empty: bool,
}

impl SenderEnforcement {
    pub fn new(map_content: &str) -> (r: SenderEnforcement)
        ensures
            r.stage == EnforceStage::Start,
            r.map_empty == (trim(map_content@).len() == 0),
    {
        SenderEnforcement { stage: EnforceStage::Start, map_empty: trim_v(&chars_of(map_content)).len() == 0 }
    }

    /// Takes whether the last action succeeded (ignored for the first) and
    /// says what to do next.
    pub fn step(&mut self, ok: bool) -> (a: EnforceAction)
        ensures
            (final(self).stage, a) == enforce_next(old(self).stage, old(self).map_empty, ok),
            final(self).map_empty == old(self).map_empty,
    {
        let (st, a) = match self.stage {
            EnforceStage::Start => (EnforceStage::WriteMap, EnforceAction::WriteMap),
            EnforceStage::WriteMap => if ok {
                (EnforceStage::Postmap, EnforceAction::Postmap)
            } else {
                (EnforceStage::Done, EnforceAction::Stop)
            },
            EnforceStage::Postmap => if ok && !self.map_empty {
                (EnforceStage::SetLoginMaps, EnforceAction::SetLoginMaps)
            } else {
                (EnforceStage::Done, EnforceAction::Stop)
            },
            EnforceStage::SetLoginMaps => (EnforceStage::SetRestriction, EnforceAction::SetRestriction),
            EnforceStage::SetRestriction => (EnforceStage::Done, EnforceAction::Stop),
            EnforceStage::Done => (EnforceStage::Done, EnforceAction::Stop),
        };
        self.stage = st;
        a
    }
}

/// The check is armed only right after its map was hashed, and never for
/// an empty map: an allow-list with no rows would refuse every
/// authenticated submission.
pub proof fn law_armed_only_over_a_hashed_map(st: EnforceStage, map_empty: bool, ok: bool)
    ensures
        enforce_next(st, map_empty, ok).1 == EnforceAction::SetLoginMaps ==> st == EnforceStage::Postmap && ok && !map_empty,
        enforce_next(st, map_empty, ok).1 == EnforceAction::SetRestriction ==> st == EnforceStage::SetLoginMaps,
        enforce_next(st, map_empty, ok).1 == EnforceAction::Postmap ==> st == EnforceStage::WriteMap && ok,
{
}

} // verus!
