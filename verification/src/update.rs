//! Self-update of the agent: which targets are accepted, when an update may
//! start, how the updater is launched, and what the status endpoint reports.
//!
//! The updater's verdict file is read and parsed by the caller into an
//! [`UpdateVerdict`]; the in-memory state keeps times as whole seconds since
//! the Unix epoch.
use vstd::prelude::*;
use crate::text::{
    all_digits, all_digits_v, append, chars_of, decimal, decimal_v, eq_v, find, find_from_v, lemma_find_from,
    slice, split_on, split_v, starts_with_v, string_of, strip_leading, strip_leading_v, trim, trim_v, views,
};

verus! {

// ── target versions ─────────────────────────────────────────────────────

/// `MAJOR.MINOR.PATCH`: three non-empty runs of ASCII digits.
pub open spec fn core_ok(c: Seq<char>) -> bool {
    let p = split_on(c, '.');
    p.len() == 3 && forall|k: int| 0 <= k < 3 ==> (#[trigger] p[k]).len() > 0 && all_digits(p[k])
}

/// `rc.N` with `N` a non-empty run of ASCII digits.
pub open spec fn rc_ok(s: Seq<char>) -> bool {
    "rc."@.is_prefix_of(s) && s.len() > 3 && all_digits(s.skip(3))
}

/// An accepted update target: optional leading `v`s, then `MAJOR.MINOR.PATCH`,
/// optionally followed by `-rc.N`.
pub open spec fn version_ok(v: Seq<char>) -> bool {
    let w = strip_leading(v, 'v');
    match find(w, seq!['-']) {
        None => core_ok(w),
        Some(i) => core_ok(w.take(i)) && rc_ok(w.skip(i + 1)),
    }
}

fn core_ok_v(c: &Vec<char>) -> (r: bool)
    ensures r == core_ok(c@),
{
    let parts = split_v(c, '.');
    if parts.len() != 3 {
        return false;
    }
    let mut k: usize = 0;
    while k < 3
        invariant
            parts.len() == 3,
            k <= 3,
            views(parts@) == split_on(c@, '.'),
            forall|a: int| 0 <= a < k ==> (#[trigger] views(parts@)[a]).len() > 0 && all_digits(views(parts@)[a]),
        decreases 3 - k,
    {
        assert(views(parts@)[k as int] == parts@[k as int]@);
        if parts[k].len() == 0 || !all_digits_v(&parts[k]) {
            return false;
        }
        k += 1;
    }
    true
}

fn rc_ok_v(s: &Vec<char>) -> (r: bool)
    ensures r == rc_ok(s@),
{
    let pre = chars_of("rc.");
    proof { reveal_strlit("rc."); }
    if !starts_with_v(s, &pre) || s.len() <= 3 {
        return false;
    }
    let n = slice(s, 3, s.len());
    assert(n@ =~= s@.skip(3));
    all_digits_v(&n)
}

/// Whether `v` names a release the updater may install.
pub fn validate_target_version(v: &str) -> (r: bool)
    ensures r == version_ok(v@),
{
    let vv = chars_of(v);
    let w = strip_leading_v(&vv, 'v');
    let dash = vec!['-'];
    assert(dash@ =~= seq!['-']);
    proof { lemma_find_from(w@, dash@, 0); }
    match find_from_v(&w, &dash, 0) {
        None => core_ok_v(&w),
        Some(i) => {
            let core = slice(&w, 0, i);
            let rest = slice(&w, i + 1, w.len());
            assert(core@ =~= w@.take(i as int));
            assert(rest@ =~= w@.skip(i + 1));
            core_ok_v(&core) && rc_ok_v(&rest)
        },
    }
}

// ── starting an update ──────────────────────────────────────────────────

/// Why an update could not be started.
pub enum StartUpdateError {
    Invalid(String),
    InFlight,
    Internal(String),
}

impl StartUpdateError {
    /// The HTTP status the request path answers with.
    pub fn status_code(&self) -> (r: u16)
        ensures
            r == match self {
                StartUpdateError::Invalid(_) => 400u16,
                StartUpdateError::InFlight => 409u16,
                StartUpdateError::Internal(_) => 500u16,
            },
    {
        match self {
            StartUpdateError::Invalid(_) => 400,
            StartUpdateError::InFlight => 409,
            StartUpdateError::Internal(_) => 500,
        }
    }

    /// The message the request path answers with.
    pub fn message(&self) -> (r: String)
        ensures
            r@ == match self {
                StartUpdateError::Invalid(v) => "invalid target_version: "@ + v@,
                StartUpdateError::InFlight => "an update is already in flight"@,
                StartUpdateError::Internal(m) => m@,
            },
    {
        match self {
            StartUpdateError::Invalid(v) => {
                let mut r = chars_of("invalid target_version: ");
                let vv = chars_of(v.as_str());
                append(&mut r, &vv);
                string_of(&r)
            },
            StartUpdateError::InFlight => {
                let r = chars_of("an update is already in flight");
                string_of(&r)
            },
            StartUpdateError::Internal(m) => m.clone(),
        }
    }
}

/// Which updater a box runs.
#[derive(PartialEq, Eq, Structural, Clone, Copy)]
pub enum UpdateMode {
    /// The box has the API binary and the panel updater: update the panel.
    FullPanel,
    /// An agent-only box: update just the agent binary.
    AgentOnly,
}

/// A full panel install keeps the panel updater; every other box gets the
/// agent-only one.
pub fn update_mode(has_update_script: bool, has_api_binary: bool) -> (r: UpdateMode)
    ensures r == (if has_update_script && has_api_binary { UpdateMode::FullPanel } else { UpdateMode::AgentOnly }),
{
    if has_update_script && has_api_binary { UpdateMode::FullPanel } else { UpdateMode::AgentOnly }
}

/// The process-local update state. Times are whole seconds since the epoch.
pub enum AgentUpdateState {
    Idle,
    InFlight { target_version: String, started_at: i64, last_log_line: Option<String> },
    Succeeded { version: String, completed_at: i64 },
    Failed { reason: String, at: i64 },
}

/// What the start decision leaves behind: the state to store and the mode
/// to run, or the error to answer with (the state is then unchanged).
pub struct StartDecision {
    pub state: AgentUpdateState,
    pub target: String,
}

/// The in-flight state that claims the update slot for `target` at `now`.
pub open spec fn is_claim(s: AgentUpdateState, target: Seq<char>, now: i64) -> bool {
    match s {
        AgentUpdateState::InFlight { target_version, started_at, last_log_line } =>
            target_version@ == target && started_at == now && last_log_line is None,
        _ => false,
    }
}

/// Decides whether an update of this box to `target` may start.
///
/// `run_finished` says whether a run recorded as in flight has already
/// reached its verdict; `now` is the current time. Check and claim are one
/// step: the state returned is the claim.
pub fn decide_start(target: &str, state: &AgentUpdateState, run_finished: bool, now: i64) -> (r: Result<StartDecision, StartUpdateError>)
    ensures
        !version_ok(trim(target@)) ==> (r matches Err(StartUpdateError::Invalid(t)) && t@ == trim(target@)),
        version_ok(trim(target@)) && state is InFlight && !run_finished ==> r matches Err(StartUpdateError::InFlight),
        version_ok(trim(target@)) && !(state is InFlight && !run_finished) ==>
            (r matches Ok(d) && d.target@ == trim(target@) && is_claim(d.state, trim(target@), now)),
{
    let tv = chars_of(target);
    let t = trim_v(&tv);
    let ts = string_of(&t);
    if !validate_target_version(ts.as_str()) {
        return Err(StartUpdateError::Invalid(ts));
    }
    match state {
        AgentUpdateState::InFlight { .. } => {
            if !run_finished {
                return Err(StartUpdateError::InFlight);
            }
        },
        _ => {},
    }
    let claim = AgentUpdateState::InFlight { target_version: string_of(&t), started_at: now, last_log_line: None };
    Ok(StartDecision { state: claim, target: ts })
}

/// The state after the updater could not be staged on disk: back to idle,
/// with the error the request answers.
pub fn staging_failed(detail: &str) -> (r: (AgentUpdateState, StartUpdateError))
    ensures
        r.0 is Idle,
        r.1 matches StartUpdateError::Internal(m) && m@ == "could not stage the agent updater: "@ + detail@,
{
    let mut m = chars_of("could not stage the agent updater: ");
    let d = chars_of(detail);
    append(&mut m, &d);
    (AgentUpdateState::Idle, StartUpdateError::Internal(string_of(&m)))
}

// ── launching the updater ───────────────────────────────────────────────

pub open spec fn lit(s: &str) -> Seq<char> {
    s@
}

/// The arguments given to `systemd-run` for an update to `target`; `unit_id`
/// makes the transient unit's name unique.
pub open spec fn launcher_args(unit_id: nat, target: Seq<char>, mode: UpdateMode) -> Seq<Seq<char>> {
    let common = seq![
        "--quiet"@,
        "--collect"@,
        "--unit=dockpanel-agent-update-"@ + decimal(unit_id),
        "--setenv=DOCKPANEL_VERSION="@ + target,
    ];
    match mode {
        UpdateMode::FullPanel => common + seq![
            "--setenv=INSTALL_FROM_RELEASE=1"@,
            "--setenv=DOCKPANEL_NO_SELF_REFRESH=1"@,
            "--setenv=DOCKPANEL_UPDATE_DETACHED=1"@,
            "bash"@,
            "/opt/dockpanel/scripts/update.sh"@,
        ],
        UpdateMode::AgentOnly => common + seq![
            "--setenv=DOCKPANEL_AGENT_UPDATE_DETACHED=1"@,
            "bash"@,
            "/var/lib/dockpanel/agent-self-update.sh"@,
        ],
    }
}

fn push_lit(out: &mut Vec<Vec<char>>, s: &str)
    ensures views(final(out)@) == views(old(out)@).push(s@),
{
    let v = chars_of(s);
    let ghost before = out@;
    out.push(v);
    assert(views(out@) =~= views(before).push(s@));
}

/// The `systemd-run` arguments for an update to `target`.
pub fn updater_args(unit_id: u64, target: &str, mode: UpdateMode) -> (r: Vec<Vec<char>>)
    ensures views(r@) == launcher_args(unit_id as nat, target@, mode),
{
    let mut out: Vec<Vec<char>> = Vec::new();
    push_lit(&mut out, "--quiet");
    push_lit(&mut out, "--collect");
    let mut unit = chars_of("--unit=dockpanel-agent-update-");
    let d = decimal_v(unit_id);
    append(&mut unit, &d);
    let ghost b1 = out@;
    out.push(unit);
    assert(views(out@) =~= views(b1).push("--unit=dockpanel-agent-update-"@ + decimal(unit_id as nat)));
    let mut env = chars_of("--setenv=DOCKPANEL_VERSION=");
    let tv = chars_of(target);
    append(&mut env, &tv);
    let ghost b2 = out@;
    out.push(env);
    assert(views(out@) =~= views(b2).push("--setenv=DOCKPANEL_VERSION="@ + target@));
    match mode {
        UpdateMode::FullPanel => {
            push_lit(&mut out, "--setenv=INSTALL_FROM_RELEASE=1");
            push_lit(&mut out, "--setenv=DOCKPANEL_NO_SELF_REFRESH=1");
            push_lit(&mut out, "--setenv=DOCKPANEL_UPDATE_DETACHED=1");
            push_lit(&mut out, "bash");
            push_lit(&mut out, "/opt/dockpanel/scripts/update.sh");
        },
        UpdateMode::AgentOnly => {
            push_lit(&mut out, "--setenv=DOCKPANEL_AGENT_UPDATE_DETACHED=1");
            push_lit(&mut out, "bash");
            push_lit(&mut out, "/var/lib/dockpanel/agent-self-update.sh");
        },
    }
    assert(views(out@) =~= launcher_args(unit_id as nat, target@, mode));
    out
}

/// How the launcher process ended.
pub enum LaunchEnd {
    /// It exited; `description` is how the exit status prints.
    Exited { success: bool, description: String },
    /// Waiting for it failed.
    WaitError { description: String },
    /// It did not return within the time allowed.
    TimedOut,
}

/// The failure reason a launcher outcome records, if any. A successful exit
/// only means the work was handed to PID1, so it records nothing.
pub fn launch_failure(end: &LaunchEnd) -> (r: Option<String>)
    ensures
        match end {
            LaunchEnd::Exited { success, description } =>
                if *success { r is None } else {
                    r matches Some(m) && m@ == "could not start the update unit ("@ + description@ + ")"@
                },
            LaunchEnd::WaitError { description } => r matches Some(m) && m@ == "wait error: "@ + description@,
            LaunchEnd::TimedOut => r matches Some(m) && m@ == "updater did not return within 15min"@,
        },
{
    match end {
        LaunchEnd::Exited { success, description } => {
            if *success {
                None
            } else {
                let mut m = chars_of("could not start the update unit (");
                let d = chars_of(description.as_str());
                append(&mut m, &d);
                let close = chars_of(")");
                append(&mut m, &close);
                Some(string_of(&m))
            }
        },
        LaunchEnd::WaitError { description } => {
            let mut m = chars_of("wait error: ");
            let d = chars_of(description.as_str());
            append(&mut m, &d);
            Some(string_of(&m))
        },
        LaunchEnd::TimedOut => Some(string_of(&chars_of("updater did not return within 15min"))),
    }
}

/// The state a launch leaves: a hand-off keeps the run in flight (the
/// updater's verdict decides it later); a launcher that failed fails the run
/// with its reason at `now`.
pub fn state_after_launch(state: AgentUpdateState, end: &LaunchEnd, now: i64) -> (r: AgentUpdateState)
    ensures
        match end {
            LaunchEnd::Exited { success, description } =>
                if *success { r == state } else {
                    r matches AgentUpdateState::Failed { reason, at }
                        && reason@ == "could not start the update unit ("@ + description@ + ")"@ && at == now
                },
            LaunchEnd::WaitError { description } => r matches AgentUpdateState::Failed { reason, at }
                && reason@ == "wait error: "@ + description@ && at == now,
            LaunchEnd::TimedOut => r matches AgentUpdateState::Failed { reason, at }
                && reason@ == "updater did not return within 15min"@ && at == now,
        },
{
    match launch_failure(end) {
        Some(reason) => AgentUpdateState::Failed { reason, at: now },
        None => state,
    }
}

/// What an updater output line leaves as the in-flight progress line: nothing
/// for an empty line, else its first 256 characters.
pub fn progress_line(line: &str) -> (r: Option<String>)
    ensures
        line@.len() == 0 ==> r is None,
        line@.len() > 0 ==> (r matches Some(x) && x@ == line@.take(if line@.len() < 256 { line@.len() as int } else { 256 })),
{
    let v = chars_of(line);
    if v.len() == 0 {
        return None;
    }
    let n = if v.len() < 256 { v.len() } else { 256 };
    let p = slice(&v, 0, n);
    assert(p@ =~= line@.take(n as int));
    Some(string_of(&p))
}

// ── the updater's verdict ───────────────────────────────────────────────

/// The fields of the updater's verdict file; each is `None` when absent or
/// of another JSON type.
pub struct UpdateVerdict {
    pub ok: Option<bool>,
    pub target_version: Option<String>,
    pub stage: Option<String>,
    pub reason: Option<String>,
    pub at: Option<String>,
}

pub open spec fn field_or(f: Option<String>, d: Seq<char>) -> Seq<char> {
    match f {
        Some(x) => x@,
        None => d,
    }
}

/// `Ok(target)` on a recorded success, `Err((stage, reason))` on a recorded
/// failure, `None` when no verdict was recorded or it says neither.
pub fn last_agent_update_result(verdict: &Option<UpdateVerdict>) -> (r: Option<Result<String, (String, String)>>)
    ensures
        match verdict {
            None => r is None,
            Some(v) => match v.ok {
                Some(true) => r matches Some(Ok(t)) && t@ == strip_leading(field_or(v.target_version, Seq::empty()), 'v'),
                Some(false) => r matches Some(Err((st, re)))
                    && st@ == field_or(v.stage, "unknown"@)
                    && re@ == field_or(v.reason, "agent update failed"@),
                None => r is None,
            },
        },
{
    match verdict {
        None => None,
        Some(v) => match v.ok {
            Some(true) => {
                let t = match &v.target_version {
                    Some(x) => chars_of(x.as_str()),
                    None => Vec::new(),
                };
                let s = strip_leading_v(&t, 'v');
                Some(Ok(string_of(&s)))
            },
            Some(false) => {
                let st = match &v.stage {
                    Some(x) => x.clone(),
                    None => string_of(&chars_of("unknown")),
                };
                let re = match &v.reason {
                    Some(x) => x.clone(),
                    None => string_of(&chars_of("agent update failed")),
                };
                Some(Err((st, re)))
            },
            None => None,
        },
    }
}

/// Stages the updater reaches only after it has replaced the binary.
pub open spec fn post_swap(stage: Seq<char>) -> bool {
    stage == "swap"@ || stage == "unit"@ || stage == "restart"@ || stage == "verify-running"@
        || stage == "rollback"@
}

fn is_lit(v: &Vec<char>, s: &str) -> (r: bool)
    ensures r == (v@ == s@),
{
    let l = chars_of(s);
    eq_v(v, &l)
}

/// Whether a failure at `stage` came after the binary was replaced.
pub fn is_post_swap_stage(stage: &str) -> (r: bool)
    ensures r == post_swap(stage@),
{
    let v = chars_of(stage);
    is_lit(&v, "swap") || is_lit(&v, "unit") || is_lit(&v, "restart") || is_lit(&v, "verify-running")
        || is_lit(&v, "rollback")
}

/// Did a previous run already fail this exact target after replacing the
/// binary? The stage and reason, if so.
pub fn target_already_failed_destructively(target: &str, verdict: &Option<UpdateVerdict>) -> (r: Option<String>)
    ensures
        r is Some <==> (verdict matches Some(v) && v.ok == Some(false)
            && v.target_version is Some && v.stage is Some
            && strip_leading(v.target_version->0@, 'v') == strip_leading(target@, 'v')
            && post_swap(v.stage->0@)),
        r matches Some(m) ==> (verdict matches Some(v) && m@ == "stage "@ + v.stage->0@ + ": "@
            + field_or(v.reason, "no reason recorded"@)),
{
    match verdict {
        None => None,
        Some(v) => {
            match v.ok {
                Some(false) => {},
                _ => { return None; },
            }
            let recorded = match &v.target_version {
                Some(x) => chars_of(x.as_str()),
                None => { return None; },
            };
            let a = strip_leading_v(&recorded, 'v');
            let tv = chars_of(target);
            let b = strip_leading_v(&tv, 'v');
            if !eq_v(&a, &b) {
                return None;
            }
            let stage = match &v.stage {
                Some(x) => x,
                None => { return None; },
            };
            if !is_post_swap_stage(stage.as_str()) {
                return None;
            }
            let mut m = chars_of("stage ");
            let sv = chars_of(stage.as_str());
            append(&mut m, &sv);
            let sep = chars_of(": ");
            append(&mut m, &sep);
            let reason = match &v.reason {
                Some(x) => chars_of(x.as_str()),
                None => chars_of("no reason recorded"),
            };
            append(&mut m, &reason);
            Some(string_of(&m))
        },
    }
}

/// The whole seconds since the epoch of an RFC 3339 timestamp, as
/// `chrono::DateTime::parse_from_rfc3339(..).timestamp()` gives them.
pub uninterp spec fn rfc3339_seconds(s: Seq<char>) -> Option<i64>;

/// `chrono::DateTime::parse_from_rfc3339`, then the instant's whole seconds
/// since the epoch; `None` when the text is not RFC 3339. The offset in the
/// text fixes the instant, so the result depends on the text alone.
#[verifier::external_body]
fn parse_rfc3339_seconds(s: &str) -> (r: Option<i64>)
    ensures r == rfc3339_seconds(s@),
{
    chrono::DateTime::parse_from_rfc3339(s).ok().map(|t| t.timestamp())
}

/// Whether a verdict stamped at `verdict_at` (seconds, if it parsed)
/// describes a run that began at `started_at`: at whole-second resolution, a
/// verdict from the run's own second counts.
pub fn verdict_is_current(verdict_at: Option<i64>, started_at: i64) -> (r: bool)
    ensures r == (verdict_at matches Some(t) && t >= started_at),
{
    match verdict_at {
        Some(t) => t >= started_at,
        None => false,
    }
}

/// Has the run that began at `started_at` already reached a verdict?
pub fn run_has_finished(verdict: &Option<UpdateVerdict>, started_at: i64) -> (r: bool)
    ensures
        r == (verdict matches Some(v) && v.at matches Some(at)
            && rfc3339_seconds(at@) matches Some(t) && t >= started_at),
{
    match verdict {
        None => false,
        Some(v) => match &v.at {
            None => false,
            Some(at) => verdict_is_current(parse_rfc3339_seconds(at.as_str()), started_at),
        },
    }
}

// ── the status endpoint ─────────────────────────────────────────────────

/// What the status endpoint reports instead of the in-memory state, if
/// anything.
pub enum StatusOverride {
    /// The in-memory state stands.
    Keep,
    /// The verdict records a failure of this run.
    Failed { reason: String },
    /// The verdict records success and this process is that version.
    Succeeded { version: String },
}

/// Whether the on-disk verdict describes the state being reported: always
/// when idle, when in flight only once that run has finished.
pub open spec fn verdict_applies(state: AgentUpdateState, run_finished: bool) -> bool {
    match state {
        AgentUpdateState::Idle => true,
        AgentUpdateState::InFlight { .. } => run_finished,
        _ => false,
    }
}

/// Decides what the status endpoint reports: `result` is the verdict file's
/// reading, `running_version` the version of this very process.
pub fn status_override(
    state: &AgentUpdateState,
    run_finished: bool,
    result: &Option<Result<String, (String, String)>>,
    running_version: &str,
) -> (r: StatusOverride)
    ensures
        !verdict_applies(*state, run_finished) ==> r is Keep,
        verdict_applies(*state, run_finished) ==> match result {
            Some(Err((stage, reason))) => r matches StatusOverride::Failed { reason: m }
                && m@ == reason@ + " (stage "@ + stage@ + ")"@,
            Some(Ok(v)) => if v@ == running_version@ {
                r matches StatusOverride::Succeeded { version } && version@ == v@
            } else {
                r is Keep
            },
            None => r is Keep,
        },
{
    let applies = match state {
        AgentUpdateState::Idle => true,
        AgentUpdateState::InFlight { .. } => run_finished,
        _ => false,
    };
    if !applies {
        return StatusOverride::Keep;
    }
    match result {
        Some(Err((stage, reason))) => {
            let mut m = chars_of(reason.as_str());
            let a = chars_of(" (stage ");
            append(&mut m, &a);
            let s = chars_of(stage.as_str());
            append(&mut m, &s);
            let b = chars_of(")");
            append(&mut m, &b);
            StatusOverride::Failed { reason: string_of(&m) }
        },
        Some(Ok(v)) => {
            let a = chars_of(v.as_str());
            let b = chars_of(running_version);
            if eq_v(&a, &b) {
                StatusOverride::Succeeded { version: v.clone() }
            } else {
                StatusOverride::Keep
            }
        },
        None => StatusOverride::Keep,
    }
}

} // verus!
