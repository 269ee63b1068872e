use dockpanel_agent::update::state_after_launch;
use dockpanel_agent::update::{
    decide_start, is_post_swap_stage, last_agent_update_result, launch_failure, run_has_finished, status_override,
    target_already_failed_destructively, update_mode, updater_args, validate_target_version, verdict_is_current,
    AgentUpdateState, LaunchEnd, StartUpdateError, StatusOverride, UpdateMode, UpdateVerdict,
};

#[test]
fn target_version_validator_matches_the_panel_side() {
    for good in ["v2.11.7", "2.11.7", "v2.11.7-rc.1", "10.20.30"] {
        assert!(validate_target_version(good), "{good} should be accepted");
    }
    for bad in ["", "v", "v2.11", "latest", "2.11.7; rm -rf /", "v2.11.7-alpha"] {
        assert!(!validate_target_version(bad), "{bad} should be rejected");
    }
}

fn verdict(ok: Option<bool>, target: Option<&str>, stage: Option<&str>, reason: Option<&str>, at: Option<&str>) -> UpdateVerdict {
    UpdateVerdict {
        ok,
        target_version: target.map(|s| s.to_string()),
        stage: stage.map(|s| s.to_string()),
        reason: reason.map(|s| s.to_string()),
        at: at.map(|s| s.to_string()),
    }
}

#[test]
fn only_stages_after_the_swap_count_as_destructive() {
    for stage in ["swap", "unit", "restart", "verify-running", "rollback"] {
        assert!(is_post_swap_stage(stage));
    }
    for stage in ["download", "verify", "arch", "probe", "init", "complete"] {
        assert!(!is_post_swap_stage(stage));
    }
    let v = Some(verdict(Some(false), Some("v2.1.0"), Some("restart"), Some("health poll failed"), None));
    assert_eq!(
        target_already_failed_destructively("2.1.0", &v),
        Some("stage restart: health poll failed".to_string())
    );
    assert_eq!(target_already_failed_destructively("2.1.1", &v), None);
    let early = Some(verdict(Some(false), Some("2.1.0"), Some("download"), None, None));
    assert_eq!(target_already_failed_destructively("2.1.0", &early), None);
    let no_reason = Some(verdict(Some(false), Some("2.1.0"), Some("swap"), None, None));
    assert_eq!(
        target_already_failed_destructively("v2.1.0", &no_reason),
        Some("stage swap: no reason recorded".to_string())
    );
    assert_eq!(target_already_failed_destructively("2.1.0", &None), None);
}

#[test]
fn the_verdict_file_reads_as_success_failure_or_nothing() {
    assert_eq!(
        last_agent_update_result(&Some(verdict(Some(true), Some("vv3.0.0"), None, None, None))),
        Some(Ok("3.0.0".to_string()))
    );
    assert_eq!(
        last_agent_update_result(&Some(verdict(Some(false), None, None, None, None))),
        Some(Err(("unknown".to_string(), "agent update failed".to_string())))
    );
    assert_eq!(last_agent_update_result(&Some(verdict(None, None, None, None, None))), None);
    assert_eq!(last_agent_update_result(&None), None);
}

#[test]
fn a_verdict_from_the_runs_own_second_counts() {
    assert!(verdict_is_current(Some(100), 100));
    assert!(!verdict_is_current(Some(99), 100));
    assert!(!verdict_is_current(None, 100));
    let v = Some(verdict(Some(false), None, None, None, Some("1970-01-01T00:01:40Z")));
    assert!(run_has_finished(&v, 100));
    assert!(!run_has_finished(&v, 101));
    let bad = Some(verdict(Some(false), None, None, None, Some("yesterday")));
    assert!(!run_has_finished(&bad, 0));
}

#[test]
fn an_update_is_claimed_only_when_none_is_running() {
    let idle = AgentUpdateState::Idle;
    match decide_start(" v1.2.3 ", &idle, false, 42) {
        Ok(d) => {
            assert_eq!(d.target, "v1.2.3");
            assert!(matches!(d.state, AgentUpdateState::InFlight { ref target_version, started_at: 42, last_log_line: None } if target_version == "v1.2.3"));
        }
        Err(_) => panic!("a valid target must be claimed"),
    }
    let running = AgentUpdateState::InFlight { target_version: "1.0.0".into(), started_at: 1, last_log_line: None };
    let e = decide_start("1.2.3", &running, false, 42).err().unwrap();
    assert_eq!((e.status_code(), e.message()), (409, "an update is already in flight".to_string()));
    assert!(decide_start("1.2.3", &running, true, 42).is_ok());
    let e = decide_start("latest", &idle, false, 42).err().unwrap();
    assert_eq!((e.status_code(), e.message()), (400, "invalid target_version: latest".to_string()));
    assert_eq!(StartUpdateError::Internal("x".into()).status_code(), 500);
}

#[test]
fn the_updater_launch_and_its_outcomes() {
    assert!(update_mode(true, true) == UpdateMode::FullPanel);
    assert!(update_mode(true, false) == UpdateMode::AgentOnly);
    let args: Vec<String> = updater_args(1234, "2.0.0", UpdateMode::AgentOnly).into_iter().map(|v| v.into_iter().collect()).collect();
    assert_eq!(
        args,
        vec![
            "--quiet", "--collect", "--unit=dockpanel-agent-update-1234", "--setenv=DOCKPANEL_VERSION=2.0.0",
            "--setenv=DOCKPANEL_AGENT_UPDATE_DETACHED=1", "bash", "/var/lib/dockpanel/agent-self-update.sh",
        ]
    );
    assert_eq!(launch_failure(&LaunchEnd::Exited { success: true, description: "exit status: 0".into() }), None);
    assert_eq!(
        launch_failure(&LaunchEnd::Exited { success: false, description: "exit status: 1".into() }),
        Some("could not start the update unit (exit status: 1)".to_string())
    );
    assert_eq!(launch_failure(&LaunchEnd::TimedOut), Some("updater did not return within 15min".to_string()));
}

#[test]
fn success_is_reported_only_for_the_running_version() {
    let idle = AgentUpdateState::Idle;
    assert!(matches!(status_override(&idle, false, &Some(Ok("1.0.0".into())), "1.0.0"), StatusOverride::Succeeded { ref version } if version == "1.0.0"));
    assert!(matches!(status_override(&idle, false, &Some(Ok("1.0.0".into())), "0.9.0"), StatusOverride::Keep));
    assert!(matches!(
        status_override(&idle, false, &Some(Err(("swap".into(), "boom".into()))), "0.9.0"),
        StatusOverride::Failed { ref reason } if reason == "boom (stage swap)"
    ));
    let running = AgentUpdateState::InFlight { target_version: "1.0.0".into(), started_at: 1, last_log_line: None };
    assert!(matches!(status_override(&running, false, &Some(Err(("swap".into(), "boom".into()))), "0.9.0"), StatusOverride::Keep));
    assert!(matches!(status_override(&running, true, &Some(Err(("swap".into(), "boom".into()))), "0.9.0"), StatusOverride::Failed { .. }));
}

#[test]
fn a_zero_exit_from_the_launcher_is_never_reported_as_success() {
    // A launcher that exited 0 only handed the work to PID1: it records no
    // outcome at all, and with no verdict on disk nothing reads as success.
    assert_eq!(launch_failure(&LaunchEnd::Exited { success: true, description: "exit status: 0".into() }), None);
    assert_eq!(last_agent_update_result(&None), None);
    let running = AgentUpdateState::InFlight { target_version: "2.0.0".into(), started_at: 10, last_log_line: None };
    assert!(matches!(status_override(&running, run_has_finished(&None, 10), &None, "1.0.0"), StatusOverride::Keep));
    // A failed launch is still real information.
    assert!(launch_failure(&LaunchEnd::Exited { success: false, description: "exit status: 1".into() }).is_some());
}

#[test]
fn an_in_flight_run_still_surfaces_a_verdict_written_after_it_started() {
    let running = AgentUpdateState::InFlight { target_version: "2.0.0".into(), started_at: 100, last_log_line: None };
    let v = Some(verdict(Some(false), Some("2.0.0"), Some("download"), Some("404"), Some("1970-01-01T00:01:41Z")));
    let finished = run_has_finished(&v, 100);
    assert!(finished);
    let result = last_agent_update_result(&v);
    assert!(matches!(
        status_override(&running, finished, &result, "1.0.0"),
        StatusOverride::Failed { ref reason } if reason == "404 (stage download)"
    ));
    // A verdict older than this run does not describe it.
    let stale = Some(verdict(Some(false), Some("2.0.0"), Some("download"), Some("404"), Some("1970-01-01T00:01:39Z")));
    let finished = run_has_finished(&stale, 100);
    assert!(!finished);
    assert!(matches!(status_override(&running, finished, &last_agent_update_result(&stale), "1.0.0"), StatusOverride::Keep));
}

#[test]
fn the_in_flight_guard_and_the_status_endpoint_share_one_liveness_predicate() {
    let running = AgentUpdateState::InFlight { target_version: "2.0.0".into(), started_at: 100, last_log_line: None };
    let v = Some(verdict(Some(false), Some("2.0.0"), Some("verify"), Some("sha256 mismatch"), Some("1970-01-01T00:01:40Z")));
    let finished = run_has_finished(&v, 100);
    // The same predicate frees the 409 guard and resolves the status.
    assert!(decide_start("2.0.1", &running, finished, 200).is_ok());
    assert!(matches!(status_override(&running, finished, &last_agent_update_result(&v), "1.0.0"), StatusOverride::Failed { .. }));
    // An in-flight state alone, with no verdict, still holds the slot.
    let finished = run_has_finished(&None, 100);
    assert!(matches!(decide_start("2.0.1", &running, finished, 200), Err(StartUpdateError::InFlight)));
}

#[test]
fn run_finished_recognises_a_verdict_written_in_the_same_second_as_the_start() {
    let v = Some(verdict(Some(false), None, None, None, Some("1970-01-01T00:01:40Z")));
    assert!(run_has_finished(&v, 100));
    assert!(verdict_is_current(Some(100), 100));
    assert!(!run_has_finished(&v, 101));
}

#[test]
fn a_target_that_already_failed_after_the_swap_is_not_retried_unattended() {
    for stage in ["swap", "unit", "restart", "verify-running", "rollback"] {
        assert!(is_post_swap_stage(stage), "{stage} must count as destructive");
    }
    for stage in ["download", "verify", "arch", "probe", "init"] {
        assert!(!is_post_swap_stage(stage), "{stage} happens before the swap and is safe to retry");
    }
    let after_swap = Some(verdict(Some(false), Some("2.0.0"), Some("rollback"), Some("restore failed"), None));
    assert!(target_already_failed_destructively("2.0.0", &after_swap).is_some());
    let before_swap = Some(verdict(Some(false), Some("2.0.0"), Some("verify"), Some("sha256 mismatch"), None));
    assert!(target_already_failed_destructively("2.0.0", &before_swap).is_none());
    // The operator-driven start is not blocked by a previous failure.
    assert!(decide_start("2.0.0", &AgentUpdateState::Idle, false, 5).is_ok());
}

#[test]
fn the_in_flight_guard_claims_under_the_same_lock_it_checked() {
    // Check and claim are one step: the decision that lets a start through is
    // the one that hands back the claimed in-flight state.
    let failed = AgentUpdateState::Failed { reason: "x".into(), at: 1 };
    match decide_start("3.0.0", &failed, false, 77) {
        Ok(d) => assert!(matches!(d.state, AgentUpdateState::InFlight { started_at: 77, .. })),
        Err(_) => panic!("an idle slot must be claimed"),
    }
    let claimed = decide_start("3.0.0", &failed, false, 77).ok().unwrap().state;
    assert!(matches!(decide_start("3.0.1", &claimed, false, 78), Err(StartUpdateError::InFlight)));
}

#[test]
fn update_mode_is_decided_by_what_the_box_actually_has() {
    assert!(update_mode(true, true) == UpdateMode::FullPanel);
    assert!(update_mode(true, false) == UpdateMode::AgentOnly);
    assert!(update_mode(false, true) == UpdateMode::AgentOnly);
    assert!(update_mode(false, false) == UpdateMode::AgentOnly);
}

#[test]
fn a_hand_off_keeps_the_run_in_flight_and_a_failed_launch_fails_it() {
    let running = AgentUpdateState::InFlight { target_version: "2.0.0".into(), started_at: 10, last_log_line: None };
    let s = state_after_launch(running, &LaunchEnd::Exited { success: true, description: "exit status: 0".into() }, 20);
    assert!(matches!(s, AgentUpdateState::InFlight { started_at: 10, .. }));
    let s = state_after_launch(s, &LaunchEnd::Exited { success: false, description: "exit status: 1".into() }, 20);
    assert!(matches!(s, AgentUpdateState::Failed { ref reason, at: 20 } if reason == "could not start the update unit (exit status: 1)"));
    let s = state_after_launch(AgentUpdateState::Idle, &LaunchEnd::TimedOut, 30);
    assert!(matches!(s, AgentUpdateState::Failed { ref reason, at: 30 } if reason == "updater did not return within 15min"));
}
