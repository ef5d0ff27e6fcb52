use mcserver::cache::StatusCache;
use mcserver::controller::{
    apply_stop_local, build_address, plan_refresh, plan_stop, probe_liveness,
    record_refresh_outcome, reduce_outcome, ProbeOutcome, RefreshPlan, StopPlan,
    PROBE_TIMEOUT_MS,
};

#[test]
fn never_probed_reads_false() {
    let cache = StatusCache::new();
    assert!(!probe_liveness(&cache, "alpha"));
    assert!(!probe_liveness(&cache, ""));
}

#[test]
fn unreadable_config_plans_record_down() {
    assert_eq!(plan_refresh(None), RefreshPlan::RecordDown);
}

#[test]
fn disabled_console_plans_record_down() {
    let p = plan_refresh(Some("rcon.port=25580\nmotd=hi\n"));
    assert_eq!(p, RefreshPlan::RecordDown);
    let q = plan_refresh(Some("rcon.password=\n"));
    assert_eq!(q, RefreshPlan::RecordDown);
}

#[test]
fn configured_console_plans_attempt() {
    let p = plan_refresh(Some("rcon.port=25580\nrcon.password=secret\n"));
    assert_eq!(
        p,
        RefreshPlan::Attempt {
            address: "192.168.1.192:25580".to_string(),
            password: "secret".to_string(),
        }
    );
}

#[test]
fn default_port_is_used_when_absent() {
    let p = plan_refresh(Some("rcon.password=secret"));
    assert_eq!(
        p,
        RefreshPlan::Attempt {
            address: "192.168.1.192:25575".to_string(),
            password: "secret".to_string(),
        }
    );
}

#[test]
fn confirmed_probe_converges_to_true() {
    let mut cache = StatusCache::new();
    record_refresh_outcome(&mut cache, "srv", &ProbeOutcome::ConfirmedUp);
    assert!(probe_liveness(&cache, "srv"));
}

#[test]
fn failed_probe_converges_to_false() {
    let mut cache = StatusCache::new();
    record_refresh_outcome(&mut cache, "srv", &ProbeOutcome::ConfirmedUp);
    record_refresh_outcome(&mut cache, "srv", &ProbeOutcome::Unreachable);
    assert!(!probe_liveness(&cache, "srv"));
    record_refresh_outcome(&mut cache, "srv", &ProbeOutcome::TimedOut);
    assert!(!probe_liveness(&cache, "srv"));
    record_refresh_outcome(&mut cache, "srv", &ProbeOutcome::CommandFailed);
    assert!(!probe_liveness(&cache, "srv"));
    record_refresh_outcome(&mut cache, "srv", &ProbeOutcome::Disabled);
    assert!(!probe_liveness(&cache, "srv"));
}

#[test]
fn probe_is_idempotent_between_refreshes() {
    let mut cache = StatusCache::new();
    record_refresh_outcome(&mut cache, "srv", &ProbeOutcome::ConfirmedUp);
    let first = probe_liveness(&cache, "srv");
    let second = probe_liveness(&cache, "srv");
    assert_eq!(first, second);
}

#[test]
fn refreshes_of_different_servers_are_isolated() {
    let mut cache = StatusCache::new();
    record_refresh_outcome(&mut cache, "up", &ProbeOutcome::ConfirmedUp);
    record_refresh_outcome(&mut cache, "down", &ProbeOutcome::Unreachable);
    assert!(probe_liveness(&cache, "up"));
    assert!(!probe_liveness(&cache, "down"));
    assert!(!probe_liveness(&cache, "other"));
}

#[test]
fn reduce_outcome_collapses_failures() {
    assert!(reduce_outcome(&ProbeOutcome::ConfirmedUp));
    assert!(!reduce_outcome(&ProbeOutcome::Disabled));
    assert!(!reduce_outcome(&ProbeOutcome::Unreachable));
    assert!(!reduce_outcome(&ProbeOutcome::CommandFailed));
    assert!(!reduce_outcome(&ProbeOutcome::TimedOut));
}

#[test]
fn stop_without_config_plans_nothing() {
    assert_eq!(plan_stop(None), StopPlan::Ignore);
}

#[test]
fn stop_with_empty_password_marks_stopped_locally() {
    let plan = plan_stop(Some("rcon.port=25580\n"));
    assert_eq!(plan, StopPlan::MarkStopped);
    let mut cache = StatusCache::new();
    record_refresh_outcome(&mut cache, "srv", &ProbeOutcome::ConfirmedUp);
    apply_stop_local(&mut cache, "srv", &plan);
    assert!(!probe_liveness(&cache, "srv"));
}

#[test]
fn stop_with_password_plans_shutdown_and_keeps_cache() {
    let plan = plan_stop(Some("rcon.port=25580\nrcon.password=secret\n"));
    assert_eq!(
        plan,
        StopPlan::SendShutdown {
            address: "192.168.1.192:25580".to_string(),
            password: "secret".to_string(),
        }
    );
    let mut cache = StatusCache::new();
    record_refresh_outcome(&mut cache, "srv", &ProbeOutcome::ConfirmedUp);
    apply_stop_local(&mut cache, "srv", &plan);
    assert!(probe_liveness(&cache, "srv"));
}

#[test]
fn address_is_fixed_host_and_configured_port() {
    let a = build_address("25580");
    assert_eq!(a, "192.168.1.192:25580");
}

#[test]
fn timeout_bound_is_800_milliseconds() {
    assert_eq!(PROBE_TIMEOUT_MS, 800);
}
