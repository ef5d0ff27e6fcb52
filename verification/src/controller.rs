//! The lifecycle controller: every decision behind the probe and stop
//! operations, from configuration text to cache record.  The embedding
//! runtime performs the file read and the timeout-bounded RCON round-trip
//! in a detached task, and hands the result back as a `ProbeOutcome`; no
//! decision is made outside this module.

use vstd::prelude::*;
use vstd::string::*;
use crate::cache::{cache_contents, cached_liveness, StatusCache};
use crate::config::{parse_server_config, spec_rcon_enabled, spec_rcon_password, spec_rcon_port};

verus! {

/// The timeout, in milliseconds, that bounds the RCON connect and the
/// command round-trip of one probe or stop attempt.
pub const PROBE_TIMEOUT_MS: u64 = 800;

/// The fixed host every managed server's RCON endpoint lives on.
pub open spec fn rcon_host() -> Seq<char> {
    "192.168.1.192"@
}

/// The TCP address of the RCON endpoint for a configured port.
pub open spec fn spec_address(port: Seq<char>) -> Seq<char> {
    rcon_host() + seq![':'] + port
}

/// The address `spec_address` describes for `port`.
pub fn build_address(port: &str) -> (a: String)
    ensures
        a@ == spec_address(port@),
{
    let mut a = String::from_str("192.168.1.192:");
    a.append(port);
    proof {
        reveal_strlit("192.168.1.192:");
        reveal_strlit("192.168.1.192");
        assert(a@ =~= spec_address(port@));
    }
    a
}

/// What one probe found, before the reduction to the two-valued liveness
/// signal that callers observe.
#[derive(Clone, Copy, PartialEq, Eq, Debug)]
pub enum ProbeOutcome {
    /// The console is disabled, or the configuration was unreadable: no
    /// network attempt was made.
    Disabled,
    /// The connection or the authentication failed.
    Unreachable,
    /// The connection stood, but the command round-trip failed.
    CommandFailed,
    /// The timeout expired before the round-trip finished.
    TimedOut,
    /// The status command succeeded: the server answered.
    ConfirmedUp,
}

/// The liveness signal an outcome reduces to: only a confirmed answer
/// counts as "running"; every failure collapses to "not running".
pub open spec fn outcome_running(o: ProbeOutcome) -> bool {
    o is ConfirmedUp
}

/// Reduces an outcome to the two-valued signal, as `outcome_running`
/// describes it.
pub fn reduce_outcome(o: &ProbeOutcome) -> (r: bool)
    ensures
        r == outcome_running(*o),
{
    matches!(o, ProbeOutcome::ConfirmedUp)
}

/// What a refresh task is to do for one server.
#[derive(Debug, PartialEq, Eq)]
pub enum RefreshPlan {
    /// Record "not running" directly: the configuration was unreadable or
    /// the console is disabled, and neither is a liveness signal.
    RecordDown,
    /// Probe the endpoint with the status command, under the timeout.
    Attempt { address: String, password: String },
}

/// Whether `p` is the refresh the configuration text calls for: a direct
/// "not running" record when the text is absent or the console disabled,
/// else a probe of the derived address with the configured password.
pub open spec fn refresh_plan_for(content: Option<&str>, p: RefreshPlan) -> bool {
    match content {
        None => p is RecordDown,
        Some(c) => if spec_rcon_enabled(c@) {
            match p {
                RefreshPlan::Attempt { address, password } => address@ == spec_address(
                    spec_rcon_port(c@),
                ) && password@ == spec_rcon_password(c@),
                _ => false,
            }
        } else {
            p is RecordDown
        },
    }
}

/// The refresh that `content` calls for, as `refresh_plan_for` describes
/// it.  `None` stands for a configuration file that could not be read, a
/// defined "not running" state rather than an error.
pub fn plan_refresh(content: Option<&str>) -> (p: RefreshPlan)
    ensures
        refresh_plan_for(content, p),
{
    match content {
        None => RefreshPlan::RecordDown,
        Some(text) => {
            let config = parse_server_config(text);
            if config.rcon_enabled() {
                let address = build_address(config.rcon_port.as_str());
                RefreshPlan::Attempt { address, password: config.rcon_password }
            } else {
                RefreshPlan::RecordDown
            }
        },
    }
}

/// What a stop task is to do for one server.
#[derive(Debug, PartialEq, Eq)]
pub enum StopPlan {
    /// The configuration could not be read: nothing to do.
    Ignore,
    /// The console is disabled: mark the cached liveness `false`, with no
    /// network attempt.
    MarkStopped,
    /// Send the shutdown command to the endpoint, under the timeout.
    SendShutdown { address: String, password: String },
}

/// Whether `p` is the stop the configuration text calls for: nothing when
/// the text is absent, a local "stopped" mark when the console is
/// disabled, else the shutdown command to the derived address.
pub open spec fn stop_plan_for(content: Option<&str>, p: StopPlan) -> bool {
    match content {
        None => p is Ignore,
        Some(c) => if spec_rcon_enabled(c@) {
            match p {
                StopPlan::SendShutdown { address, password } => address@ == spec_address(
                    spec_rcon_port(c@),
                ) && password@ == spec_rcon_password(c@),
                _ => false,
            }
        } else {
            p is MarkStopped
        },
    }
}

/// The stop that `content` calls for, as `stop_plan_for` describes it.
pub fn plan_stop(content: Option<&str>) -> (p: StopPlan)
    ensures
        stop_plan_for(content, p),
{
    match content {
        None => StopPlan::Ignore,
        Some(text) => {
            let config = parse_server_config(text);
            if config.rcon_enabled() {
                let address = build_address(config.rcon_port.as_str());
                StopPlan::SendShutdown { address, password: config.rcon_password }
            } else {
                StopPlan::MarkStopped
            }
        },
    }
}

/// The synchronous path of a liveness check: the last known answer for
/// `id`, returned instantly, `false` for an identity never probed.  The
/// caller's embedding launches the detached refresh whose completion a
/// later read observes; this call itself cannot change the cache.
pub fn probe_liveness(cache: &StatusCache, id: &str) -> (r: bool)
    ensures
        r == cached_liveness(cache_contents(*cache), id@),
{
    cache.read(id)
}

/// Completes one refresh: records the outcome's reduced liveness signal
/// for `id`, overwriting any earlier record (last completion wins).
pub fn record_refresh_outcome(cache: &mut StatusCache, id: &str, outcome: &ProbeOutcome)
    ensures
        cache_contents(*final(cache)) == cache_contents(*old(cache)).insert(
            id@,
            outcome_running(*outcome),
        ),
{
    let running = reduce_outcome(outcome);
    cache.write(id, running);
}

/// Applies the local effect of a stop plan: a `MarkStopped` plan records
/// "not running" for `id`; any other plan leaves the cache untouched,
/// since a shutdown command has no observable success signal.
pub fn apply_stop_local(cache: &mut StatusCache, id: &str, plan: &StopPlan)
    ensures
        (*plan is MarkStopped) ==> cache_contents(*final(cache)) == cache_contents(
            *old(cache),
        ).insert(id@, false),
        !(*plan is MarkStopped) ==> cache_contents(*final(cache)) == cache_contents(*old(cache)),
{
    match plan {
        StopPlan::MarkStopped => cache.write(id, false),
        _ => (),
    }
}

/// Law: an identity never recorded probes as "not running", before any
/// background task completes.
pub proof fn lemma_unknown_probes_not_running(m: Map<Seq<char>, bool>, id: Seq<char>)
    requires
        !m.dom().contains(id),
    ensures
        !cached_liveness(m, id),
{
}

/// Law: when the console is disabled, the planned refresh makes no network
/// attempt, and the record it writes reads back `false` — whatever
/// listener exists on the derived address.
pub proof fn lemma_disabled_converges_false(
    content: &str,
    p: RefreshPlan,
    m: Map<Seq<char>, bool>,
    id: Seq<char>,
)
    requires
        !spec_rcon_enabled(content@),
        refresh_plan_for(Some(content), p),
    ensures
        p is RecordDown,
        !cached_liveness(m.insert(id, false), id),
{
}

/// Law: a completed refresh makes the cache answer exactly what the probe
/// found: `true` after a confirmed round-trip, `false` after a failure, a
/// timeout, or a disabled console.
pub proof fn lemma_refresh_converges(m: Map<Seq<char>, bool>, id: Seq<char>, o: ProbeOutcome)
    ensures
        cached_liveness(m.insert(id, outcome_running(o)), id) == (o is ConfirmedUp),
{
}

/// Law: reading the cached liveness decides from the cache contents alone,
/// so two probes in succession with no completed refresh between them read
/// equal values.
pub proof fn lemma_probe_idempotent(m1: Map<Seq<char>, bool>, m2: Map<Seq<char>, bool>, id: Seq<char>)
    requires
        m1 == m2,
    ensures
        cached_liveness(m1, id) == cached_liveness(m2, id),
{
}

/// Law: a stop under a disabled console marks the server stopped locally
/// — the plan holds no address to connect to — and the mark reads back
/// `false`.
pub proof fn lemma_stop_disabled_marks_stopped(
    content: &str,
    p: StopPlan,
    m: Map<Seq<char>, bool>,
    id: Seq<char>,
)
    requires
        !spec_rcon_enabled(content@),
        stop_plan_for(Some(content), p),
    ensures
        p is MarkStopped,
        !cached_liveness(m.insert(id, false), id),
{
}

/// Law: a refresh for one server leaves every other server's record
/// untouched: the cache orders nothing across different identities.
pub proof fn lemma_refresh_isolated(
    m: Map<Seq<char>, bool>,
    id: Seq<char>,
    other: Seq<char>,
    value: bool,
)
    requires
        id != other,
    ensures
        cached_liveness(m.insert(id, value), other) == cached_liveness(m, other),
{
}

} // verus!

