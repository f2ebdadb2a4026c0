//! Monitor loop core: scheduling decisions, per-target retry, aggregate
//! failure detection, recovery invocation and the re-entry guard.
//!
//! The loop itself performs no I/O.  A driver owns the machine, asks it for
//! the next request ([`MonitorMachine::next_request`]), performs it (probe,
//! port check, command, wait) and reports the outcome back.  Cancellation is
//! polled at the cycle boundary, when the cadence sleep ends.

use vstd::prelude::*;
use crate::config::{Config, ConfigModel, target_retry_spec, target_timeout_spec};
use crate::recovery::{
    init_recovery, next_step_spec, recovery_wf, step_command, step_notify, step_verify, step_wait,
    RecoveryModel, RecoveryOutcome, RecoveryPhaseModel, RecoveryRun, RecoveryStep,
    RecoveryStepModel,
};
use crate::retry::RetrySession;
use crate::retry::RETRY_BACKOFF_MS;
use crate::status::{fresh_status, TargetStatus};

verus! {

/// Why starting the monitoring loop can be refused.
#[derive(Clone, Copy, Debug, PartialEq, Eq, Structural)]
pub enum MonitorError {
    /// A monitoring loop is already active in this process.
    AlreadyRunning,
}

/// Process-wide guard: at most one monitoring loop runs at a time.
pub struct MonitoringGuard {
    active: bool,
}

/// Abstract guard transition: an acquisition attempt always leaves the
/// guard held and is granted exactly when the guard was idle.  The pair is
/// (guard held afterwards, attempt granted).
pub open spec fn acquire_spec(active: bool) -> (bool, bool) {
    (true, !active)
}

impl MonitoringGuard {
    /// Whether a loop currently holds the guard.
    pub closed spec fn is_active(&self) -> bool {
        self.active
    }

    /// Creates an idle guard.
    pub fn new() -> (g: Self)
        ensures
            !g.is_active(),
    {
        MonitoringGuard { active: false }
    }

    /// Attempts to take the guard; grants it exactly when it was idle.
    pub fn try_acquire(&mut self) -> (granted: bool)
        ensures
            (final(self).is_active(), granted) == acquire_spec(old(self).is_active()),
    {
        let was_active = self.active;
        self.active = true;
        !was_active
    }

    /// Releases the guard.
    pub fn release(&mut self)
        ensures
            !final(self).is_active(),
    {
        self.active = false;
    }
}

/// Law: of two successive attempts to start a loop on the same guard, at
/// most one is granted; from an idle guard the first is granted, the second
/// is refused, and the refusal leaves the guard held for the first.
pub proof fn lemma_guard_exclusion(active: bool)
    ensures
        !(acquire_spec(active).1 && acquire_spec(acquire_spec(active).0).1),
        !active ==> acquire_spec(active).1,
        !acquire_spec(acquire_spec(active).0).1,
        acquire_spec(acquire_spec(active).0).0,
{
}

/// Every probe in `results` ran out of its attempt budget without success.
pub open spec fn all_failed(results: Seq<bool>) -> bool {
    forall|i: int| 0 <= i < results.len() ==> !(#[trigger] results[i])
}

/// The aggregate failure trigger: recovery starts exactly when every
/// configured target's probe budget was exhausted without success in this
/// cycle and a non-empty recovery plan exists.
pub open spec fn recovery_trigger(results: Seq<bool>, plan_len: nat) -> bool {
    all_failed(results) && plan_len > 0
}

/// Law: the aggregate trigger fires iff every target's budget was exhausted
/// without success and the plan is non-empty; one reachable target
/// suppresses it.
pub proof fn lemma_aggregate_trigger(results: Seq<bool>, plan_len: nat)
    ensures
        recovery_trigger(results, plan_len) <==> (all_failed(results) && plan_len > 0),
        (exists|i: int| 0 <= i < results.len() && results[i]) ==> !recovery_trigger(
            results,
            plan_len,
        ),
{
}

/// Where the monitor loop stands between two driver interactions.
#[derive(Clone, Copy, Debug, PartialEq, Eq, Structural)]
pub enum MonitorPhase {
    /// A probe of the current target is outstanding.
    Probing,
    /// The fixed backoff between two failed attempts is outstanding.
    BackingOff,
    /// The current target's single port check is outstanding.
    PortChecking,
    /// A recovery run is in progress.
    Recovering,
    /// The cadence sleep is outstanding; cancellation is polled when it ends.
    Sleeping,
    /// The loop has observed cancellation and stopped.
    Stopped,
}

/// What the driver must do next for the loop.
#[derive(Debug, PartialEq)]
pub enum MonitorRequest {
    /// Probe the address once (reachability), with the given timeout.
    Probe { address: String, timeout_ms: u64 },
    /// Try a TCP connect to address:port, with the given timeout.
    CheckPort { address: String, port: u16, timeout_ms: u64 },
    /// Execute the command.
    RunCommand { command: String },
    /// Wait for the duration.
    Wait { duration_ms: u64 },
}

/// Spec-level image of a [`MonitorRequest`].
pub enum RequestModel {
    Probe { address: Seq<char>, timeout_ms: u64 },
    CheckPort { address: Seq<char>, port: u16, timeout_ms: u64 },
    RunCommand { command: Seq<char> },
    Wait { duration_ms: u64 },
}

impl View for MonitorRequest {
    type V = RequestModel;

    open spec fn view(&self) -> RequestModel {
        match self {
            MonitorRequest::Probe { address, timeout_ms } => RequestModel::Probe {
                address: address@,
                timeout_ms: *timeout_ms,
            },
            MonitorRequest::CheckPort { address, port, timeout_ms } => RequestModel::CheckPort {
                address: address@,
                port: *port,
                timeout_ms: *timeout_ms,
            },
            MonitorRequest::RunCommand { command } => RequestModel::RunCommand {
                command: command@,
            },
            MonitorRequest::Wait { duration_ms } => RequestModel::Wait {
                duration_ms: *duration_ms,
            },
        }
    }
}

/// The monitoring loop's state between two driver interactions.
#[derive(Debug)]
pub struct MonitorMachine {
    /// Immutable snapshot of the configuration the loop runs under.
    pub config: Config,
    /// Index of the target the current cycle is working on.
    pub target_idx: usize,
    /// Retry state of the current target.
    pub session: RetrySession,
    /// Probe outcome of each target already completed in this cycle.
    pub cycle_results: Vec<bool>,
    /// Last observation of each target, aligned with the target list.
    pub statuses: Vec<TargetStatus>,
    /// The recovery run in progress, when any.
    pub recovery: Option<RecoveryRun>,
    /// How the most recent recovery run ended.
    pub last_recovery: Option<RecoveryOutcome>,
    /// Current phase.
    pub phase: MonitorPhase,
}

/// The statuses list mirrors the target list: same length, same identity
/// fields at each index.
pub open spec fn statuses_aligned(m: MonitorMachine) -> bool {
    let cfg = m.config@;
    &&& m.statuses@.len() == cfg.targets.len()
    &&& forall|i: int|
        0 <= i < cfg.targets.len() ==> {
            &&& (#[trigger] m.statuses@[i])@.name == cfg.targets[i].name
            &&& m.statuses@[i]@.address == cfg.targets[i].address
            &&& m.statuses@[i]@.port == cfg.targets[i].port
        }
}

/// Internal consistency of the machine, by phase.
pub open spec fn machine_wf(m: MonitorMachine) -> bool {
    let cfg = m.config@;
    let n = cfg.targets.len() as int;
    &&& statuses_aligned(m)
    &&& (m.recovery is Some <==> m.phase == MonitorPhase::Recovering)
    &&& match m.phase {
        MonitorPhase::Probing => {
            &&& m.target_idx < n
            &&& m.cycle_results@.len() == m.target_idx
            &&& m.session.wf()
            &&& !m.session.is_done()
            &&& m.session.budget == target_retry_spec(cfg, cfg.targets[m.target_idx as int])
        },
        MonitorPhase::BackingOff => {
            &&& m.target_idx < n
            &&& m.cycle_results@.len() == m.target_idx
            &&& m.session.wf()
            &&& !m.session.is_done()
            &&& m.session.attempts >= 1
            &&& m.session.budget == target_retry_spec(cfg, cfg.targets[m.target_idx as int])
        },
        MonitorPhase::PortChecking => {
            &&& m.target_idx < n
            &&& m.cycle_results@.len() == m.target_idx + 1
            &&& cfg.targets[m.target_idx as int].port is Some
        },
        MonitorPhase::Recovering => {
            &&& m.cycle_results@.len() == n
            &&& m.recovery matches Some(rr) && recovery_wf(rr@) && !(rr@.phase is Finished)
            &&& (m.recovery matches Some(rr) && rr@.plan == cfg.recovery_actions
                && rr@.verify_address == cfg.default_target
                && rr@.verify_timeout_ms == cfg.ping_timeout_ms)
        },
        MonitorPhase::Sleeping => true,
        MonitorPhase::Stopped => true,
    }
}

/// The index of the first target at or after `t` with a non-zero attempt
/// budget.  A target whose budget is zero is never probed: it counts as
/// failed outright and its port check is skipped.
pub open spec fn first_live_target(cfg: ConfigModel, t: int) -> int
    decreases cfg.targets.len() - t,
{
    if t < 0 || t >= cfg.targets.len() {
        t
    } else if target_retry_spec(cfg, cfg.targets[t]) > 0 {
        t
    } else {
        first_live_target(cfg, t + 1)
    }
}

/// `results` extended by `count` failures, for targets counted as failed
/// without probing.
pub open spec fn pad_false(results: Seq<bool>, count: int) -> Seq<bool> {
    results + Seq::new(count as nat, |i: int| false)
}

/// Where a cycle stands after the loop has moved past the targets before
/// `t0` with `results0` recorded: either a probe of the first live target at
/// or after `t0` is outstanding, or the cycle is over and the machine is
/// recovering or sleeping according to the aggregate trigger.
pub open spec fn at_cycle_point(m: MonitorMachine, t0: int, results0: Seq<bool>) -> bool {
    let cfg = m.config@;
    let n = cfg.targets.len() as int;
    let j = first_live_target(cfg, t0);
    if j < n {
        &&& m.phase == MonitorPhase::Probing
        &&& m.target_idx == j
        &&& m.cycle_results@ == pad_false(results0, j - t0)
        &&& m.session.attempts == 0
        &&& !m.session.succeeded
        &&& m.session.log@.len() == 0
    } else {
        let results = pad_false(results0, n - t0);
        &&& m.cycle_results@ == results
        &&& if recovery_trigger(results, cfg.recovery_actions.len()) {
            &&& m.phase == MonitorPhase::Recovering
            &&& m.recovery matches Some(rr) && rr@ == init_recovery(cfg)
        } else {
            m.phase == MonitorPhase::Sleeping
        }
    }
}

proof fn lemma_first_live_in_range(cfg: ConfigModel, t: int)
    requires
        0 <= t <= cfg.targets.len(),
    ensures
        t <= first_live_target(cfg, t) <= cfg.targets.len(),
    decreases cfg.targets.len() - t,
{
    if t < cfg.targets.len() && target_retry_spec(cfg, cfg.targets[t]) == 0 {
        lemma_first_live_in_range(cfg, t + 1);
    }
}

fn all_false(v: &Vec<bool>) -> (r: bool)
    ensures
        r == all_failed(v@),
{
    let mut i: usize = 0;
    while i < v.len()
        invariant
            i <= v@.len(),
            forall|k: int| 0 <= k < i ==> !(#[trigger] v@[k]),
        decreases v@.len() - i,
    {
        if v[i] {
            return false;
        }
        i += 1;
    }
    true
}

impl MonitorMachine {
    /// Starts the monitoring loop under `guard`.  Refused with
    /// [`MonitorError::AlreadyRunning`] when a loop is already active, in
    /// which case the running loop is unaffected; otherwise the guard is
    /// taken and the machine stands at the first probe of the first cycle.
    pub fn start(guard: &mut MonitoringGuard, config: Config) -> (r: Result<
        MonitorMachine,
        MonitorError,
    >)
        ensures
            old(guard).is_active() ==> {
                &&& r == Err::<MonitorMachine, MonitorError>(MonitorError::AlreadyRunning)
                &&& final(guard).is_active()
            },
            !old(guard).is_active() ==> {
                &&& final(guard).is_active()
                &&& r matches Ok(m) && {
                    &&& machine_wf(m)
                    &&& m.config@ == config@
                    &&& m.statuses@.len() == config@.targets.len()
                    &&& forall|i: int|
                        0 <= i < config@.targets.len() ==> #[trigger] m.statuses@[i]
                            == fresh_status(config.targets@[i])
                    &&& m.last_recovery is None
                    &&& at_cycle_point(m, 0, Seq::<bool>::empty())
                }
            },
    {
        if !guard.try_acquire() {
            return Err(MonitorError::AlreadyRunning);
        }
        let mut statuses: Vec<TargetStatus> = Vec::new();
        let mut i: usize = 0;
        while i < config.targets.len()
            invariant
                i <= config.targets@.len(),
                statuses@.len() == i,
                forall|k: int|
                    0 <= k < i ==> #[trigger] statuses@[k] == fresh_status(config.targets@[k]),
            decreases config.targets@.len() - i,
        {
            statuses.push(TargetStatus::new(&config.targets[i]));
            i += 1;
        }
        let mut m = MonitorMachine {
            config,
            target_idx: 0,
            session: RetrySession::new(1),
            cycle_results: Vec::new(),
            statuses,
            recovery: None,
            last_recovery: None,
            phase: MonitorPhase::Sleeping,
        };
        m.seek_next_target();
        Ok(m)
    }

    /// Moves the cycle forward from the current `target_idx`: skips targets
    /// with a zero budget (recording them as failed), arms a fresh retry
    /// session for the next live target, or ends the cycle and applies the
    /// aggregate trigger.
    fn seek_next_target(&mut self)
        requires
            statuses_aligned(*old(self)),
            old(self).recovery is None,
            old(self).target_idx <= old(self).config@.targets.len(),
            old(self).cycle_results@.len() == old(self).target_idx,
        ensures
            machine_wf(*final(self)),
            final(self).config == old(self).config,
            final(self).statuses == old(self).statuses,
            final(self).last_recovery == old(self).last_recovery,
            at_cycle_point(*final(self), old(self).target_idx as int, old(self).cycle_results@),
    {
        proof {
            lemma_first_live_in_range(self.config@, self.target_idx as int);
        }
        let ghost t0 = self.target_idx as int;
        let ghost results0 = self.cycle_results@;
        let n = self.config.targets.len();
        while self.target_idx < n
            && self.config.get_target_retry_count(&self.config.targets[self.target_idx]) == 0
            invariant
                statuses_aligned(*self),
                self.recovery is None,
                self.config == old(self).config,
                self.statuses == old(self).statuses,
                self.last_recovery == old(self).last_recovery,
                n == self.config@.targets.len(),
                t0 <= self.target_idx <= n,
                self.cycle_results@ == pad_false(results0, self.target_idx - t0),
                first_live_target(self.config@, t0) == first_live_target(
                    self.config@,
                    self.target_idx as int,
                ),
            decreases n - self.target_idx,
        {
            self.cycle_results.push(false);
            self.target_idx = self.target_idx + 1;
            proof {
                assert(self.cycle_results@ =~= pad_false(results0, self.target_idx - t0));
            }
        }
        if self.target_idx < n {
            let budget = self.config.get_target_retry_count(
                &self.config.targets[self.target_idx],
            );
            self.session = RetrySession::new(budget);
            self.phase = MonitorPhase::Probing;
        } else {
            let trigger = all_false(&self.cycle_results)
                && self.config.recovery_actions.len() > 0;
            if trigger {
                self.recovery = Some(RecoveryRun::start(&self.config));
                self.phase = MonitorPhase::Recovering;
            } else {
                self.phase = MonitorPhase::Sleeping;
            }
        }
    }

    /// What the driver must do next, or nothing once the loop has stopped.
    pub fn next_request(&self) -> (r: Option<MonitorRequest>)
        requires
            machine_wf(*self),
        ensures
            match self.phase {
                MonitorPhase::Probing => r matches Some(req) && req@ == (RequestModel::Probe {
                    address: self.config@.targets[self.target_idx as int].address,
                    timeout_ms: target_timeout_spec(
                        self.config@,
                        self.config@.targets[self.target_idx as int],
                    ),
                }),
                MonitorPhase::BackingOff => r matches Some(req) && req@ == (RequestModel::Wait {
                    duration_ms: RETRY_BACKOFF_MS,
                }),
                MonitorPhase::PortChecking => r matches Some(req) && req@ == (
                RequestModel::CheckPort {
                    address: self.config@.targets[self.target_idx as int].address,
                    port: self.config@.targets[self.target_idx as int].port->0,
                    timeout_ms: target_timeout_spec(
                        self.config@,
                        self.config@.targets[self.target_idx as int],
                    ),
                }),
                MonitorPhase::Recovering => r matches Some(req) && req@ == recovery_request(
                    (self.recovery->0)@,
                ),
                MonitorPhase::Sleeping => r matches Some(req) && req@ == (RequestModel::Wait {
                    duration_ms: cadence_ms(self.config@.check_interval_sec),
                }),
                MonitorPhase::Stopped => r is None,
            },
    {
        match self.phase {
            MonitorPhase::Probing => {
                let target = &self.config.targets[self.target_idx];
                Some(MonitorRequest::Probe {
                    address: target.address.clone(),
                    timeout_ms: self.config.get_target_timeout(target),
                })
            },
            MonitorPhase::BackingOff => Some(MonitorRequest::Wait {
                duration_ms: RETRY_BACKOFF_MS,
            }),
            MonitorPhase::PortChecking => {
                let target = &self.config.targets[self.target_idx];
                let port = match target.port {
                    Some(p) => p,
                    None => 0,
                };
                Some(MonitorRequest::CheckPort {
                    address: target.address.clone(),
                    port,
                    timeout_ms: self.config.get_target_timeout(target),
                })
            },
            MonitorPhase::Recovering => {
                let step = match &self.recovery {
                    Some(rr) => rr.next_step(),
                    None => RecoveryStep::Done { outcome: RecoveryOutcome::Exhausted },
                };
                match step {
                    RecoveryStep::Execute { name: _, command } => Some(
                        MonitorRequest::RunCommand { command },
                    ),
                    RecoveryStep::Wait { duration_ms } => Some(MonitorRequest::Wait {
                        duration_ms,
                    }),
                    RecoveryStep::Verify { address, timeout_ms } => Some(MonitorRequest::Probe {
                        address,
                        timeout_ms,
                    }),
                    RecoveryStep::Notify { command } => Some(MonitorRequest::RunCommand {
                        command,
                    }),
                    RecoveryStep::Done { outcome: _ } => None,
                }
            },
            MonitorPhase::Sleeping => {
                let secs = self.config.check_interval_sec;
                let duration_ms = if secs > u64::MAX / 1000 {
                    u64::MAX
                } else {
                    secs * 1000
                };
                Some(MonitorRequest::Wait { duration_ms })
            },
            MonitorPhase::Stopped => None,
        }
    }
}

fn clone_probe_outcome(o: &Result<u64, String>) -> (r: Result<u64, String>)
    ensures
        r == *o,
{
    match o {
        Ok(latency) => Ok(*latency),
        Err(reason) => Err(reason.clone()),
    }
}

/// How a completed target's status record changes: the probe outcome and
/// check time are recorded, everything else is kept.
pub open spec fn status_after_ping(
    s: TargetStatus,
    outcome: Result<u64, String>,
    now_ms: u64,
) -> TargetStatus {
    TargetStatus { last_check: Some(now_ms), ping_result: Some(outcome), ..s }
}

/// How a port-checked target's status record changes.
pub open spec fn status_after_port(
    s: TargetStatus,
    outcome: Result<(), String>,
    now_ms: u64,
) -> TargetStatus {
    TargetStatus { last_check: Some(now_ms), port_result: Some(outcome), ..s }
}

/// How the machine leaves a recovery run that has just taken transition
/// `m2`: while the run is live it is kept and the machine stays recovering;
/// once it finishes, its outcome is recorded and the loop goes back to
/// sleeping — a failed or exhausted recovery never stops the monitor.
pub open spec fn recovery_advanced(
    mold: MonitorMachine,
    mnew: MonitorMachine,
    m2: RecoveryModel,
) -> bool {
    match m2.phase {
        RecoveryPhaseModel::Finished(o) => {
            &&& mnew.phase == MonitorPhase::Sleeping
            &&& mnew.recovery is None
            &&& mnew.last_recovery matches Some(lo) && lo@ == o
        },
        _ => {
            &&& mnew.phase == MonitorPhase::Recovering
            &&& mnew.recovery matches Some(rr) && rr@ == m2
            &&& mnew.last_recovery == mold.last_recovery
        },
    }
}

impl MonitorMachine {
    /// Reports the outcome of the outstanding probe of the current target.
    /// A failure with attempts left backs off for the fixed delay and
    /// retries; a success or a final failure completes the target (its
    /// status is recorded and it counts toward the aggregate), moving on to
    /// its port check when one is declared, else to the next target or the
    /// end of the cycle.
    pub fn on_probe_result(&mut self, outcome: Result<u64, String>, now_ms: u64)
        requires
            machine_wf(*old(self)),
            old(self).phase == MonitorPhase::Probing,
        ensures
            machine_wf(*final(self)),
            final(self).config == old(self).config,
            final(self).last_recovery == old(self).last_recovery,
            (outcome is Err && old(self).session.attempts + 1 < old(self).session.budget) ==> {
                &&& final(self).phase == MonitorPhase::BackingOff
                &&& final(self).target_idx == old(self).target_idx
                &&& final(self).cycle_results == old(self).cycle_results
                &&& final(self).statuses == old(self).statuses
                &&& final(self).session.attempts == old(self).session.attempts + 1
                &&& final(self).session.log@ == old(self).session.log@.push(
                    final(self).session.log@.last(),
                )
                &&& final(self).session.log@.last().attempt == old(self).session.attempts + 1
                &&& final(self).session.log@.last().outcome == outcome
            },
            (outcome is Ok || old(self).session.attempts + 1 == old(self).session.budget) ==> {
                let t = old(self).target_idx as int;
                let done_results = old(self).cycle_results@.push(outcome is Ok);
                &&& final(self).statuses@ == old(self).statuses@.update(
                    t,
                    status_after_ping(old(self).statuses@[t], outcome, now_ms),
                )
                &&& if old(self).config@.targets[t].port is Some {
                    &&& final(self).phase == MonitorPhase::PortChecking
                    &&& final(self).target_idx == old(self).target_idx
                    &&& final(self).cycle_results@ == done_results
                } else {
                    at_cycle_point(*final(self), t + 1, done_results)
                }
            },
    {
        let t = self.target_idx;
        let ok = outcome.is_ok();
        let is_last = self.session.attempts + 1 == self.session.budget;
        if !ok && !is_last {
            self.session.record_attempt(outcome);
            self.phase = MonitorPhase::BackingOff;
        } else {
            let recorded = clone_probe_outcome(&outcome);
            self.session.record_attempt(outcome);
            self.statuses[t].record_ping(recorded, now_ms);
            self.cycle_results.push(ok);
            proof {
                assert(statuses_aligned(*self));
            }
            let has_port = match self.config.targets[t].port {
                Some(_) => true,
                None => false,
            };
            if has_port {
                self.phase = MonitorPhase::PortChecking;
            } else {
                let n = self.config.targets.len();
                proof {
                    assert(t < n);
                }
                self.target_idx = t + 1;
                self.seek_next_target();
            }
        }
    }

    /// Reports that the backoff between two attempts has elapsed; the next
    /// attempt's probe becomes outstanding.
    pub fn on_backoff_done(&mut self)
        requires
            machine_wf(*old(self)),
            old(self).phase == MonitorPhase::BackingOff,
        ensures
            machine_wf(*final(self)),
            *final(self) == (MonitorMachine { phase: MonitorPhase::Probing, ..*old(self) }),
    {
        self.phase = MonitorPhase::Probing;
    }

    /// Reports the outcome of the current target's single port check.  The
    /// outcome is recorded in the target's status but does not count toward
    /// the aggregate failure trigger, which follows probe outcomes alone.
    pub fn on_port_result(&mut self, outcome: Result<(), String>, now_ms: u64)
        requires
            machine_wf(*old(self)),
            old(self).phase == MonitorPhase::PortChecking,
        ensures
            machine_wf(*final(self)),
            final(self).config == old(self).config,
            final(self).last_recovery == old(self).last_recovery,
            final(self).statuses@ == old(self).statuses@.update(
                old(self).target_idx as int,
                status_after_port(
                    old(self).statuses@[old(self).target_idx as int],
                    outcome,
                    now_ms,
                ),
            ),
            at_cycle_point(
                *final(self),
                old(self).target_idx + 1,
                old(self).cycle_results@,
            ),
    {
        let t = self.target_idx;
        self.statuses[t].record_port(outcome, now_ms);
        let n = self.config.targets.len();
        proof {
            assert(statuses_aligned(*self));
            assert(t < n);
        }
        self.target_idx = t + 1;
        self.seek_next_target();
    }

    /// Reports the outcome of the recovery action command the run asked
    /// for.
    pub fn on_recovery_command(&mut self, ok: bool, detail: String)
        requires
            machine_wf(*old(self)),
            old(self).phase == MonitorPhase::Recovering,
            (old(self).recovery->0)@.phase is Executing,
        ensures
            machine_wf(*final(self)),
            final(self).config == old(self).config,
            final(self).statuses == old(self).statuses,
            final(self).cycle_results == old(self).cycle_results,
            recovery_advanced(
                *old(self),
                *final(self),
                step_command((old(self).recovery->0)@, ok, detail@),
            ),
    {
        let mut run = match self.recovery.take() {
            Some(r) => r,
            None => {
                return ;  // unreachable under the precondition
            },
        };
        run.on_command_result(ok, detail);
        self.put_back_recovery(run);
    }

    /// Reports that the recovery action's post-execution wait has elapsed.
    pub fn on_recovery_wait_done(&mut self)
        requires
            machine_wf(*old(self)),
            old(self).phase == MonitorPhase::Recovering,
            (old(self).recovery->0)@.phase is Waiting,
        ensures
            machine_wf(*final(self)),
            final(self).config == old(self).config,
            final(self).statuses == old(self).statuses,
            final(self).cycle_results == old(self).cycle_results,
            recovery_advanced(*old(self), *final(self), step_wait((old(self).recovery->0)@)),
    {
        let mut run = match self.recovery.take() {
            Some(r) => r,
            None => {
                return ;  // unreachable under the precondition
            },
        };
        run.on_wait_done();
        self.put_back_recovery(run);
    }

    /// Reports the outcome of the recovery verification probe.
    pub fn on_recovery_verify(&mut self, reachable: bool)
        requires
            machine_wf(*old(self)),
            old(self).phase == MonitorPhase::Recovering,
            (old(self).recovery->0)@.phase is Verifying,
        ensures
            machine_wf(*final(self)),
            final(self).config == old(self).config,
            final(self).statuses == old(self).statuses,
            final(self).cycle_results == old(self).cycle_results,
            recovery_advanced(
                *old(self),
                *final(self),
                step_verify((old(self).recovery->0)@, reachable),
            ),
    {
        let mut run = match self.recovery.take() {
            Some(r) => r,
            None => {
                return ;  // unreachable under the precondition
            },
        };
        run.on_verify_result(reachable);
        self.put_back_recovery(run);
    }

    /// Reports the outcome of the notification command.
    pub fn on_recovery_notify(&mut self, ok: bool)
        requires
            machine_wf(*old(self)),
            old(self).phase == MonitorPhase::Recovering,
            (old(self).recovery->0)@.phase is Notifying,
        ensures
            machine_wf(*final(self)),
            final(self).config == old(self).config,
            final(self).statuses == old(self).statuses,
            final(self).cycle_results == old(self).cycle_results,
            recovery_advanced(*old(self), *final(self), step_notify((old(self).recovery->0)@, ok)),
    {
        let mut run = match self.recovery.take() {
            Some(r) => r,
            None => {
                return ;  // unreachable under the precondition
            },
        };
        run.on_notify_result(ok);
        self.put_back_recovery(run);
    }

    /// Stores a recovery run back, or closes it out when it has finished.
    fn put_back_recovery(&mut self, run: RecoveryRun)
        requires
            old(self).recovery is None,
            recovery_wf(run@),
            run@.plan == old(self).config@.recovery_actions,
            run@.verify_address == old(self).config@.default_target,
            run@.verify_timeout_ms == old(self).config@.ping_timeout_ms,
            statuses_aligned(*old(self)),
            old(self).cycle_results@.len() == old(self).config@.targets.len(),
        ensures
            machine_wf(*final(self)),
            final(self).config == old(self).config,
            final(self).statuses == old(self).statuses,
            final(self).cycle_results == old(self).cycle_results,
            recovery_advanced(*old(self), *final(self), run@),
    {
        match &run.phase {
            crate::recovery::RecoveryPhase::Finished(o) => {
                self.last_recovery = Some(o.clone());
                self.recovery = None;
                self.phase = MonitorPhase::Sleeping;
            },
            _ => {
                self.recovery = Some(run);
                self.phase = MonitorPhase::Recovering;
            },
        }
    }

    /// Reports that the cadence sleep has elapsed.  When cancellation was
    /// requested the loop stops; otherwise a new cycle begins.
    pub fn on_sleep_done(&mut self, cancel_requested: bool)
        requires
            machine_wf(*old(self)),
            old(self).phase == MonitorPhase::Sleeping,
        ensures
            machine_wf(*final(self)),
            final(self).config == old(self).config,
            final(self).statuses == old(self).statuses,
            final(self).last_recovery == old(self).last_recovery,
            cancel_requested ==> final(self).phase == MonitorPhase::Stopped,
            !cancel_requested ==> at_cycle_point(*final(self), 0, Seq::<bool>::empty()),
    {
        if cancel_requested {
            self.phase = MonitorPhase::Stopped;
        } else {
            self.target_idx = 0;
            self.cycle_results = Vec::new();
            self.seek_next_target();
        }
    }

    /// Ends the loop and releases the guard, on the cancellation path as on
    /// any other exit.
    pub fn shutdown(self, guard: &mut MonitoringGuard)
        ensures
            !final(guard).is_active(),
    {
        guard.release();
    }
}

/// The cadence sleep in milliseconds: the configured interval in seconds,
/// saturated at the integer limit.
pub open spec fn cadence_ms(secs: u64) -> u64 {
    if secs > u64::MAX / 1000 {
        u64::MAX
    } else {
        (secs * 1000) as u64
    }
}

/// The driver request that a live recovery step maps to: commands and
/// notifications are command executions, verification is a probe of the
/// verification target, waits are waits.
pub open spec fn recovery_request(m: RecoveryModel) -> RequestModel {
    match next_step_spec(m) {
        RecoveryStepModel::Execute { name, command } => RequestModel::RunCommand { command },
        RecoveryStepModel::Wait { duration_ms } => RequestModel::Wait { duration_ms },
        RecoveryStepModel::Verify { address, timeout_ms } => RequestModel::Probe {
            address,
            timeout_ms,
        },
        RecoveryStepModel::Notify { command } => RequestModel::RunCommand { command },
        RecoveryStepModel::Done { outcome } => RequestModel::Wait { duration_ms: 0 },
    }
}

} // verus!
