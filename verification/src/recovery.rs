//! Recovery coordinator: runs the ordered recovery plan, verifies recovery
//! after each action, and optionally requests a notification once recovery
//! is confirmed.
//!
//! The coordinator is a state machine.  The caller reads the next step to
//! perform with [`RecoveryRun::next_step`], performs it (executes a command,
//! waits, re-probes the verification target) and reports the outcome back
//! through the `on_*` methods.

use vstd::prelude::*;
use crate::config::{ActionModel, Config, ConfigModel, RecoveryAction};

verus! {

/// How a recovery run ended.
#[derive(Debug, PartialEq)]
pub enum RecoveryOutcome {
    /// A post-action verification probe reached the verification target.
    Recovered,
    /// Every action ran without restoring connectivity.
    Exhausted,
    /// An action's command failed; the rest of the plan was abandoned.
    Failed { action: String, reason: String },
}

/// Spec-level image of a [`RecoveryOutcome`].
pub enum RecoveryOutcomeModel {
    Recovered,
    Exhausted,
    Failed { action: Seq<char>, reason: Seq<char> },
}

impl View for RecoveryOutcome {
    type V = RecoveryOutcomeModel;

    open spec fn view(&self) -> RecoveryOutcomeModel {
        match self {
            RecoveryOutcome::Recovered => RecoveryOutcomeModel::Recovered,
            RecoveryOutcome::Exhausted => RecoveryOutcomeModel::Exhausted,
            RecoveryOutcome::Failed { action, reason } => RecoveryOutcomeModel::Failed {
                action: action@,
                reason: reason@,
            },
        }
    }
}

impl Clone for RecoveryOutcome {
    fn clone(&self) -> (res: Self)
        ensures
            res == *self,
    {
        match self {
            RecoveryOutcome::Recovered => RecoveryOutcome::Recovered,
            RecoveryOutcome::Exhausted => RecoveryOutcome::Exhausted,
            RecoveryOutcome::Failed { action, reason } => RecoveryOutcome::Failed {
                action: action.clone(),
                reason: reason.clone(),
            },
        }
    }
}

/// Where a recovery run stands.
#[derive(Debug, PartialEq)]
pub enum RecoveryPhase {
    /// The current action's command must be executed.
    Executing,
    /// The current action succeeded and declared a post-execution wait.
    Waiting,
    /// The verification target must be re-probed once.
    Verifying,
    /// Recovery is confirmed; the notification command must be run.
    Notifying,
    /// The run is over.
    Finished(RecoveryOutcome),
}

/// Spec-level image of a [`RecoveryPhase`].
pub enum RecoveryPhaseModel {
    Executing,
    Waiting,
    Verifying,
    Notifying,
    Finished(RecoveryOutcomeModel),
}

impl View for RecoveryPhase {
    type V = RecoveryPhaseModel;

    open spec fn view(&self) -> RecoveryPhaseModel {
        match self {
            RecoveryPhase::Executing => RecoveryPhaseModel::Executing,
            RecoveryPhase::Waiting => RecoveryPhaseModel::Waiting,
            RecoveryPhase::Verifying => RecoveryPhaseModel::Verifying,
            RecoveryPhase::Notifying => RecoveryPhaseModel::Notifying,
            RecoveryPhase::Finished(o) => RecoveryPhaseModel::Finished(o@),
        }
    }
}

/// The next thing the caller must do for the run.
#[derive(Debug, PartialEq)]
pub enum RecoveryStep {
    /// Execute the named action's command.
    Execute { name: String, command: String },
    /// Wait for the given duration.
    Wait { duration_ms: u64 },
    /// Probe the verification target once with the given timeout.
    Verify { address: String, timeout_ms: u64 },
    /// Run the notification command (best effort).
    Notify { command: String },
    /// Nothing: the run is over.
    Done { outcome: RecoveryOutcome },
}

/// Spec-level image of a [`RecoveryStep`].
pub enum RecoveryStepModel {
    Execute { name: Seq<char>, command: Seq<char> },
    Wait { duration_ms: u64 },
    Verify { address: Seq<char>, timeout_ms: u64 },
    Notify { command: Seq<char> },
    Done { outcome: RecoveryOutcomeModel },
}

impl View for RecoveryStep {
    type V = RecoveryStepModel;

    open spec fn view(&self) -> RecoveryStepModel {
        match self {
            RecoveryStep::Execute { name, command } => RecoveryStepModel::Execute {
                name: name@,
                command: command@,
            },
            RecoveryStep::Wait { duration_ms } => RecoveryStepModel::Wait {
                duration_ms: *duration_ms,
            },
            RecoveryStep::Verify { address, timeout_ms } => RecoveryStepModel::Verify {
                address: address@,
                timeout_ms: *timeout_ms,
            },
            RecoveryStep::Notify { command } => RecoveryStepModel::Notify { command: command@ },
            RecoveryStep::Done { outcome } => RecoveryStepModel::Done { outcome: outcome@ },
        }
    }
}

/// Spec-level state of a recovery run.
pub struct RecoveryModel {
    pub plan: Seq<ActionModel>,
    pub verify_address: Seq<char>,
    pub verify_timeout_ms: u64,
    pub notify_command: Option<Seq<char>>,
    pub idx: int,
    pub phase: RecoveryPhaseModel,
    pub executed: Seq<Seq<char>>,
}

/// One recovery run over an immutable snapshot of the plan.
#[derive(Debug)]
pub struct RecoveryRun {
    pub plan: Vec<RecoveryAction>,
    pub verify_address: String,
    pub verify_timeout_ms: u64,
    pub notify_command: Option<String>,
    pub idx: usize,
    pub phase: RecoveryPhase,
    pub executed: Vec<String>,
}

impl View for RecoveryRun {
    type V = RecoveryModel;

    open spec fn view(&self) -> RecoveryModel {
        RecoveryModel {
            plan: Seq::new(self.plan@.len(), |i: int| self.plan@[i]@),
            verify_address: self.verify_address@,
            verify_timeout_ms: self.verify_timeout_ms,
            notify_command: match self.notify_command {
                Some(ref c) => Some(c@),
                None => None,
            },
            idx: self.idx as int,
            phase: self.phase@,
            executed: Seq::new(self.executed@.len(), |i: int| self.executed@[i]@),
        }
    }
}

/// The names of the plan's actions, in order.
pub open spec fn plan_names(plan: Seq<ActionModel>) -> Seq<Seq<char>> {
    Seq::new(plan.len(), |i: int| plan[i].name)
}

/// How many actions of the plan have had their command run, by phase.
pub open spec fn executed_count(m: RecoveryModel) -> int {
    match m.phase {
        RecoveryPhaseModel::Executing => m.idx,
        RecoveryPhaseModel::Waiting => m.idx + 1,
        RecoveryPhaseModel::Verifying => m.idx + 1,
        RecoveryPhaseModel::Notifying => m.idx + 1,
        RecoveryPhaseModel::Finished(o) => match o {
            RecoveryOutcomeModel::Exhausted => m.plan.len() as int,
            _ => m.idx + 1,
        },
    }
}

/// Internal consistency of a recovery run: the index stays within the plan
/// while the run is live, and the executed actions are exactly the first
/// `executed_count` names of the plan, in declared order.
pub open spec fn recovery_wf(m: RecoveryModel) -> bool {
    &&& match m.phase {
        RecoveryPhaseModel::Executing => m.idx < m.plan.len(),
        RecoveryPhaseModel::Waiting => m.idx < m.plan.len() && m.plan[m.idx].wait_after_ms is Some,
        RecoveryPhaseModel::Verifying => m.idx < m.plan.len(),
        RecoveryPhaseModel::Notifying => m.idx < m.plan.len() && m.notify_command is Some,
        RecoveryPhaseModel::Finished(o) => match o {
            RecoveryOutcomeModel::Exhausted => true,
            RecoveryOutcomeModel::Recovered => m.plan.len() == 0 || m.idx < m.plan.len(),
            RecoveryOutcomeModel::Failed { action, reason } => m.idx < m.plan.len() && action
                == m.plan[m.idx].name,
        },
    }
    &&& 0 <= m.idx
    &&& m.executed == plan_names(m.plan).take(executed_count(m))
}

/// The run a configuration snapshot starts: its recovery plan, its default
/// target as verification target with the default timeout, and its
/// notification command when notifications are enabled.
pub open spec fn init_recovery(cfg: ConfigModel) -> RecoveryModel {
    RecoveryModel {
        plan: cfg.recovery_actions,
        verify_address: cfg.default_target,
        verify_timeout_ms: cfg.ping_timeout_ms,
        notify_command: if cfg.notification_enabled {
            cfg.notification_command
        } else {
            None
        },
        idx: 0,
        phase: if cfg.recovery_actions.len() == 0 {
            RecoveryPhaseModel::Finished(RecoveryOutcomeModel::Exhausted)
        } else {
            RecoveryPhaseModel::Executing
        },
        executed: Seq::empty(),
    }
}

/// What the caller must do next in state `m`.
pub open spec fn next_step_spec(m: RecoveryModel) -> RecoveryStepModel {
    match m.phase {
        RecoveryPhaseModel::Executing => RecoveryStepModel::Execute {
            name: m.plan[m.idx].name,
            command: m.plan[m.idx].command,
        },
        RecoveryPhaseModel::Waiting => RecoveryStepModel::Wait {
            duration_ms: m.plan[m.idx].wait_after_ms->0,
        },
        RecoveryPhaseModel::Verifying => RecoveryStepModel::Verify {
            address: m.verify_address,
            timeout_ms: m.verify_timeout_ms,
        },
        RecoveryPhaseModel::Notifying => RecoveryStepModel::Notify {
            command: m.notify_command->0,
        },
        RecoveryPhaseModel::Finished(o) => RecoveryStepModel::Done { outcome: o },
    }
}

/// Transition for the current action's command outcome.  On success the run
/// moves to the action's wait (when declared) or straight to verification;
/// on failure the whole plan is abandoned at once.
pub open spec fn step_command(m: RecoveryModel, ok: bool, detail: Seq<char>) -> RecoveryModel {
    RecoveryModel {
        executed: m.executed.push(m.plan[m.idx].name),
        phase: if !ok {
            RecoveryPhaseModel::Finished(
                RecoveryOutcomeModel::Failed { action: m.plan[m.idx].name, reason: detail },
            )
        } else if m.plan[m.idx].wait_after_ms is Some {
            RecoveryPhaseModel::Waiting
        } else {
            RecoveryPhaseModel::Verifying
        },
        ..m
    }
}

/// Transition for the end of a post-action wait.
pub open spec fn step_wait(m: RecoveryModel) -> RecoveryModel {
    RecoveryModel { phase: RecoveryPhaseModel::Verifying, ..m }
}

/// Transition for the verification probe's outcome.  Reachable: recovery is
/// confirmed and the rest of the plan is skipped (a notification is
/// requested first when configured).  Unreachable: the next action runs, or
/// the run ends exhausted when none is left.
pub open spec fn step_verify(m: RecoveryModel, reachable: bool) -> RecoveryModel {
    if reachable {
        RecoveryModel {
            phase: if m.notify_command is Some {
                RecoveryPhaseModel::Notifying
            } else {
                RecoveryPhaseModel::Finished(RecoveryOutcomeModel::Recovered)
            },
            ..m
        }
    } else if m.idx + 1 < m.plan.len() {
        RecoveryModel { idx: m.idx + 1, phase: RecoveryPhaseModel::Executing, ..m }
    } else {
        RecoveryModel {
            phase: RecoveryPhaseModel::Finished(RecoveryOutcomeModel::Exhausted),
            ..m
        }
    }
}

/// Transition for the notification command's outcome.  Notification is best
/// effort: the run ends recovered whether or not the command succeeded.
pub open spec fn step_notify(m: RecoveryModel, ok: bool) -> RecoveryModel {
    RecoveryModel { phase: RecoveryPhaseModel::Finished(RecoveryOutcomeModel::Recovered), ..m }
}

/// One event reported back to the coordinator.
pub enum RecoveryEventModel {
    Command { ok: bool, detail: Seq<char> },
    WaitDone,
    Verify { reachable: bool },
    Notify { ok: bool },
}

/// Dispatches one event on the current phase.  An event that does not match
/// the phase leaves the state unchanged; in particular a finished run
/// reacts to nothing.
pub open spec fn step_event(m: RecoveryModel, e: RecoveryEventModel) -> RecoveryModel {
    match e {
        RecoveryEventModel::Command { ok, detail } => if m.phase is Executing {
            step_command(m, ok, detail)
        } else {
            m
        },
        RecoveryEventModel::WaitDone => if m.phase is Waiting {
            step_wait(m)
        } else {
            m
        },
        RecoveryEventModel::Verify { reachable } => if m.phase is Verifying {
            step_verify(m, reachable)
        } else {
            m
        },
        RecoveryEventModel::Notify { ok } => if m.phase is Notifying {
            step_notify(m, ok)
        } else {
            m
        },
    }
}

/// Folds a sequence of events through [`step_event`].
pub open spec fn run_events(m: RecoveryModel, es: Seq<RecoveryEventModel>) -> RecoveryModel
    decreases es.len(),
{
    if es.len() == 0 {
        m
    } else {
        run_events(step_event(m, es[0]), es.drop_first())
    }
}

impl RecoveryRun {
    /// Starts a recovery run over a snapshot of the configuration.
    pub fn start(config: &Config) -> (r: Self)
        ensures
            r@ == init_recovery(config@),
            recovery_wf(r@),
    {
        let plan = clone_plan(&config.recovery_actions);
        let notify_command = if config.notification_enabled {
            match &config.notification_command {
                Some(c) => Some(c.clone()),
                None => None,
            }
        } else {
            None
        };
        let phase = if plan.len() == 0 {
            RecoveryPhase::Finished(RecoveryOutcome::Exhausted)
        } else {
            RecoveryPhase::Executing
        };
        let r = RecoveryRun {
            plan,
            verify_address: config.default_target.clone(),
            verify_timeout_ms: config.ping_timeout_ms,
            notify_command,
            idx: 0,
            phase,
            executed: Vec::new(),
        };
        proof {
            assert(r@.plan =~= init_recovery(config@).plan);
            assert(r@.executed =~= init_recovery(config@).executed);
            assert(r@ =~= init_recovery(config@));
            assert(r@.executed =~= plan_names(r@.plan).take(executed_count(r@)));
        }
        r
    }

    /// Whether the run is over.
    pub fn finished(&self) -> (r: bool)
        ensures
            r == (self@.phase is Finished),
    {
        match self.phase {
            RecoveryPhase::Finished(_) => true,
            _ => false,
        }
    }

    /// The next step the caller must perform.
    pub fn next_step(&self) -> (r: RecoveryStep)
        requires
            recovery_wf(self@),
        ensures
            r@ == next_step_spec(self@),
    {
        match &self.phase {
            RecoveryPhase::Executing => RecoveryStep::Execute {
                name: self.plan[self.idx].name.clone(),
                command: self.plan[self.idx].command.clone(),
            },
            RecoveryPhase::Waiting => RecoveryStep::Wait {
                duration_ms: match self.plan[self.idx].wait_after_ms {
                    Some(d) => d,
                    None => 0,
                },
            },
            RecoveryPhase::Verifying => RecoveryStep::Verify {
                address: self.verify_address.clone(),
                timeout_ms: self.verify_timeout_ms,
            },
            RecoveryPhase::Notifying => RecoveryStep::Notify {
                command: match &self.notify_command {
                    Some(c) => c.clone(),
                    None => String::new(),
                },
            },
            RecoveryPhase::Finished(o) => RecoveryStep::Done { outcome: o.clone() },
        }
    }

    /// Reports the outcome of the current action's command.
    pub fn on_command_result(&mut self, ok: bool, detail: String)
        requires
            recovery_wf(old(self)@),
            old(self)@.phase is Executing,
        ensures
            final(self)@ == step_command(old(self)@, ok, detail@),
            recovery_wf(final(self)@),
    {
        let name = self.plan[self.idx].name.clone();
        self.executed.push(name);
        if !ok {
            let action = self.plan[self.idx].name.clone();
            self.phase = RecoveryPhase::Finished(RecoveryOutcome::Failed {
                action,
                reason: detail,
            });
        } else {
            match self.plan[self.idx].wait_after_ms {
                Some(_) => {
                    self.phase = RecoveryPhase::Waiting;
                },
                None => {
                    self.phase = RecoveryPhase::Verifying;
                },
            }
        }
        proof {
            let m = step_command(old(self)@, ok, detail@);
            assert(self@.plan =~= m.plan);
            assert(self@.executed =~= m.executed);
            assert(self@ =~= m);
            assert(self@.executed =~= plan_names(self@.plan).take(executed_count(self@)));
        }
    }

    /// Reports that the current action's post-execution wait has elapsed.
    pub fn on_wait_done(&mut self)
        requires
            recovery_wf(old(self)@),
            old(self)@.phase is Waiting,
        ensures
            final(self)@ == step_wait(old(self)@),
            recovery_wf(final(self)@),
    {
        self.phase = RecoveryPhase::Verifying;
        proof {
            assert(self@ =~= step_wait(old(self)@));
        }
    }

    /// Reports the outcome of the verification probe.
    pub fn on_verify_result(&mut self, reachable: bool)
        requires
            recovery_wf(old(self)@),
            old(self)@.phase is Verifying,
        ensures
            final(self)@ == step_verify(old(self)@, reachable),
            recovery_wf(final(self)@),
    {
        let plan_len = self.plan.len();
        if reachable {
            match &self.notify_command {
                Some(_) => {
                    self.phase = RecoveryPhase::Notifying;
                },
                None => {
                    self.phase = RecoveryPhase::Finished(RecoveryOutcome::Recovered);
                },
            }
        } else if self.idx + 1 < plan_len {
            self.idx = self.idx + 1;
            self.phase = RecoveryPhase::Executing;
        } else {
            self.phase = RecoveryPhase::Finished(RecoveryOutcome::Exhausted);
        }
        proof {
            let m = step_verify(old(self)@, reachable);
            assert(self@ =~= m);
            assert(self@.executed =~= plan_names(self@.plan).take(executed_count(self@)));
        }
    }

    /// Reports the outcome of the notification command.
    pub fn on_notify_result(&mut self, ok: bool)
        requires
            recovery_wf(old(self)@),
            old(self)@.phase is Notifying,
        ensures
            final(self)@ == step_notify(old(self)@, ok),
            recovery_wf(final(self)@),
    {
        self.phase = RecoveryPhase::Finished(RecoveryOutcome::Recovered);
        proof {
            assert(self@ =~= step_notify(old(self)@, ok));
        }
    }
}

fn clone_plan(v: &Vec<RecoveryAction>) -> (res: Vec<RecoveryAction>)
    ensures
        res@ == v@,
{
    let mut out: Vec<RecoveryAction> = Vec::new();
    let mut i: usize = 0;
    while i < v.len()
        invariant
            i <= v.len(),
            out@ =~= v@.subrange(0, i as int),
        decreases v.len() - i,
    {
        out.push(v[i].clone());
        i += 1;
    }
    proof {
        assert(out@ =~= v@);
    }
    out
}

/// Law: a finished run reacts to nothing — no event sequence changes it, so
/// no further action is ever attempted.
pub proof fn lemma_finished_is_final(m: RecoveryModel, es: Seq<RecoveryEventModel>)
    requires
        m.phase is Finished,
    ensures
        run_events(m, es) == m,
    decreases es.len(),
{
    if es.len() > 0 {
        assert(step_event(m, es[0]) == m);
        lemma_finished_is_final(m, es.drop_first());
    }
}

/// Law: a failing action halts the plan.  When the current action's command
/// fails, the run ends at once with that action's name and the reported
/// reason; the actions executed are exactly the plan's first `idx + 1`, in
/// declared order, and nothing further is attempted.
pub proof fn lemma_failing_action_halts(m: RecoveryModel, detail: Seq<char>)
    requires
        recovery_wf(m),
        m.phase is Executing,
    ensures
        step_command(m, false, detail).phase == RecoveryPhaseModel::Finished(
            RecoveryOutcomeModel::Failed { action: m.plan[m.idx].name, reason: detail },
        ),
        step_command(m, false, detail).executed == plan_names(m.plan).take(m.idx + 1),
{
    let m2 = step_command(m, false, detail);
    assert(m2.executed =~= plan_names(m.plan).take(m.idx + 1));
}

/// Law: with a fresh run over a non-empty plan whose first action's command
/// fails, only that first action is ever attempted, whatever happens
/// afterwards.
pub proof fn lemma_first_action_fails_only_first_attempted(
    cfg: ConfigModel,
    detail: Seq<char>,
    later: Seq<RecoveryEventModel>,
)
    requires
        cfg.recovery_actions.len() > 0,
    ensures
        ({
            let halted = step_event(
                init_recovery(cfg),
                RecoveryEventModel::Command { ok: false, detail },
            );
            &&& run_events(halted, later) == halted
            &&& halted.executed =~= seq![cfg.recovery_actions[0].name]
            &&& halted.phase == RecoveryPhaseModel::Finished(
                RecoveryOutcomeModel::Failed { action: cfg.recovery_actions[0].name, reason: detail },
            )
        }),
{
    let m0 = init_recovery(cfg);
    assert(m0.executed =~= plan_names(m0.plan).take(0));
    let halted = step_event(m0, RecoveryEventModel::Command { ok: false, detail });
    assert(halted.executed =~= seq![cfg.recovery_actions[0].name]);
    lemma_finished_is_final(halted, later);
}

/// Law: recovery halts at the first action whose verification succeeds.
/// With a plan of at least three actions, when the first action's command
/// succeeds but verification still fails, and the second action's command
/// succeeds and verification then succeeds, exactly the first two actions
/// are attempted — the third is not — and the run ends recovered (after the
/// notification step when one is configured).
pub proof fn lemma_halts_at_first_verified(cfg: ConfigModel, d1: Seq<char>, d2: Seq<char>)
    requires
        cfg.recovery_actions.len() >= 3,
    ensures
        ({
            let script = seq![
                RecoveryEventModel::Command { ok: true, detail: d1 },
                RecoveryEventModel::WaitDone,
                RecoveryEventModel::Verify { reachable: false },
                RecoveryEventModel::Command { ok: true, detail: d2 },
                RecoveryEventModel::WaitDone,
                RecoveryEventModel::Verify { reachable: true },
            ];
            let end = run_events(init_recovery(cfg), script);
            &&& end.executed =~= seq![
                cfg.recovery_actions[0].name,
                cfg.recovery_actions[1].name,
            ]
            &&& (match end.phase {
                RecoveryPhaseModel::Notifying => init_recovery(cfg).notify_command is Some
                    && step_notify(end, true).phase == RecoveryPhaseModel::Finished(
                    RecoveryOutcomeModel::Recovered,
                ),
                RecoveryPhaseModel::Finished(o) => o == RecoveryOutcomeModel::Recovered
                    && init_recovery(cfg).notify_command is None,
                _ => false,
            })
        }),
{
    let script = seq![
        RecoveryEventModel::Command { ok: true, detail: d1 },
        RecoveryEventModel::WaitDone,
        RecoveryEventModel::Verify { reachable: false },
        RecoveryEventModel::Command { ok: true, detail: d2 },
        RecoveryEventModel::WaitDone,
        RecoveryEventModel::Verify { reachable: true },
    ];
    let m0 = init_recovery(cfg);
    let m1 = step_event(m0, script[0]);
    let m2 = step_event(m1, script[1]);
    let m3 = step_event(m2, script[2]);
    let m4 = step_event(m3, script[3]);
    let m5 = step_event(m4, script[4]);
    let m6 = step_event(m5, script[5]);
    assert(run_events(m0, script) == m6) by {
        let s1 = script.drop_first();
        let s2 = s1.drop_first();
        let s3 = s2.drop_first();
        let s4 = s3.drop_first();
        let s5 = s4.drop_first();
        let s6 = s5.drop_first();
        assert(s1[0] == script[1]);
        assert(s2[0] == script[2]);
        assert(s3[0] == script[3]);
        assert(s4[0] == script[4]);
        assert(s5[0] == script[5]);
        assert(s6.len() == 0);
        assert(run_events(m0, script) == run_events(m1, s1));
        assert(run_events(m1, s1) == run_events(m2, s2));
        assert(run_events(m2, s2) == run_events(m3, s3));
        assert(run_events(m3, s3) == run_events(m4, s4));
        assert(run_events(m4, s4) == run_events(m5, s5));
        assert(run_events(m5, s5) == run_events(m6, s6));
        assert(run_events(m6, s6) == m6);
    }
    assert(m1.executed =~= m0.executed.push(m0.plan[0].name));
    assert(m4.executed =~= m1.executed.push(m0.plan[1].name));
    assert(m6.executed =~= seq![cfg.recovery_actions[0].name, cfg.recovery_actions[1].name]);
}

} // verus!
