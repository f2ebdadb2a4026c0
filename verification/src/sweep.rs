//! One immediate status pass: every target is probed once (no retry, no
//! backoff), its port is checked once when declared, and the observations
//! are collected.  Nothing is aggregated and no recovery is triggered.

use vstd::prelude::*;
use crate::config::{Config, target_timeout_spec};
use crate::monitor::{MonitorRequest, RequestModel};
use crate::status::{fresh_status, TargetStatus};

verus! {

/// Where the pass stands.
#[derive(Clone, Copy, Debug, PartialEq, Eq, Structural)]
pub enum SweepPhase {
    /// The current target's probe is outstanding.
    Pinging,
    /// The current target's port check is outstanding.
    PortChecking,
    /// Every target has been observed.
    Done,
}

/// State of one immediate pass over the configured targets.
#[derive(Debug)]
pub struct StatusSweep {
    /// Immutable snapshot of the configuration.
    pub config: Config,
    /// Index of the target being observed.
    pub target_idx: usize,
    /// Observations so far, aligned with the target list.
    pub statuses: Vec<TargetStatus>,
    /// Current phase.
    pub phase: SweepPhase,
}

/// Internal consistency of a pass.
pub open spec fn sweep_wf(m: StatusSweep) -> bool {
    let cfg = m.config@;
    let n = cfg.targets.len() as int;
    &&& m.statuses@.len() == n
    &&& forall|i: int|
        0 <= i < n ==> {
            &&& (#[trigger] m.statuses@[i])@.name == cfg.targets[i].name
            &&& m.statuses@[i]@.address == cfg.targets[i].address
            &&& m.statuses@[i]@.port == cfg.targets[i].port
        }
    &&& match m.phase {
        SweepPhase::Pinging => m.target_idx < n,
        SweepPhase::PortChecking => m.target_idx < n && cfg.targets[m.target_idx as int].port
            is Some,
        SweepPhase::Done => true,
    }
}

impl StatusSweep {
    /// Starts a pass over the targets of `config`.
    pub fn new(config: Config) -> (m: Self)
        ensures
            sweep_wf(m),
            m.config@ == config@,
            m.statuses@.len() == config@.targets.len(),
            forall|i: int|
                0 <= i < config@.targets.len() ==> #[trigger] m.statuses@[i] == fresh_status(
                    config.targets@[i],
                ),
            config@.targets.len() > 0 ==> m.phase == SweepPhase::Pinging && m.target_idx == 0,
            config@.targets.len() == 0 ==> m.phase == SweepPhase::Done,
    {
        let mut statuses: Vec<TargetStatus> = Vec::new();
        let mut i: usize = 0;
        while i < config.targets.len()
            invariant
                i <= config.targets@.len(),
                statuses@.len() == i,
                forall|k: int|
                    0 <= k < i ==> #[trigger] statuses@[k] == fresh_status(config.targets@[k]),
            decreases config.targets@.len() - i,
        {
            statuses.push(TargetStatus::new(&config.targets[i]));
            i += 1;
        }
        let phase = if config.targets.len() > 0 {
            SweepPhase::Pinging
        } else {
            SweepPhase::Done
        };
        StatusSweep { config, target_idx: 0, statuses, phase }
    }

    /// What the driver must do next, or nothing once the pass is done.
    pub fn next_request(&self) -> (r: Option<MonitorRequest>)
        requires
            sweep_wf(*self),
        ensures
            match self.phase {
                SweepPhase::Pinging => r matches Some(req) && req@ == (RequestModel::Probe {
                    address: self.config@.targets[self.target_idx as int].address,
                    timeout_ms: target_timeout_spec(
                        self.config@,
                        self.config@.targets[self.target_idx as int],
                    ),
                }),
                SweepPhase::PortChecking => r matches Some(req) && req@ == (
                RequestModel::CheckPort {
                    address: self.config@.targets[self.target_idx as int].address,
                    port: self.config@.targets[self.target_idx as int].port->0,
                    timeout_ms: target_timeout_spec(
                        self.config@,
                        self.config@.targets[self.target_idx as int],
                    ),
                }),
                SweepPhase::Done => r is None,
            },
    {
        match self.phase {
            SweepPhase::Pinging => {
                let target = &self.config.targets[self.target_idx];
                Some(MonitorRequest::Probe {
                    address: target.address.clone(),
                    timeout_ms: self.config.get_target_timeout(target),
                })
            },
            SweepPhase::PortChecking => {
                let target = &self.config.targets[self.target_idx];
                let port = match target.port {
                    Some(p) => p,
                    None => 0,
                };
                Some(MonitorRequest::CheckPort {
                    address: target.address.clone(),
                    port,
                    timeout_ms: self.config.get_target_timeout(target),
                })
            },
            SweepPhase::Done => None,
        }
    }

    /// Records the probe outcome of the current target, then moves to its
    /// port check when a port is declared, else to the next target.
    pub fn on_probe_result(&mut self, outcome: Result<u64, String>, now_ms: u64)
        requires
            sweep_wf(*old(self)),
            old(self).phase == SweepPhase::Pinging,
        ensures
            sweep_wf(*final(self)),
            final(self).config == old(self).config,
            final(self).statuses@ == old(self).statuses@.update(
                old(self).target_idx as int,
                crate::monitor::status_after_ping(
                    old(self).statuses@[old(self).target_idx as int],
                    outcome,
                    now_ms,
                ),
            ),
            old(self).config@.targets[old(self).target_idx as int].port is Some ==> {
                &&& final(self).phase == SweepPhase::PortChecking
                &&& final(self).target_idx == old(self).target_idx
            },
            old(self).config@.targets[old(self).target_idx as int].port is None ==> {
                &&& final(self).target_idx == old(self).target_idx + 1
                &&& (final(self).phase == SweepPhase::Pinging <==> old(self).target_idx + 1
                    < old(self).config@.targets.len())
                &&& (final(self).phase == SweepPhase::Done <==> old(self).target_idx + 1
                    == old(self).config@.targets.len())
            },
    {
        let t = self.target_idx;
        self.statuses[t].record_ping(outcome, now_ms);
        let has_port = match self.config.targets[t].port {
            Some(_) => true,
            None => false,
        };
        if has_port {
            self.phase = SweepPhase::PortChecking;
        } else {
            self.advance();
        }
    }

    /// Records the port-check outcome of the current target and moves to
    /// the next target.
    pub fn on_port_result(&mut self, outcome: Result<(), String>, now_ms: u64)
        requires
            sweep_wf(*old(self)),
            old(self).phase == SweepPhase::PortChecking,
        ensures
            sweep_wf(*final(self)),
            final(self).config == old(self).config,
            final(self).statuses@ == old(self).statuses@.update(
                old(self).target_idx as int,
                crate::monitor::status_after_port(
                    old(self).statuses@[old(self).target_idx as int],
                    outcome,
                    now_ms,
                ),
            ),
            final(self).target_idx == old(self).target_idx + 1,
            (final(self).phase == SweepPhase::Pinging <==> old(self).target_idx + 1 < old(
                self,
            ).config@.targets.len()),
            (final(self).phase == SweepPhase::Done <==> old(self).target_idx + 1 == old(
                self,
            ).config@.targets.len()),
    {
        let t = self.target_idx;
        self.statuses[t].record_port(outcome, now_ms);
        self.advance();
    }

    /// Steps to the next target, or finishes the pass.
    fn advance(&mut self)
        requires
            sweep_wf(*old(self)),
            old(self).target_idx < old(self).config@.targets.len(),
        ensures
            sweep_wf(*final(self)),
            final(self).config == old(self).config,
            final(self).statuses == old(self).statuses,
            final(self).target_idx == old(self).target_idx + 1,
            (final(self).phase == SweepPhase::Pinging <==> old(self).target_idx + 1 < old(
                self,
            ).config@.targets.len()),
            (final(self).phase == SweepPhase::Done <==> old(self).target_idx + 1 == old(
                self,
            ).config@.targets.len()),
    {
        let n = self.config.targets.len();
        self.target_idx = self.target_idx + 1;
        if self.target_idx < n {
            self.phase = SweepPhase::Pinging;
        } else {
            self.phase = SweepPhase::Done;
        }
    }

    /// Whether every target has been observed.
    pub fn finished(&self) -> (r: bool)
        ensures
            r == (self.phase == SweepPhase::Done),
    {
        match self.phase {
            SweepPhase::Done => true,
            _ => false,
        }
    }

    /// Hands the collected observations out.
    pub fn into_statuses(self) -> (r: Vec<TargetStatus>)
        ensures
            r == self.statuses,
    {
        self.statuses
    }
}

} // verus!
