//! Per-target observation state: the outcome of the most recent probe and
//! port check, and its presentation as online or offline.

use vstd::prelude::*;
use crate::config::NetworkTarget;

verus! {

/// Spec-level image of a [`TargetStatus`].
pub struct StatusModel {
    pub name: Seq<char>,
    pub address: Seq<char>,
    pub port: Option<u16>,
    pub last_check: Option<u64>,
    pub ping_result: Option<Result<u64, Seq<char>>>,
    pub port_result: Option<Result<(), Seq<char>>>,
}

/// Observation state of one monitored target: identity, the time of the
/// last check (milliseconds on the caller's clock), the last probe outcome
/// and the last port-check outcome.
#[derive(Debug, PartialEq)]
pub struct TargetStatus {
    pub name: String,
    pub address: String,
    pub port: Option<u16>,
    pub last_check: Option<u64>,
    pub ping_result: Option<Result<u64, String>>,
    pub port_result: Option<Result<(), String>>,
}

pub open spec fn view_ping_result(r: Option<Result<u64, String>>) -> Option<Result<u64, Seq<char>>> {
    match r {
        None => None,
        Some(Ok(latency)) => Some(Ok(latency)),
        Some(Err(reason)) => Some(Err(reason@)),
    }
}

pub open spec fn view_port_result(r: Option<Result<(), String>>) -> Option<Result<(), Seq<char>>> {
    match r {
        None => None,
        Some(Ok(unit)) => Some(Ok(unit)),
        Some(Err(reason)) => Some(Err(reason@)),
    }
}

impl View for TargetStatus {
    type V = StatusModel;

    open spec fn view(&self) -> StatusModel {
        StatusModel {
            name: self.name@,
            address: self.address@,
            port: self.port,
            last_check: self.last_check,
            ping_result: view_ping_result(self.ping_result),
            port_result: view_port_result(self.port_result),
        }
    }
}

/// A target is online when its last probe succeeded and, if a port is
/// configured, its last port check succeeded as well.
pub open spec fn status_online(s: StatusModel) -> bool {
    &&& s.ping_result matches Some(Ok(_))
    &&& (s.port is None || s.port_result matches Some(Ok(_)))
}

/// The observation state of a target that has not been probed yet.
pub open spec fn fresh_status(t: NetworkTarget) -> TargetStatus {
    TargetStatus {
        name: t.name,
        address: t.address,
        port: t.port,
        last_check: None,
        ping_result: None,
        port_result: None,
    }
}

impl Clone for TargetStatus {
    fn clone(&self) -> (res: Self)
        ensures
            res == *self,
    {
        TargetStatus {
            name: self.name.clone(),
            address: self.address.clone(),
            port: self.port,
            last_check: self.last_check,
            ping_result: match &self.ping_result {
                None => None,
                Some(Ok(latency)) => Some(Ok(*latency)),
                Some(Err(reason)) => Some(Err(reason.clone())),
            },
            port_result: match &self.port_result {
                None => None,
                Some(Ok(unit)) => Some(Ok(*unit)),
                Some(Err(reason)) => Some(Err(reason.clone())),
            },
        }
    }
}

impl TargetStatus {
    /// Creates the observation state for a target that has not been probed.
    pub fn new(target: &NetworkTarget) -> (res: Self)
        ensures
            res == fresh_status(*target),
    {
        TargetStatus {
            name: target.name.clone(),
            address: target.address.clone(),
            port: target.port,
            last_check: None,
            ping_result: None,
            port_result: None,
        }
    }

    /// Whether the target counts as online under the last observations.
    pub fn is_ok(&self) -> (r: bool)
        ensures
            r == status_online(self@),
    {
        let ping_ok = match &self.ping_result {
            Some(Ok(_)) => true,
            _ => false,
        };
        let port_ok = match self.port {
            None => true,
            Some(_) => match &self.port_result {
                Some(Ok(_)) => true,
                _ => false,
            },
        };
        ping_ok && port_ok
    }

    /// Records the outcome of a probe made at `now_ms`.
    pub fn record_ping(&mut self, outcome: Result<u64, String>, now_ms: u64)
        ensures
            final(self).name == old(self).name,
            final(self).address == old(self).address,
            final(self).port == old(self).port,
            final(self).last_check == Some(now_ms),
            final(self).ping_result == Some(outcome),
            final(self).port_result == old(self).port_result,
    {
        self.last_check = Some(now_ms);
        self.ping_result = Some(outcome);
    }

    /// Records the outcome of a port check made at `now_ms`.
    pub fn record_port(&mut self, outcome: Result<(), String>, now_ms: u64)
        ensures
            final(self).name == old(self).name,
            final(self).address == old(self).address,
            final(self).port == old(self).port,
            final(self).last_check == Some(now_ms),
            final(self).ping_result == old(self).ping_result,
            final(self).port_result == Some(outcome),
    {
        self.last_check = Some(now_ms);
        self.port_result = Some(outcome);
    }
}

/// The first status in `ss` whose name is `name`, if any.
pub open spec fn find_status(ss: Seq<TargetStatus>, name: Seq<char>) -> Option<TargetStatus>
    decreases ss.len(),
{
    if ss.len() == 0 {
        None
    } else if ss[0].name@ == name {
        Some(ss[0])
    } else {
        find_status(ss.drop_first(), name)
    }
}

/// The status a target keeps across a configuration update: its existing
/// observation state when one is present under its name, a fresh one
/// otherwise.
pub open spec fn reconciled_status(ss: Seq<TargetStatus>, t: NetworkTarget) -> TargetStatus {
    match find_status(ss, t.name@) {
        Some(s) => s,
        None => fresh_status(t),
    }
}

proof fn lemma_find_status_at(ss: Seq<TargetStatus>, name: Seq<char>, m: int)
    requires
        0 <= m <= ss.len(),
        forall|j: int| 0 <= j < m ==> (#[trigger] ss[j]).name@ != name,
    ensures
        m == ss.len() ==> find_status(ss, name) is None,
        m < ss.len() && ss[m].name@ == name ==> find_status(ss, name) == Some(ss[m]),
    decreases m,
{
    if m == 0 {
    } else {
        assert(ss[0].name@ != name);
        let rest = ss.drop_first();
        assert(forall|j: int| 0 <= j < m - 1 ==> (#[trigger] rest[j]).name@ != name);
        lemma_find_status_at(rest, name, m - 1);
        if m < ss.len() && ss[m].name@ == name {
            assert(rest[m - 1] == ss[m]);
        }
    }
}

/// Finds the first stored status carrying `name`.
fn find_status_index(statuses: &Vec<TargetStatus>, name: &String) -> (r: Option<usize>)
    ensures
        match r {
            Some(j) => j < statuses@.len() && find_status(statuses@, name@) == Some(
                statuses@[j as int],
            ),
            None => find_status(statuses@, name@) is None,
        },
{
    let mut j: usize = 0;
    while j < statuses.len()
        invariant
            j <= statuses@.len(),
            forall|k: int| 0 <= k < j ==> (#[trigger] statuses@[k]).name@ != name@,
        decreases statuses@.len() - j,
    {
        if statuses[j].name == *name {
            proof {
                lemma_find_status_at(statuses@, name@, j as int);
            }
            return Some(j);
        }
        j += 1;
    }
    proof {
        lemma_find_status_at(statuses@, name@, statuses@.len() as int);
    }
    None
}

/// Aligns the stored statuses with an updated target list: statuses of
/// removed targets are dropped, statuses of kept targets survive unchanged,
/// and each new target receives a fresh status.  The result follows the
/// order of the target list.
pub fn reconcile_statuses(statuses: &mut Vec<TargetStatus>, targets: &Vec<NetworkTarget>)
    ensures
        final(statuses)@.len() == targets@.len(),
        forall|i: int|
            0 <= i < targets@.len() ==> final(statuses)@[i] == reconciled_status(
                old(statuses)@,
                targets@[i],
            ),
{
    let mut out: Vec<TargetStatus> = Vec::new();
    let mut i: usize = 0;
    while i < targets.len()
        invariant
            i <= targets@.len(),
            out@.len() == i,
            forall|k: int|
                0 <= k < i ==> out@[k] == reconciled_status(statuses@, targets@[k]),
        decreases targets@.len() - i,
    {
        let target = &targets[i];
        match find_status_index(statuses, &target.name) {
            Some(j) => {
                out.push(statuses[j].clone());
            },
            None => {
                out.push(TargetStatus::new(target));
            },
        }
        i += 1;
    }
    *statuses = out;
}

} // verus!
