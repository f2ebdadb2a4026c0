//! Configuration data model: monitored targets, the ordered recovery plan,
//! and the aggregate settings record with its per-target fallbacks.

use vstd::prelude::*;
use vstd::string::*;

verus! {

/// Spec-level image of a [`NetworkTarget`].
#[verifier::ext_equal]
pub struct TargetModel {
    pub name: Seq<char>,
    pub address: Seq<char>,
    pub port: Option<u16>,
    pub timeout_ms: Option<u64>,
    pub retry_count: Option<u8>,
}

/// Spec-level image of a [`RecoveryAction`].
#[verifier::ext_equal]
pub struct ActionModel {
    pub name: Seq<char>,
    pub command: Seq<char>,
    pub wait_after_ms: Option<u64>,
}

/// Spec-level image of a [`Config`].
#[verifier::ext_equal]
pub struct ConfigModel {
    pub default_target: Seq<char>,
    pub check_interval_sec: u64,
    pub ping_timeout_ms: u64,
    pub retry_count: u8,
    pub targets: Seq<TargetModel>,
    pub recovery_actions: Seq<ActionModel>,
    pub log_file: Option<Seq<char>>,
    pub notification_enabled: bool,
    pub notification_command: Option<Seq<char>>,
}

/// One monitored endpoint: a host address with optional port check and
/// optional per-target overrides of the global timeout and retry budget.
#[derive(Debug, PartialEq)]
pub struct NetworkTarget {
    pub name: String,
    pub address: String,
    pub port: Option<u16>,
    pub timeout_ms: Option<u64>,
    pub retry_count: Option<u8>,
}

/// One step of the recovery plan: a named command with an optional wait
/// after it succeeds.
#[derive(Debug, PartialEq)]
pub struct RecoveryAction {
    pub name: String,
    pub command: String,
    pub wait_after_ms: Option<u64>,
}

/// The aggregate settings record: global defaults, the target list, the
/// ordered recovery plan, and logging and notification settings.
#[derive(Debug, PartialEq)]
pub struct Config {
    pub default_target: String,
    pub check_interval_sec: u64,
    pub ping_timeout_ms: u64,
    pub retry_count: u8,
    pub targets: Vec<NetworkTarget>,
    pub recovery_actions: Vec<RecoveryAction>,
    pub log_file: Option<String>,
    pub notification_enabled: bool,
    pub notification_command: Option<String>,
}

pub open spec fn view_opt_string(s: Option<String>) -> Option<Seq<char>> {
    match s {
        Some(v) => Some(v@),
        None => None,
    }
}

impl View for NetworkTarget {
    type V = TargetModel;

    open spec fn view(&self) -> TargetModel {
        TargetModel {
            name: self.name@,
            address: self.address@,
            port: self.port,
            timeout_ms: self.timeout_ms,
            retry_count: self.retry_count,
        }
    }
}

impl View for RecoveryAction {
    type V = ActionModel;

    open spec fn view(&self) -> ActionModel {
        ActionModel {
            name: self.name@,
            command: self.command@,
            wait_after_ms: self.wait_after_ms,
        }
    }
}

impl View for Config {
    type V = ConfigModel;

    open spec fn view(&self) -> ConfigModel {
        ConfigModel {
            default_target: self.default_target@,
            check_interval_sec: self.check_interval_sec,
            ping_timeout_ms: self.ping_timeout_ms,
            retry_count: self.retry_count,
            targets: Seq::new(self.targets@.len(), |i: int| self.targets@[i]@),
            recovery_actions: Seq::new(
                self.recovery_actions@.len(),
                |i: int| self.recovery_actions@[i]@,
            ),
            log_file: view_opt_string(self.log_file),
            notification_enabled: self.notification_enabled,
            notification_command: view_opt_string(self.notification_command),
        }
    }
}

impl Clone for NetworkTarget {
    fn clone(&self) -> (res: Self)
        ensures
            res == *self,
    {
        NetworkTarget {
            name: self.name.clone(),
            address: self.address.clone(),
            port: self.port,
            timeout_ms: self.timeout_ms,
            retry_count: self.retry_count,
        }
    }
}

impl Clone for RecoveryAction {
    fn clone(&self) -> (res: Self)
        ensures
            res == *self,
    {
        RecoveryAction {
            name: self.name.clone(),
            command: self.command.clone(),
            wait_after_ms: self.wait_after_ms,
        }
    }
}

fn clone_opt_string(s: &Option<String>) -> (res: Option<String>)
    ensures
        res == *s,
{
    match s {
        Some(v) => Some(v.clone()),
        None => None,
    }
}

fn clone_targets(v: &Vec<NetworkTarget>) -> (res: Vec<NetworkTarget>)
    ensures
        res@ == v@,
{
    let mut out: Vec<NetworkTarget> = Vec::new();
    let mut i: usize = 0;
    while i < v.len()
        invariant
            i <= v.len(),
            out@ =~= v@.subrange(0, i as int),
        decreases v.len() - i,
    {
        out.push(v[i].clone());
        i += 1;
    }
    proof {
        assert(out@ =~= v@);
    }
    out
}

fn clone_actions(v: &Vec<RecoveryAction>) -> (res: Vec<RecoveryAction>)
    ensures
        res@ == v@,
{
    let mut out: Vec<RecoveryAction> = Vec::new();
    let mut i: usize = 0;
    while i < v.len()
        invariant
            i <= v.len(),
            out@ =~= v@.subrange(0, i as int),
        decreases v.len() - i,
    {
        out.push(v[i].clone());
        i += 1;
    }
    proof {
        assert(out@ =~= v@);
    }
    out
}

impl Clone for Config {
    fn clone(&self) -> (res: Self)
        ensures
            res@ == self@,
    {
        let res = Config {
            default_target: self.default_target.clone(),
            check_interval_sec: self.check_interval_sec,
            ping_timeout_ms: self.ping_timeout_ms,
            retry_count: self.retry_count,
            targets: clone_targets(&self.targets),
            recovery_actions: clone_actions(&self.recovery_actions),
            log_file: clone_opt_string(&self.log_file),
            notification_enabled: self.notification_enabled,
            notification_command: clone_opt_string(&self.notification_command),
        };
        proof {
            assert(res@ =~= self@);
        }
        res
    }
}

/// The probe timeout that applies to `t` under configuration `cfg`: the
/// per-target override when present, the global default otherwise.
pub open spec fn target_timeout_spec(cfg: ConfigModel, t: TargetModel) -> u64 {
    match t.timeout_ms {
        Some(v) => v,
        None => cfg.ping_timeout_ms,
    }
}

/// The total probe-attempt budget that applies to `t` under configuration
/// `cfg`: the per-target override when present, the global default otherwise.
pub open spec fn target_retry_spec(cfg: ConfigModel, t: TargetModel) -> u8 {
    match t.retry_count {
        Some(v) => v,
        None => cfg.retry_count,
    }
}

impl Config {
    /// Probe timeout in milliseconds for one target, falling back to the
    /// global default when the target declares no override.
    pub fn get_target_timeout(&self, target: &NetworkTarget) -> (r: u64)
        ensures
            r == target_timeout_spec(self@, target@),
    {
        match target.timeout_ms {
            Some(v) => v,
            None => self.ping_timeout_ms,
        }
    }

    /// Total probe-attempt budget for one target, falling back to the global
    /// default when the target declares no override.
    pub fn get_target_retry_count(&self, target: &NetworkTarget) -> (r: u8)
        ensures
            r == target_retry_spec(self@, target@),
    {
        match target.retry_count {
            Some(v) => v,
            None => self.retry_count,
        }
    }
}

/// The documented default configuration, written out when no configuration
/// file exists yet.
pub open spec fn default_config_model() -> ConfigModel {
    ConfigModel {
        default_target: "8.8.8.8"@,
        check_interval_sec: 60,
        ping_timeout_ms: 1000,
        retry_count: 3,
        targets: seq![
            TargetModel {
                name: "Google DNS"@,
                address: "8.8.8.8"@,
                port: None,
                timeout_ms: Some(1000),
                retry_count: Some(3),
            },
            TargetModel {
                name: "Local Router"@,
                address: "192.168.1.1"@,
                port: None,
                timeout_ms: Some(500),
                retry_count: Some(2),
            },
        ],
        recovery_actions: seq![
            ActionModel {
                name: "Restart network adapter"@,
                command: "powershell -Command \"Restart-NetAdapter -Name 'Ethernet' -Confirm:$false\""@,
                wait_after_ms: Some(5000),
            },
        ],
        log_file: Some("network_monitor.log"@),
        notification_enabled: true,
        notification_command: Some("powershell -Command \"Write-Output 'Network connection restored'\""@),
    }
}

impl Default for Config {
    /// Builds the default configuration value.
    fn default() -> (res: Self)
        ensures
            res@ == default_config_model(),
    {
        let targets = vec![
            NetworkTarget {
                name: String::from_str("Google DNS"),
                address: String::from_str("8.8.8.8"),
                port: None,
                timeout_ms: Some(1000),
                retry_count: Some(3),
            },
            NetworkTarget {
                name: String::from_str("Local Router"),
                address: String::from_str("192.168.1.1"),
                port: None,
                timeout_ms: Some(500),
                retry_count: Some(2),
            },
        ];
        let recovery_actions = vec![
            RecoveryAction {
                name: String::from_str("Restart network adapter"),
                command: String::from_str(
                    "powershell -Command \"Restart-NetAdapter -Name 'Ethernet' -Confirm:$false\"",
                ),
                wait_after_ms: Some(5000),
            },
        ];
        let res = Config {
            default_target: String::from_str("8.8.8.8"),
            check_interval_sec: 60,
            ping_timeout_ms: 1000,
            retry_count: 3,
            targets,
            recovery_actions,
            log_file: Some(String::from_str("network_monitor.log")),
            notification_enabled: true,
            notification_command: Some(String::from_str(
                "powershell -Command \"Write-Output 'Network connection restored'\"",
            )),
        };
        proof {
            assert(res@.targets =~= default_config_model().targets);
            assert(res@.recovery_actions =~= default_config_model().recovery_actions);
            assert(res@ =~= default_config_model());
        }
        res
    }
}

} // verus!
