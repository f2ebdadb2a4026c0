//! The configuration file format: a line-oriented key/value text with
//! `[[targets]]` and `[[recovery_actions]]` blocks, quoted strings, decimal
//! numbers, booleans and `[]` for an empty list — the shape a structured
//! key-value configuration file takes.
//!
//! [`save_config`] writes a configuration; [`load_config`] reads one back,
//! reporting the first offending line or missing field.  Reading back a
//! written configuration recovers it exactly
//! ([`lemma_load_save_roundtrip`]).

use vstd::prelude::*;
use vstd::string::*;
use crate::config::{ActionModel, Config, ConfigModel, NetworkTarget, RecoveryAction, TargetModel};
use crate::text::{
    chars_to_string, copy_range, escape, find_char, join_lines, join_lines_vec, lines_view,
    parse_u64_spec, parse_u64_vec, push_escaped, push_u64_digits, split_lines, split_lines_vec,
    trim, trim_end, trim_start, trim_vec, u64_digits, unescape, unescape_vec, vec_eq_str,
    vec_find_char, vec_from_str,
};

verus! {

/// A field the format requires.
#[derive(Clone, Copy, Debug, PartialEq, Eq, Structural)]
pub enum FieldKey {
    DefaultTarget,
    CheckIntervalSec,
    PingTimeoutMs,
    RetryCount,
    NotificationEnabled,
    Targets,
    RecoveryActions,
    TargetName,
    TargetAddress,
    ActionName,
    ActionCommand,
}

/// Why a configuration text is rejected.  Line numbers are 1-based.
#[derive(Clone, Copy, Debug, PartialEq, Eq, Structural)]
pub enum ConfigError {
    /// The line is neither blank, a comment, a block header nor `key = value`.
    BadSyntax { line: usize },
    /// The right-hand side is not a string, number, boolean or `[]`, or has
    /// the wrong type for its key.
    BadValue { line: usize },
    /// A `[...]` header other than the two known blocks.
    UnknownSection { line: usize },
    /// A key that was already set in its section.
    DuplicateKey { line: usize },
    /// A number too large for its field.
    OutOfRange { line: usize },
    /// A required field that never appeared.
    Missing { field: FieldKey },
}

/// A parsed right-hand side.
pub enum ValueModel {
    VStr(Seq<char>),
    VInt(u64),
    VBool(bool),
    VEmptyArray,
}

/// What a line means.
pub enum LineModel {
    Blank,
    TargetHeader,
    ActionHeader,
    KeyValue { key: Seq<char>, value: ValueModel },
    BadSyntax,
    BadValue,
    UnknownSection,
}

/// The meaning of a right-hand side: a quoted string, `true`/`false`, `[]`
/// or a decimal number.
pub open spec fn parse_value_spec(v: Seq<char>) -> Option<ValueModel> {
    if v.len() == 0 {
        None
    } else if v[0] == '"' {
        if v.len() >= 2 && v.last() == '"' {
            match unescape(v.subrange(1, v.len() - 1)) {
                Some(s) => Some(ValueModel::VStr(s)),
                None => None,
            }
        } else {
            None
        }
    } else if v == "true"@ {
        Some(ValueModel::VBool(true))
    } else if v == "false"@ {
        Some(ValueModel::VBool(false))
    } else if v == "[]"@ {
        Some(ValueModel::VEmptyArray)
    } else {
        match parse_u64_spec(v) {
            Some(n) => Some(ValueModel::VInt(n)),
            None => None,
        }
    }
}

/// The meaning of a line: blank or comment, block header, or `key = value`
/// with the key and value trimmed.
pub open spec fn classify_line(l: Seq<char>) -> LineModel {
    let t = trim(l);
    if t.len() == 0 {
        LineModel::Blank
    } else if t[0] == '#' {
        LineModel::Blank
    } else if t == "[[targets]]"@ {
        LineModel::TargetHeader
    } else if t == "[[recovery_actions]]"@ {
        LineModel::ActionHeader
    } else if t[0] == '[' {
        LineModel::UnknownSection
    } else {
        let e = find_char(t, '=');
        if e < 0 {
            LineModel::BadSyntax
        } else {
            let key = trim_end(t.take(e));
            let vtext = trim_start(t.skip(e + 1));
            match parse_value_spec(vtext) {
                Some(v) => LineModel::KeyValue { key, value: v },
                None => LineModel::BadValue,
            }
        }
    }
}

// ---------------------------------------------------------------------------
// accumulating state
// ---------------------------------------------------------------------------

/// Which block the reader stands in.
#[derive(Clone, Copy, Debug, PartialEq, Eq, Structural)]
pub enum Section {
    Top,
    InTargets,
    InActions,
}

/// A target block while its fields are being read.
#[verifier::ext_equal]
pub struct PTargetModel {
    pub name: Option<Seq<char>>,
    pub address: Option<Seq<char>>,
    pub port: Option<u16>,
    pub timeout_ms: Option<u64>,
    pub retry_count: Option<u8>,
}

/// An action block while its fields are being read.
#[verifier::ext_equal]
pub struct PActionModel {
    pub name: Option<Seq<char>>,
    pub command: Option<Seq<char>>,
    pub wait_after_ms: Option<u64>,
}

/// The reader's accumulated state.
#[verifier::ext_equal]
pub struct PStateModel {
    pub section: Section,
    pub default_target: Option<Seq<char>>,
    pub check_interval_sec: Option<u64>,
    pub ping_timeout_ms: Option<u64>,
    pub retry_count: Option<u8>,
    pub notification_enabled: Option<bool>,
    pub log_file: Option<Seq<char>>,
    pub notification_command: Option<Seq<char>>,
    pub targets_empty: bool,
    pub actions_empty: bool,
    pub targets: Seq<PTargetModel>,
    pub actions: Seq<PActionModel>,
}

pub open spec fn empty_ptarget() -> PTargetModel {
    PTargetModel { name: None, address: None, port: None, timeout_ms: None, retry_count: None }
}

pub open spec fn empty_paction() -> PActionModel {
    PActionModel { name: None, command: None, wait_after_ms: None }
}

pub open spec fn init_pstate() -> PStateModel {
    PStateModel {
        section: Section::Top,
        default_target: None,
        check_interval_sec: None,
        ping_timeout_ms: None,
        retry_count: None,
        notification_enabled: None,
        log_file: None,
        notification_command: None,
        targets_empty: false,
        actions_empty: false,
        targets: Seq::empty(),
        actions: Seq::empty(),
    }
}

/// A top-level `key = value` line: sets the named field once, rejects a
/// second setting or a wrong type, and ignores unknown keys.
pub open spec fn apply_top_key(
    st: PStateModel,
    key: Seq<char>,
    value: ValueModel,
    line: int,
) -> Result<PStateModel, ConfigError> {
    if key == "default_target"@ {
        match value {
            ValueModel::VStr(s) => if st.default_target is Some {
                Err(ConfigError::DuplicateKey { line: line as usize })
            } else {
                Ok(PStateModel { default_target: Some(s), ..st })
            },
            _ => Err(ConfigError::BadValue { line: line as usize }),
        }
    } else if key == "check_interval_sec"@ {
        match value {
            ValueModel::VInt(n) => if st.check_interval_sec is Some {
                Err(ConfigError::DuplicateKey { line: line as usize })
            } else {
                Ok(PStateModel { check_interval_sec: Some(n), ..st })
            },
            _ => Err(ConfigError::BadValue { line: line as usize }),
        }
    } else if key == "ping_timeout_ms"@ {
        match value {
            ValueModel::VInt(n) => if st.ping_timeout_ms is Some {
                Err(ConfigError::DuplicateKey { line: line as usize })
            } else {
                Ok(PStateModel { ping_timeout_ms: Some(n), ..st })
            },
            _ => Err(ConfigError::BadValue { line: line as usize }),
        }
    } else if key == "retry_count"@ {
        match value {
            ValueModel::VInt(n) => if n > u8::MAX as u64 {
                Err(ConfigError::OutOfRange { line: line as usize })
            } else if st.retry_count is Some {
                Err(ConfigError::DuplicateKey { line: line as usize })
            } else {
                Ok(PStateModel { retry_count: Some(n as u8), ..st })
            },
            _ => Err(ConfigError::BadValue { line: line as usize }),
        }
    } else if key == "notification_enabled"@ {
        match value {
            ValueModel::VBool(b) => if st.notification_enabled is Some {
                Err(ConfigError::DuplicateKey { line: line as usize })
            } else {
                Ok(PStateModel { notification_enabled: Some(b), ..st })
            },
            _ => Err(ConfigError::BadValue { line: line as usize }),
        }
    } else if key == "log_file"@ {
        match value {
            ValueModel::VStr(s) => if st.log_file is Some {
                Err(ConfigError::DuplicateKey { line: line as usize })
            } else {
                Ok(PStateModel { log_file: Some(s), ..st })
            },
            _ => Err(ConfigError::BadValue { line: line as usize }),
        }
    } else if key == "notification_command"@ {
        match value {
            ValueModel::VStr(s) => if st.notification_command is Some {
                Err(ConfigError::DuplicateKey { line: line as usize })
            } else {
                Ok(PStateModel { notification_command: Some(s), ..st })
            },
            _ => Err(ConfigError::BadValue { line: line as usize }),
        }
    } else if key == "targets"@ {
        match value {
            ValueModel::VEmptyArray => if st.targets_empty || st.targets.len() > 0 {
                Err(ConfigError::DuplicateKey { line: line as usize })
            } else {
                Ok(PStateModel { targets_empty: true, ..st })
            },
            _ => Err(ConfigError::BadValue { line: line as usize }),
        }
    } else if key == "recovery_actions"@ {
        match value {
            ValueModel::VEmptyArray => if st.actions_empty || st.actions.len() > 0 {
                Err(ConfigError::DuplicateKey { line: line as usize })
            } else {
                Ok(PStateModel { actions_empty: true, ..st })
            },
            _ => Err(ConfigError::BadValue { line: line as usize }),
        }
    } else {
        Ok(st)
    }
}

/// A `key = value` line inside the current target block.
pub open spec fn apply_target_key(
    st: PStateModel,
    key: Seq<char>,
    value: ValueModel,
    line: int,
) -> Result<PStateModel, ConfigError> {
    if st.targets.len() == 0 {
        Ok(st)
    } else {
        let i = st.targets.len() - 1;
        let t = st.targets.last();
        if key == "name"@ {
            match value {
                ValueModel::VStr(s) => if t.name is Some {
                    Err(ConfigError::DuplicateKey { line: line as usize })
                } else {
                    Ok(
                        PStateModel {
                            targets: st.targets.update(i, PTargetModel { name: Some(s), ..t }),
                            ..st
                        },
                    )
                },
                _ => Err(ConfigError::BadValue { line: line as usize }),
            }
        } else if key == "address"@ {
            match value {
                ValueModel::VStr(s) => if t.address is Some {
                    Err(ConfigError::DuplicateKey { line: line as usize })
                } else {
                    Ok(
                        PStateModel {
                            targets: st.targets.update(i, PTargetModel { address: Some(s), ..t }),
                            ..st
                        },
                    )
                },
                _ => Err(ConfigError::BadValue { line: line as usize }),
            }
        } else if key == "port"@ {
            match value {
                ValueModel::VInt(n) => if n > u16::MAX as u64 {
                    Err(ConfigError::OutOfRange { line: line as usize })
                } else if t.port is Some {
                    Err(ConfigError::DuplicateKey { line: line as usize })
                } else {
                    Ok(
                        PStateModel {
                            targets: st.targets.update(
                                i,
                                PTargetModel { port: Some(n as u16), ..t },
                            ),
                            ..st
                        },
                    )
                },
                _ => Err(ConfigError::BadValue { line: line as usize }),
            }
        } else if key == "timeout_ms"@ {
            match value {
                ValueModel::VInt(n) => if t.timeout_ms is Some {
                    Err(ConfigError::DuplicateKey { line: line as usize })
                } else {
                    Ok(
                        PStateModel {
                            targets: st.targets.update(
                                i,
                                PTargetModel { timeout_ms: Some(n), ..t },
                            ),
                            ..st
                        },
                    )
                },
                _ => Err(ConfigError::BadValue { line: line as usize }),
            }
        } else if key == "retry_count"@ {
            match value {
                ValueModel::VInt(n) => if n > u8::MAX as u64 {
                    Err(ConfigError::OutOfRange { line: line as usize })
                } else if t.retry_count is Some {
                    Err(ConfigError::DuplicateKey { line: line as usize })
                } else {
                    Ok(
                        PStateModel {
                            targets: st.targets.update(
                                i,
                                PTargetModel { retry_count: Some(n as u8), ..t },
                            ),
                            ..st
                        },
                    )
                },
                _ => Err(ConfigError::BadValue { line: line as usize }),
            }
        } else {
            Ok(st)
        }
    }
}

/// A `key = value` line inside the current action block.
pub open spec fn apply_action_key(
    st: PStateModel,
    key: Seq<char>,
    value: ValueModel,
    line: int,
) -> Result<PStateModel, ConfigError> {
    if st.actions.len() == 0 {
        Ok(st)
    } else {
        let i = st.actions.len() - 1;
        let a = st.actions.last();
        if key == "name"@ {
            match value {
                ValueModel::VStr(s) => if a.name is Some {
                    Err(ConfigError::DuplicateKey { line: line as usize })
                } else {
                    Ok(
                        PStateModel {
                            actions: st.actions.update(i, PActionModel { name: Some(s), ..a }),
                            ..st
                        },
                    )
                },
                _ => Err(ConfigError::BadValue { line: line as usize }),
            }
        } else if key == "command"@ {
            match value {
                ValueModel::VStr(s) => if a.command is Some {
                    Err(ConfigError::DuplicateKey { line: line as usize })
                } else {
                    Ok(
                        PStateModel {
                            actions: st.actions.update(i, PActionModel { command: Some(s), ..a }),
                            ..st
                        },
                    )
                },
                _ => Err(ConfigError::BadValue { line: line as usize }),
            }
        } else if key == "wait_after_ms"@ {
            match value {
                ValueModel::VInt(n) => if a.wait_after_ms is Some {
                    Err(ConfigError::DuplicateKey { line: line as usize })
                } else {
                    Ok(
                        PStateModel {
                            actions: st.actions.update(
                                i,
                                PActionModel { wait_after_ms: Some(n), ..a },
                            ),
                            ..st
                        },
                    )
                },
                _ => Err(ConfigError::BadValue { line: line as usize }),
            }
        } else {
            Ok(st)
        }
    }
}

/// One line applied to the reader's state.
pub open spec fn apply_line_spec(st: PStateModel, l: Seq<char>, line: int) -> Result<
    PStateModel,
    ConfigError,
> {
    match classify_line(l) {
        LineModel::Blank => Ok(st),
        LineModel::TargetHeader => if st.targets_empty {
            Err(ConfigError::DuplicateKey { line: line as usize })
        } else {
            Ok(
                PStateModel {
                    section: Section::InTargets,
                    targets: st.targets.push(empty_ptarget()),
                    ..st
                },
            )
        },
        LineModel::ActionHeader => if st.actions_empty {
            Err(ConfigError::DuplicateKey { line: line as usize })
        } else {
            Ok(
                PStateModel {
                    section: Section::InActions,
                    actions: st.actions.push(empty_paction()),
                    ..st
                },
            )
        },
        LineModel::UnknownSection => Err(ConfigError::UnknownSection { line: line as usize }),
        LineModel::BadSyntax => Err(ConfigError::BadSyntax { line: line as usize }),
        LineModel::BadValue => Err(ConfigError::BadValue { line: line as usize }),
        LineModel::KeyValue { key, value } => match st.section {
            Section::Top => apply_top_key(st, key, value, line),
            Section::InTargets => apply_target_key(st, key, value, line),
            Section::InActions => apply_action_key(st, key, value, line),
        },
    }
}

/// All lines applied in order, stopping at the first rejection.
pub open spec fn parse_doc(
    st: PStateModel,
    lines: Seq<Seq<char>>,
    line: int,
) -> Result<PStateModel, ConfigError>
    decreases lines.len(),
{
    if lines.len() == 0 {
        Ok(st)
    } else {
        match apply_line_spec(st, lines[0], line) {
            Ok(st2) => parse_doc(st2, lines.drop_first(), line + 1),
            Err(e) => Err(e),
        }
    }
}

/// A finished target block must have named a name and an address.
pub open spec fn finalize_target(t: PTargetModel) -> Result<TargetModel, ConfigError> {
    match t.name {
        None => Err(ConfigError::Missing { field: FieldKey::TargetName }),
        Some(name) => match t.address {
            None => Err(ConfigError::Missing { field: FieldKey::TargetAddress }),
            Some(address) => Ok(
                TargetModel {
                    name,
                    address,
                    port: t.port,
                    timeout_ms: t.timeout_ms,
                    retry_count: t.retry_count,
                },
            ),
        },
    }
}

pub open spec fn finalize_targets(ts: Seq<PTargetModel>) -> Result<Seq<TargetModel>, ConfigError>
    decreases ts.len(),
{
    if ts.len() == 0 {
        Ok(Seq::empty())
    } else {
        match finalize_target(ts[0]) {
            Ok(t) => match finalize_targets(ts.drop_first()) {
                Ok(rest) => Ok(seq![t] + rest),
                Err(e) => Err(e),
            },
            Err(e) => Err(e),
        }
    }
}

/// A finished action block must have named a name and a command.
pub open spec fn finalize_action(a: PActionModel) -> Result<ActionModel, ConfigError> {
    match a.name {
        None => Err(ConfigError::Missing { field: FieldKey::ActionName }),
        Some(name) => match a.command {
            None => Err(ConfigError::Missing { field: FieldKey::ActionCommand }),
            Some(command) => Ok(ActionModel { name, command, wait_after_ms: a.wait_after_ms }),
        },
    }
}

pub open spec fn finalize_actions(acts: Seq<PActionModel>) -> Result<Seq<ActionModel>, ConfigError>
    decreases acts.len(),
{
    if acts.len() == 0 {
        Ok(Seq::empty())
    } else {
        match finalize_action(acts[0]) {
            Ok(a) => match finalize_actions(acts.drop_first()) {
                Ok(rest) => Ok(seq![a] + rest),
                Err(e) => Err(e),
            },
            Err(e) => Err(e),
        }
    }
}

/// The configuration the finished state denotes, or the first missing
/// field.  The target and action lists must have appeared, either as
/// blocks or as an explicit `[]`.
pub open spec fn finalize_spec(st: PStateModel) -> Result<ConfigModel, ConfigError> {
    if st.default_target is None {
        Err(ConfigError::Missing { field: FieldKey::DefaultTarget })
    } else if st.check_interval_sec is None {
        Err(ConfigError::Missing { field: FieldKey::CheckIntervalSec })
    } else if st.ping_timeout_ms is None {
        Err(ConfigError::Missing { field: FieldKey::PingTimeoutMs })
    } else if st.retry_count is None {
        Err(ConfigError::Missing { field: FieldKey::RetryCount })
    } else if st.notification_enabled is None {
        Err(ConfigError::Missing { field: FieldKey::NotificationEnabled })
    } else if !st.targets_empty && st.targets.len() == 0 {
        Err(ConfigError::Missing { field: FieldKey::Targets })
    } else if !st.actions_empty && st.actions.len() == 0 {
        Err(ConfigError::Missing { field: FieldKey::RecoveryActions })
    } else {
        match finalize_targets(st.targets) {
            Err(e) => Err(e),
            Ok(ts) => match finalize_actions(st.actions) {
                Err(e) => Err(e),
                Ok(acts) => Ok(
                    ConfigModel {
                        default_target: st.default_target->0,
                        check_interval_sec: st.check_interval_sec->0,
                        ping_timeout_ms: st.ping_timeout_ms->0,
                        retry_count: st.retry_count->0,
                        targets: ts,
                        recovery_actions: acts,
                        log_file: st.log_file,
                        notification_enabled: st.notification_enabled->0,
                        notification_command: st.notification_command,
                    },
                ),
            },
        }
    }
}

/// The configuration a text denotes.
pub open spec fn parse_config_spec(text: Seq<char>) -> Result<ConfigModel, ConfigError> {
    match parse_doc(init_pstate(), split_lines(text), 1) {
        Ok(st) => finalize_spec(st),
        Err(e) => Err(e),
    }
}

// ---------------------------------------------------------------------------
// rendering
// ---------------------------------------------------------------------------

/// `key = "value"`, with the value escaped.
pub open spec fn kv_str(key: Seq<char>, v: Seq<char>) -> Seq<char> {
    key + seq![' ', '=', ' ', '"'] + escape(v) + seq!['"']
}

/// `key = number`.
pub open spec fn kv_int(key: Seq<char>, n: u64) -> Seq<char> {
    key + seq![' ', '=', ' '] + u64_digits(n)
}

/// `key = true` or `key = false`.
pub open spec fn kv_bool(key: Seq<char>, b: bool) -> Seq<char> {
    key + seq![' ', '=', ' '] + (if b {
        "true"@
    } else {
        "false"@
    })
}

/// `key = []`.
pub open spec fn kv_empty_array(key: Seq<char>) -> Seq<char> {
    key + seq![' ', '=', ' ', '[', ']']
}

pub open spec fn opt_line_str(key: Seq<char>, o: Option<Seq<char>>) -> Seq<Seq<char>> {
    match o {
        Some(v) => seq![kv_str(key, v)],
        None => Seq::empty(),
    }
}

pub open spec fn opt_line_int(key: Seq<char>, o: Option<u64>) -> Seq<Seq<char>> {
    match o {
        Some(n) => seq![kv_int(key, n)],
        None => Seq::empty(),
    }
}

/// The top section: the five required fields, the optional ones that are
/// set, and an explicit `[]` for each list that has no blocks.
pub open spec fn render_top(c: ConfigModel) -> Seq<Seq<char>> {
    seq![
        kv_str("default_target"@, c.default_target),
        kv_int("check_interval_sec"@, c.check_interval_sec),
        kv_int("ping_timeout_ms"@, c.ping_timeout_ms),
        kv_int("retry_count"@, c.retry_count as u64),
        kv_bool("notification_enabled"@, c.notification_enabled),
    ] + opt_line_str("log_file"@, c.log_file) + opt_line_str(
        "notification_command"@,
        c.notification_command,
    ) + (if c.targets.len() == 0 {
        seq![kv_empty_array("targets"@)]
    } else {
        Seq::empty()
    }) + (if c.recovery_actions.len() == 0 {
        seq![kv_empty_array("recovery_actions"@)]
    } else {
        Seq::empty()
    })
}

/// One target block: a blank line, the header, and the set fields.
pub open spec fn render_target(t: TargetModel) -> Seq<Seq<char>> {
    seq![
        Seq::<char>::empty(),
        "[[targets]]"@,
        kv_str("name"@, t.name),
        kv_str("address"@, t.address),
    ] + opt_line_int(
        "port"@,
        match t.port {
            Some(p) => Some(p as u64),
            None => None,
        },
    ) + opt_line_int("timeout_ms"@, t.timeout_ms) + opt_line_int(
        "retry_count"@,
        match t.retry_count {
            Some(r) => Some(r as u64),
            None => None,
        },
    )
}

pub open spec fn render_targets(ts: Seq<TargetModel>) -> Seq<Seq<char>>
    decreases ts.len(),
{
    if ts.len() == 0 {
        Seq::empty()
    } else {
        render_target(ts[0]) + render_targets(ts.drop_first())
    }
}

/// One action block: a blank line, the header, and the set fields.
pub open spec fn render_action(a: ActionModel) -> Seq<Seq<char>> {
    seq![
        Seq::<char>::empty(),
        "[[recovery_actions]]"@,
        kv_str("name"@, a.name),
        kv_str("command"@, a.command),
    ] + opt_line_int("wait_after_ms"@, a.wait_after_ms)
}

pub open spec fn render_actions(acts: Seq<ActionModel>) -> Seq<Seq<char>>
    decreases acts.len(),
{
    if acts.len() == 0 {
        Seq::empty()
    } else {
        render_action(acts[0]) + render_actions(acts.drop_first())
    }
}

/// Every line of the written form of `c`, in order.
pub open spec fn render_lines_spec(c: ConfigModel) -> Seq<Seq<char>> {
    render_top(c) + render_targets(c.targets) + render_actions(c.recovery_actions)
}

/// The written form of `c`.
pub open spec fn render_config_spec(c: ConfigModel) -> Seq<char> {
    join_lines(render_lines_spec(c))
}

// ---------------------------------------------------------------------------
// executable rendering
// ---------------------------------------------------------------------------

fn push_str_chars(line: &mut Vec<char>, s: &str)
    ensures
        final(line)@ == old(line)@ + s@,
{
    let n = s.unicode_len();
    let mut i: usize = 0;
    while i < n
        invariant
            i <= n,
            n == s@.len(),
            line@ =~= old(line)@ + s@.take(i as int),
        decreases n - i,
    {
        line.push(s.get_char(i));
        i += 1;
        proof {
            assert(line@ =~= old(line)@ + s@.take(i as int));
        }
    }
    proof {
        assert(line@ =~= old(line)@ + s@);
    }
}

fn push_kv_str(lines: &mut Vec<Vec<char>>, key: &str, v: &String)
    ensures
        final(lines)@.len() == old(lines)@.len() + 1,
        lines_view(final(lines)@) == lines_view(old(lines)@).push(kv_str(key@, v@)),
{
    let mut line = vec_from_str(key);
    line.push(' ');
    line.push('=');
    line.push(' ');
    line.push('"');
    let vc = vec_from_str(v.as_str());
    push_escaped(&mut line, &vc);
    line.push('"');
    proof {
        assert(line@ =~= kv_str(key@, v@));
    }
    lines.push(line);
    proof {
        assert(lines_view(lines@) =~= lines_view(old(lines)@).push(kv_str(key@, v@)));
    }
}

fn push_kv_int(lines: &mut Vec<Vec<char>>, key: &str, n: u64)
    ensures
        final(lines)@.len() == old(lines)@.len() + 1,
        lines_view(final(lines)@) == lines_view(old(lines)@).push(kv_int(key@, n)),
{
    let mut line = vec_from_str(key);
    line.push(' ');
    line.push('=');
    line.push(' ');
    push_u64_digits(&mut line, n);
    proof {
        assert(line@ =~= kv_int(key@, n));
    }
    lines.push(line);
    proof {
        assert(lines_view(lines@) =~= lines_view(old(lines)@).push(kv_int(key@, n)));
    }
}

fn push_kv_bool(lines: &mut Vec<Vec<char>>, key: &str, b: bool)
    ensures
        final(lines)@.len() == old(lines)@.len() + 1,
        lines_view(final(lines)@) == lines_view(old(lines)@).push(kv_bool(key@, b)),
{
    let mut line = vec_from_str(key);
    line.push(' ');
    line.push('=');
    line.push(' ');
    if b {
        push_str_chars(&mut line, "true");
    } else {
        push_str_chars(&mut line, "false");
    }
    proof {
        assert(line@ =~= kv_bool(key@, b));
    }
    lines.push(line);
    proof {
        assert(lines_view(lines@) =~= lines_view(old(lines)@).push(kv_bool(key@, b)));
    }
}

fn push_kv_empty_array(lines: &mut Vec<Vec<char>>, key: &str)
    ensures
        final(lines)@.len() == old(lines)@.len() + 1,
        lines_view(final(lines)@) == lines_view(old(lines)@).push(kv_empty_array(key@)),
{
    let mut line = vec_from_str(key);
    line.push(' ');
    line.push('=');
    line.push(' ');
    line.push('[');
    line.push(']');
    proof {
        assert(line@ =~= kv_empty_array(key@));
    }
    lines.push(line);
    proof {
        assert(lines_view(lines@) =~= lines_view(old(lines)@).push(kv_empty_array(key@)));
    }
}

fn push_header(lines: &mut Vec<Vec<char>>, header: &str)
    ensures
        final(lines)@.len() == old(lines)@.len() + 2,
        lines_view(final(lines)@) == lines_view(old(lines)@).push(Seq::<char>::empty()).push(
            header@,
        ),
{
    let blank: Vec<char> = Vec::new();
    lines.push(blank);
    let h = vec_from_str(header);
    lines.push(h);
    proof {
        assert(lines_view(lines@) =~= lines_view(old(lines)@).push(Seq::<char>::empty()).push(
            header@,
        ));
    }
}

proof fn lemma_render_targets_snoc(ts: Seq<TargetModel>, i: int)
    requires
        0 <= i < ts.len(),
    ensures
        render_targets(ts.take(i + 1)) == render_targets(ts.take(i)) + render_target(ts[i]),
    decreases i,
{
    if i == 0 {
        let t1 = ts.take(1);
        assert(t1[0] == ts[0]);
        assert(t1.drop_first() =~= Seq::<TargetModel>::empty());
        assert(render_targets(ts.take(0)) =~= Seq::<Seq<char>>::empty());
        assert(render_targets(t1) =~= render_target(ts[0]) + render_targets(
            Seq::<TargetModel>::empty(),
        ));
        assert(render_targets(t1) =~= render_targets(ts.take(0)) + render_target(ts[0]));
    } else {
        let a = ts.take(i + 1);
        let b = ts.take(i);
        assert(a[0] == ts[0] && b[0] == ts[0]);
        assert(a.drop_first() =~= ts.drop_first().take(i));
        assert(b.drop_first() =~= ts.drop_first().take(i - 1));
        lemma_render_targets_snoc(ts.drop_first(), i - 1);
        assert(ts.drop_first()[i - 1] == ts[i]);
        assert(render_targets(a) == render_target(ts[0]) + render_targets(
            ts.drop_first().take(i),
        ));
        assert(render_targets(b) == render_target(ts[0]) + render_targets(
            ts.drop_first().take(i - 1),
        ));
        assert(render_target(ts[0]) + (render_targets(ts.drop_first().take(i - 1))
            + render_target(ts[i])) =~= (render_target(ts[0]) + render_targets(
            ts.drop_first().take(i - 1),
        )) + render_target(ts[i]));
    }
}

proof fn lemma_render_actions_snoc(acts: Seq<ActionModel>, i: int)
    requires
        0 <= i < acts.len(),
    ensures
        render_actions(acts.take(i + 1)) == render_actions(acts.take(i)) + render_action(acts[i]),
    decreases i,
{
    if i == 0 {
        let a1 = acts.take(1);
        assert(a1[0] == acts[0]);
        assert(a1.drop_first() =~= Seq::<ActionModel>::empty());
        assert(render_actions(acts.take(0)) =~= Seq::<Seq<char>>::empty());
        assert(render_actions(a1) =~= render_action(acts[0]) + render_actions(
            Seq::<ActionModel>::empty(),
        ));
        assert(render_actions(a1) =~= render_actions(acts.take(0)) + render_action(acts[0]));
    } else {
        let a = acts.take(i + 1);
        let b = acts.take(i);
        assert(a[0] == acts[0] && b[0] == acts[0]);
        assert(a.drop_first() =~= acts.drop_first().take(i));
        assert(b.drop_first() =~= acts.drop_first().take(i - 1));
        lemma_render_actions_snoc(acts.drop_first(), i - 1);
        assert(acts.drop_first()[i - 1] == acts[i]);
        assert(render_actions(a) == render_action(acts[0]) + render_actions(
            acts.drop_first().take(i),
        ));
        assert(render_actions(b) == render_action(acts[0]) + render_actions(
            acts.drop_first().take(i - 1),
        ));
        assert(render_action(acts[0]) + (render_actions(acts.drop_first().take(i - 1))
            + render_action(acts[i])) =~= (render_action(acts[0]) + render_actions(
            acts.drop_first().take(i - 1),
        )) + render_action(acts[i]));
    }
}

#[verifier::rlimit(60)]
fn push_target_block(lines: &mut Vec<Vec<char>>, t: &NetworkTarget)
    ensures
        lines_view(final(lines)@) == lines_view(old(lines)@) + render_target(t@),
{
    push_header(lines, "[[targets]]");
    push_kv_str(lines, "name", &t.name);
    push_kv_str(lines, "address", &t.address);
    match t.port {
        Some(p) => push_kv_int(lines, "port", p as u64),
        None => {},
    }
    match t.timeout_ms {
        Some(v) => push_kv_int(lines, "timeout_ms", v),
        None => {},
    }
    match t.retry_count {
        Some(v) => push_kv_int(lines, "retry_count", v as u64),
        None => {},
    }
    proof {
        assert(lines_view(lines@) =~= lines_view(old(lines)@) + render_target(t@));
    }
}

#[verifier::rlimit(60)]
fn push_action_block(lines: &mut Vec<Vec<char>>, a: &RecoveryAction)
    ensures
        lines_view(final(lines)@) == lines_view(old(lines)@) + render_action(a@),
{
    push_header(lines, "[[recovery_actions]]");
    push_kv_str(lines, "name", &a.name);
    push_kv_str(lines, "command", &a.command);
    match a.wait_after_ms {
        Some(v) => push_kv_int(lines, "wait_after_ms", v),
        None => {},
    }
    proof {
        assert(lines_view(lines@) =~= lines_view(old(lines)@) + render_action(a@));
    }
}

// ---------------------------------------------------------------------------
// executable reading
// ---------------------------------------------------------------------------

/// A parsed right-hand side, executable form.
enum PValue {
    VStr(Vec<char>),
    VInt(u64),
    VBool(bool),
    VEmptyArray,
}

impl View for PValue {
    type V = ValueModel;

    closed spec fn view(&self) -> ValueModel {
        match self {
            PValue::VStr(s) => ValueModel::VStr(s@),
            PValue::VInt(n) => ValueModel::VInt(*n),
            PValue::VBool(b) => ValueModel::VBool(*b),
            PValue::VEmptyArray => ValueModel::VEmptyArray,
        }
    }
}

/// What a line means, executable form.
enum LineKind {
    Blank,
    TargetHeader,
    ActionHeader,
    KeyValue { key: Vec<char>, value: PValue },
    BadSyntax,
    BadValue,
    UnknownSection,
}

impl View for LineKind {
    type V = LineModel;

    closed spec fn view(&self) -> LineModel {
        match self {
            LineKind::Blank => LineModel::Blank,
            LineKind::TargetHeader => LineModel::TargetHeader,
            LineKind::ActionHeader => LineModel::ActionHeader,
            LineKind::KeyValue { key, value } => LineModel::KeyValue {
                key: key@,
                value: value@,
            },
            LineKind::BadSyntax => LineModel::BadSyntax,
            LineKind::BadValue => LineModel::BadValue,
            LineKind::UnknownSection => LineModel::UnknownSection,
        }
    }
}

fn parse_value_vec(v: Vec<char>) -> (r: Option<PValue>)
    ensures
        match r {
            Some(pv) => parse_value_spec(v@) == Some(pv@),
            None => parse_value_spec(v@) is None,
        },
{
    let n = v.len();
    if n == 0 {
        return None;
    }
    if v[0] == '"' {
        if n >= 2 && v[n - 1] == '"' {
            let inner = copy_range(&v, 1, n - 1);
            match unescape_vec(&inner) {
                Some(s) => Some(PValue::VStr(s)),
                None => None,
            }
        } else {
            None
        }
    } else if vec_eq_str(&v, "true") {
        Some(PValue::VBool(true))
    } else if vec_eq_str(&v, "false") {
        Some(PValue::VBool(false))
    } else if vec_eq_str(&v, "[]") {
        Some(PValue::VEmptyArray)
    } else {
        match parse_u64_vec(&v) {
            Some(num) => Some(PValue::VInt(num)),
            None => None,
        }
    }
}

#[verifier::rlimit(30)]
fn classify_line_vec(l: &Vec<char>) -> (r: LineKind)
    ensures
        r@ == classify_line(l@),
{
    let t = trim_vec(l);
    let n = t.len();
    if n == 0 {
        return LineKind::Blank;
    }
    if t[0] == '#' {
        return LineKind::Blank;
    }
    if vec_eq_str(&t, "[[targets]]") {
        return LineKind::TargetHeader;
    }
    if vec_eq_str(&t, "[[recovery_actions]]") {
        return LineKind::ActionHeader;
    }
    if t[0] == '[' {
        return LineKind::UnknownSection;
    }
    match vec_find_char(&t, '=') {
        None => LineKind::BadSyntax,
        Some(e) => {
            let before = copy_range(&t, 0, e);
            let key = trim_vec(&before);
            proof {
                crate::text::lemma_trim_props(l@);
                assert(t@.subrange(0, e as int) =~= t@.take(e as int));
                if before@.len() > 0 {
                    assert(before@[0] == t@[0]);
                    assert(!crate::text::is_ws(before@[0]));
                }
                assert(trim_start(before@) == before@);
                assert(key@ == trim_end(t@.take(e as int)));
            }
            let after = copy_range(&t, e + 1, n);
            let vt = trim_vec(&after);
            proof {
                assert(t@.subrange(e + 1, n as int) =~= t@.skip(e + 1));
                let ts = trim_start(after@);
                crate::text::lemma_trim_start_is_suffix(after@);
                if ts.len() > 0 {
                    assert(after@.last() == t@.last());
                    assert(!crate::text::is_ws(ts.last()));
                }
                assert(trim_end(ts) == ts);
                assert(vt@ == trim_start(t@.skip(e + 1)));
            }
            match parse_value_vec(vt) {
                Some(value) => LineKind::KeyValue { key, value },
                None => LineKind::BadValue,
            }
        },
    }
}

/// A target block while its fields are being read, executable form.
struct PTarget {
    name: Option<String>,
    address: Option<String>,
    port: Option<u16>,
    timeout_ms: Option<u64>,
    retry_count: Option<u8>,
}

impl View for PTarget {
    type V = PTargetModel;

    closed spec fn view(&self) -> PTargetModel {
        PTargetModel {
            name: crate::config::view_opt_string(self.name),
            address: crate::config::view_opt_string(self.address),
            port: self.port,
            timeout_ms: self.timeout_ms,
            retry_count: self.retry_count,
        }
    }
}

/// An action block while its fields are being read, executable form.
struct PAction {
    name: Option<String>,
    command: Option<String>,
    wait_after_ms: Option<u64>,
}

impl View for PAction {
    type V = PActionModel;

    closed spec fn view(&self) -> PActionModel {
        PActionModel {
            name: crate::config::view_opt_string(self.name),
            command: crate::config::view_opt_string(self.command),
            wait_after_ms: self.wait_after_ms,
        }
    }
}

/// The reader's accumulated state, executable form.
struct PState {
    section: Section,
    default_target: Option<String>,
    check_interval_sec: Option<u64>,
    ping_timeout_ms: Option<u64>,
    retry_count: Option<u8>,
    notification_enabled: Option<bool>,
    log_file: Option<String>,
    notification_command: Option<String>,
    targets_empty: bool,
    actions_empty: bool,
    targets: Vec<PTarget>,
    actions: Vec<PAction>,
}

impl View for PState {
    type V = PStateModel;

    closed spec fn view(&self) -> PStateModel {
        PStateModel {
            section: self.section,
            default_target: crate::config::view_opt_string(self.default_target),
            check_interval_sec: self.check_interval_sec,
            ping_timeout_ms: self.ping_timeout_ms,
            retry_count: self.retry_count,
            notification_enabled: self.notification_enabled,
            log_file: crate::config::view_opt_string(self.log_file),
            notification_command: crate::config::view_opt_string(self.notification_command),
            targets_empty: self.targets_empty,
            actions_empty: self.actions_empty,
            targets: Seq::new(self.targets@.len(), |i: int| self.targets@[i]@),
            actions: Seq::new(self.actions@.len(), |i: int| self.actions@[i]@),
        }
    }
}

impl PState {
    fn init() -> (st: Self)
        ensures
            st@ == init_pstate(),
    {
        let st = PState {
            section: Section::Top,
            default_target: None,
            check_interval_sec: None,
            ping_timeout_ms: None,
            retry_count: None,
            notification_enabled: None,
            log_file: None,
            notification_command: None,
            targets_empty: false,
            actions_empty: false,
            targets: Vec::new(),
            actions: Vec::new(),
        };
        proof {
            assert(st@.targets =~= init_pstate().targets);
            assert(st@.actions =~= init_pstate().actions);
        }
        st
    }
}

#[verifier::rlimit(60)]
fn apply_top_exec(st: &mut PState, key: &Vec<char>, value: PValue, lineno: usize) -> (r: Option<
    ConfigError,
>)
    ensures
        match r {
            None => apply_top_key(old(st)@, key@, value@, lineno as int) == Ok::<PStateModel, ConfigError>(final(st)@),
            Some(e) => apply_top_key(old(st)@, key@, value@, lineno as int) == Err::<
                PStateModel,
                ConfigError,
            >(e),
        },
{
    if vec_eq_str(key, "default_target") {
        match value {
            PValue::VStr(s) => if st.default_target.is_some() {
                Some(ConfigError::DuplicateKey { line: lineno })
            } else {
                st.default_target = Some(chars_to_string(&s));
                None
            },
            _ => Some(ConfigError::BadValue { line: lineno }),
        }
    } else if vec_eq_str(key, "check_interval_sec") {
        match value {
            PValue::VInt(n) => if st.check_interval_sec.is_some() {
                Some(ConfigError::DuplicateKey { line: lineno })
            } else {
                st.check_interval_sec = Some(n);
                None
            },
            _ => Some(ConfigError::BadValue { line: lineno }),
        }
    } else if vec_eq_str(key, "ping_timeout_ms") {
        match value {
            PValue::VInt(n) => if st.ping_timeout_ms.is_some() {
                Some(ConfigError::DuplicateKey { line: lineno })
            } else {
                st.ping_timeout_ms = Some(n);
                None
            },
            _ => Some(ConfigError::BadValue { line: lineno }),
        }
    } else if vec_eq_str(key, "retry_count") {
        match value {
            PValue::VInt(n) => if n > 255 {
                Some(ConfigError::OutOfRange { line: lineno })
            } else if st.retry_count.is_some() {
                Some(ConfigError::DuplicateKey { line: lineno })
            } else {
                st.retry_count = Some(n as u8);
                None
            },
            _ => Some(ConfigError::BadValue { line: lineno }),
        }
    } else if vec_eq_str(key, "notification_enabled") {
        match value {
            PValue::VBool(b) => if st.notification_enabled.is_some() {
                Some(ConfigError::DuplicateKey { line: lineno })
            } else {
                st.notification_enabled = Some(b);
                None
            },
            _ => Some(ConfigError::BadValue { line: lineno }),
        }
    } else if vec_eq_str(key, "log_file") {
        match value {
            PValue::VStr(s) => if st.log_file.is_some() {
                Some(ConfigError::DuplicateKey { line: lineno })
            } else {
                st.log_file = Some(chars_to_string(&s));
                None
            },
            _ => Some(ConfigError::BadValue { line: lineno }),
        }
    } else if vec_eq_str(key, "notification_command") {
        match value {
            PValue::VStr(s) => if st.notification_command.is_some() {
                Some(ConfigError::DuplicateKey { line: lineno })
            } else {
                st.notification_command = Some(chars_to_string(&s));
                None
            },
            _ => Some(ConfigError::BadValue { line: lineno }),
        }
    } else if vec_eq_str(key, "targets") {
        match value {
            PValue::VEmptyArray => if st.targets_empty || st.targets.len() > 0 {
                Some(ConfigError::DuplicateKey { line: lineno })
            } else {
                st.targets_empty = true;
                None
            },
            _ => Some(ConfigError::BadValue { line: lineno }),
        }
    } else if vec_eq_str(key, "recovery_actions") {
        match value {
            PValue::VEmptyArray => if st.actions_empty || st.actions.len() > 0 {
                Some(ConfigError::DuplicateKey { line: lineno })
            } else {
                st.actions_empty = true;
                None
            },
            _ => Some(ConfigError::BadValue { line: lineno }),
        }
    } else {
        None
    }
}

#[verifier::rlimit(60)]
fn apply_target_exec(st: &mut PState, key: &Vec<char>, value: PValue, lineno: usize) -> (r:
    Option<ConfigError>)
    ensures
        match r {
            None => apply_target_key(old(st)@, key@, value@, lineno as int) == Ok::<PStateModel, ConfigError>(final(st)@),
            Some(e) => apply_target_key(old(st)@, key@, value@, lineno as int) == Err::<
                PStateModel,
                ConfigError,
            >(e),
        },
{
    let len = st.targets.len();
    if len == 0 {
        return None;
    }
    let mut t = match st.targets.pop() {
        Some(x) => x,
        None => {
            return None;  // unreachable: the length was checked
        },
    };
    let mut err: Option<ConfigError> = None;
    if vec_eq_str(key, "name") {
        match value {
            PValue::VStr(s) => if t.name.is_some() {
                err = Some(ConfigError::DuplicateKey { line: lineno });
            } else {
                t.name = Some(chars_to_string(&s));
            },
            _ => {
                err = Some(ConfigError::BadValue { line: lineno });
            },
        }
    } else if vec_eq_str(key, "address") {
        match value {
            PValue::VStr(s) => if t.address.is_some() {
                err = Some(ConfigError::DuplicateKey { line: lineno });
            } else {
                t.address = Some(chars_to_string(&s));
            },
            _ => {
                err = Some(ConfigError::BadValue { line: lineno });
            },
        }
    } else if vec_eq_str(key, "port") {
        match value {
            PValue::VInt(n) => if n > 65535 {
                err = Some(ConfigError::OutOfRange { line: lineno });
            } else if t.port.is_some() {
                err = Some(ConfigError::DuplicateKey { line: lineno });
            } else {
                t.port = Some(n as u16);
            },
            _ => {
                err = Some(ConfigError::BadValue { line: lineno });
            },
        }
    } else if vec_eq_str(key, "timeout_ms") {
        match value {
            PValue::VInt(n) => if t.timeout_ms.is_some() {
                err = Some(ConfigError::DuplicateKey { line: lineno });
            } else {
                t.timeout_ms = Some(n);
            },
            _ => {
                err = Some(ConfigError::BadValue { line: lineno });
            },
        }
    } else if vec_eq_str(key, "retry_count") {
        match value {
            PValue::VInt(n) => if n > 255 {
                err = Some(ConfigError::OutOfRange { line: lineno });
            } else if t.retry_count.is_some() {
                err = Some(ConfigError::DuplicateKey { line: lineno });
            } else {
                t.retry_count = Some(n as u8);
            },
            _ => {
                err = Some(ConfigError::BadValue { line: lineno });
            },
        }
    }
    st.targets.push(t);
    proof {
        if err is None {
            assert(st@.targets =~= apply_target_key(
                old(st)@,
                key@,
                value@,
                lineno as int,
            )->Ok_0.targets);
        } else {
            assert(st@.targets =~= old(st)@.targets);
        }
    }
    err
}

#[verifier::rlimit(60)]
fn apply_action_exec(st: &mut PState, key: &Vec<char>, value: PValue, lineno: usize) -> (r:
    Option<ConfigError>)
    ensures
        match r {
            None => apply_action_key(old(st)@, key@, value@, lineno as int) == Ok::<PStateModel, ConfigError>(final(st)@),
            Some(e) => apply_action_key(old(st)@, key@, value@, lineno as int) == Err::<
                PStateModel,
                ConfigError,
            >(e),
        },
{
    let len = st.actions.len();
    if len == 0 {
        return None;
    }
    let mut a = match st.actions.pop() {
        Some(x) => x,
        None => {
            return None;  // unreachable: the length was checked
        },
    };
    let mut err: Option<ConfigError> = None;
    if vec_eq_str(key, "name") {
        match value {
            PValue::VStr(s) => if a.name.is_some() {
                err = Some(ConfigError::DuplicateKey { line: lineno });
            } else {
                a.name = Some(chars_to_string(&s));
            },
            _ => {
                err = Some(ConfigError::BadValue { line: lineno });
            },
        }
    } else if vec_eq_str(key, "command") {
        match value {
            PValue::VStr(s) => if a.command.is_some() {
                err = Some(ConfigError::DuplicateKey { line: lineno });
            } else {
                a.command = Some(chars_to_string(&s));
            },
            _ => {
                err = Some(ConfigError::BadValue { line: lineno });
            },
        }
    } else if vec_eq_str(key, "wait_after_ms") {
        match value {
            PValue::VInt(n) => if a.wait_after_ms.is_some() {
                err = Some(ConfigError::DuplicateKey { line: lineno });
            } else {
                a.wait_after_ms = Some(n);
            },
            _ => {
                err = Some(ConfigError::BadValue { line: lineno });
            },
        }
    }
    st.actions.push(a);
    proof {
        if err is None {
            assert(st@.actions =~= apply_action_key(
                old(st)@,
                key@,
                value@,
                lineno as int,
            )->Ok_0.actions);
        } else {
            assert(st@.actions =~= old(st)@.actions);
        }
    }
    err
}

fn apply_line_exec(st: &mut PState, line: &Vec<char>, lineno: usize) -> (r: Option<ConfigError>)
    ensures
        match r {
            None => apply_line_spec(old(st)@, line@, lineno as int) == Ok::<PStateModel, ConfigError>(final(st)@),
            Some(e) => apply_line_spec(old(st)@, line@, lineno as int) == Err::<
                PStateModel,
                ConfigError,
            >(e),
        },
{
    let kind = classify_line_vec(line);
    match kind {
        LineKind::Blank => None,
        LineKind::TargetHeader => {
            if st.targets_empty {
                Some(ConfigError::DuplicateKey { line: lineno })
            } else {
                st.section = Section::InTargets;
                st.targets.push(PTarget {
                    name: None,
                    address: None,
                    port: None,
                    timeout_ms: None,
                    retry_count: None,
                });
                proof {
                    assert(st@.targets =~= old(st)@.targets.push(empty_ptarget()));
                }
                None
            }
        },
        LineKind::ActionHeader => {
            if st.actions_empty {
                Some(ConfigError::DuplicateKey { line: lineno })
            } else {
                st.section = Section::InActions;
                st.actions.push(PAction { name: None, command: None, wait_after_ms: None });
                proof {
                    assert(st@.actions =~= old(st)@.actions.push(empty_paction()));
                }
                None
            }
        },
        LineKind::UnknownSection => Some(ConfigError::UnknownSection { line: lineno }),
        LineKind::BadSyntax => Some(ConfigError::BadSyntax { line: lineno }),
        LineKind::BadValue => Some(ConfigError::BadValue { line: lineno }),
        LineKind::KeyValue { key, value } => {
            let section = st.section;
            match section {
                Section::Top => apply_top_exec(st, &key, value, lineno),
                Section::InTargets => apply_target_exec(st, &key, value, lineno),
                Section::InActions => apply_action_exec(st, &key, value, lineno),
            }
        },
    }
}

#[verifier::loop_isolation(false)]
fn finalize_exec(st: PState) -> (r: Result<Config, ConfigError>)
    ensures
        match r {
            Ok(c) => finalize_spec(st@) == Ok::<ConfigModel, ConfigError>(c@),
            Err(e) => finalize_spec(st@) == Err::<ConfigModel, ConfigError>(e),
        },
{
    let default_target = match &st.default_target {
        Some(s) => s.clone(),
        None => {
            return Err(ConfigError::Missing { field: FieldKey::DefaultTarget });
        },
    };
    let check_interval_sec = match st.check_interval_sec {
        Some(n) => n,
        None => {
            return Err(ConfigError::Missing { field: FieldKey::CheckIntervalSec });
        },
    };
    let ping_timeout_ms = match st.ping_timeout_ms {
        Some(n) => n,
        None => {
            return Err(ConfigError::Missing { field: FieldKey::PingTimeoutMs });
        },
    };
    let retry_count = match st.retry_count {
        Some(n) => n,
        None => {
            return Err(ConfigError::Missing { field: FieldKey::RetryCount });
        },
    };
    let notification_enabled = match st.notification_enabled {
        Some(b) => b,
        None => {
            return Err(ConfigError::Missing { field: FieldKey::NotificationEnabled });
        },
    };
    if !st.targets_empty && st.targets.len() == 0 {
        return Err(ConfigError::Missing { field: FieldKey::Targets });
    }
    if !st.actions_empty && st.actions.len() == 0 {
        return Err(ConfigError::Missing { field: FieldKey::RecoveryActions });
    }
    let mut targets: Vec<NetworkTarget> = Vec::new();
    let n = st.targets.len();
    let mut i: usize = 0;
    proof {
        assert(st@.targets.skip(0) =~= st@.targets);
    }
    while i < n
        invariant
            i <= n,
            n == st.targets@.len(),
            st@.targets.len() == n,
            targets@.len() == i,
            forall|k: int|
                0 <= k < i ==> #[trigger] finalize_target(st@.targets[k]) == Ok::<
                    TargetModel,
                    ConfigError,
                >(targets@[k]@),
        decreases n - i,
    {
        let t = &st.targets[i];
        let name = match &t.name {
            Some(s) => s.clone(),
            None => {
                proof {
                    lemma_finalize_targets_err(st@.targets, i as int);
                }
                return Err(ConfigError::Missing { field: FieldKey::TargetName });
            },
        };
        let address = match &t.address {
            Some(s) => s.clone(),
            None => {
                proof {
                    lemma_finalize_targets_err(st@.targets, i as int);
                }
                return Err(ConfigError::Missing { field: FieldKey::TargetAddress });
            },
        };
        targets.push(NetworkTarget {
            name,
            address,
            port: t.port,
            timeout_ms: t.timeout_ms,
            retry_count: t.retry_count,
        });
        proof {
            assert(finalize_target(st@.targets[i as int]) == Ok::<TargetModel, ConfigError>(
                targets@[i as int]@,
            ));
        }
        i += 1;
    }
    proof {
        let ghost tout = Seq::new(targets@.len(), |k: int| targets@[k]@);
        lemma_finalize_targets_ok(st@.targets, tout);
    }
    let mut actions: Vec<RecoveryAction> = Vec::new();
    let m = st.actions.len();
    let mut j: usize = 0;
    while j < m
        invariant
            j <= m,
            m == st.actions@.len(),
            st@.actions.len() == m,
            actions@.len() == j,
            forall|k: int|
                0 <= k < j ==> #[trigger] finalize_action(st@.actions[k]) == Ok::<
                    ActionModel,
                    ConfigError,
                >(actions@[k]@),
        decreases m - j,
    {
        let a = &st.actions[j];
        let name = match &a.name {
            Some(s) => s.clone(),
            None => {
                proof {
                    lemma_finalize_actions_err(st@.actions, j as int);
                }
                return Err(ConfigError::Missing { field: FieldKey::ActionName });
            },
        };
        let command = match &a.command {
            Some(s) => s.clone(),
            None => {
                proof {
                    lemma_finalize_actions_err(st@.actions, j as int);
                }
                return Err(ConfigError::Missing { field: FieldKey::ActionCommand });
            },
        };
        actions.push(RecoveryAction { name, command, wait_after_ms: a.wait_after_ms });
        proof {
            assert(finalize_action(st@.actions[j as int]) == Ok::<ActionModel, ConfigError>(
                actions@[j as int]@,
            ));
        }
        j += 1;
    }
    let log_file = match &st.log_file {
        Some(s) => Some(s.clone()),
        None => None,
    };
    let notification_command = match &st.notification_command {
        Some(s) => Some(s.clone()),
        None => None,
    };
    let config = Config {
        default_target,
        check_interval_sec,
        ping_timeout_ms,
        retry_count,
        targets,
        recovery_actions: actions,
        log_file,
        notification_enabled,
        notification_command,
    };
    proof {
        lemma_finalize_targets_ok(st@.targets, config@.targets);
        lemma_finalize_actions_ok(st@.actions, config@.recovery_actions);
    }
    Ok(config)
}

proof fn lemma_finalize_targets_err(ts: Seq<PTargetModel>, i: int)
    requires
        0 <= i < ts.len(),
        finalize_target(ts[i]) is Err,
        forall|k: int| 0 <= k < i ==> finalize_target(#[trigger] ts[k]) is Ok,
    ensures
        finalize_targets(ts) == Err::<Seq<TargetModel>, ConfigError>(finalize_target(ts[i])->Err_0),
    decreases i,
{
    if i == 0 {
    } else {
        let rest = ts.drop_first();
        assert(forall|k: int| 0 <= k < i - 1 ==> rest[k] == ts[k + 1]);
        lemma_finalize_targets_err(rest, i - 1);
    }
}

pub proof fn lemma_finalize_targets_ok(ts: Seq<PTargetModel>, out: Seq<TargetModel>)
    requires
        out.len() == ts.len(),
        forall|k: int|
            0 <= k < ts.len() ==> finalize_target(#[trigger] ts[k]) == Ok::<
                TargetModel,
                ConfigError,
            >(out[k]),
    ensures
        finalize_targets(ts) == Ok::<Seq<TargetModel>, ConfigError>(out),
    decreases ts.len(),
{
    if ts.len() == 0 {
        assert(out =~= Seq::<TargetModel>::empty());
    } else {
        let rest = ts.drop_first();
        let out_rest = out.drop_first();
        assert(forall|k: int| 0 <= k < rest.len() ==> rest[k] == ts[k + 1]);
        assert(forall|k: int|
            0 <= k < rest.len() ==> finalize_target(#[trigger] rest[k]) == Ok::<
                TargetModel,
                ConfigError,
            >(out_rest[k]));
        lemma_finalize_targets_ok(rest, out_rest);
        assert(seq![out[0]] + out_rest =~= out);
    }
}

proof fn lemma_finalize_actions_err(acts: Seq<PActionModel>, i: int)
    requires
        0 <= i < acts.len(),
        finalize_action(acts[i]) is Err,
        forall|k: int| 0 <= k < i ==> finalize_action(#[trigger] acts[k]) is Ok,
    ensures
        finalize_actions(acts) == Err::<Seq<ActionModel>, ConfigError>(
            finalize_action(acts[i])->Err_0,
        ),
    decreases i,
{
    if i == 0 {
    } else {
        let rest = acts.drop_first();
        assert(forall|k: int| 0 <= k < i - 1 ==> rest[k] == acts[k + 1]);
        lemma_finalize_actions_err(rest, i - 1);
    }
}

pub proof fn lemma_finalize_actions_ok(acts: Seq<PActionModel>, out: Seq<ActionModel>)
    requires
        out.len() == acts.len(),
        forall|k: int|
            0 <= k < acts.len() ==> finalize_action(#[trigger] acts[k]) == Ok::<
                ActionModel,
                ConfigError,
            >(out[k]),
    ensures
        finalize_actions(acts) == Ok::<Seq<ActionModel>, ConfigError>(out),
    decreases acts.len(),
{
    if acts.len() == 0 {
        assert(out =~= Seq::<ActionModel>::empty());
    } else {
        let rest = acts.drop_first();
        let out_rest = out.drop_first();
        assert(forall|k: int| 0 <= k < rest.len() ==> rest[k] == acts[k + 1]);
        assert(forall|k: int|
            0 <= k < rest.len() ==> finalize_action(#[trigger] rest[k]) == Ok::<
                ActionModel,
                ConfigError,
            >(out_rest[k]));
        lemma_finalize_actions_ok(rest, out_rest);
        assert(seq![out[0]] + out_rest =~= out);
    }
}

/// Reads a configuration back from its written form, reporting the first
/// offending line or missing field.
pub fn load_config(text: &str) -> (r: Result<Config, ConfigError>)
    ensures
        match r {
            Ok(c) => parse_config_spec(text@) == Ok::<ConfigModel, ConfigError>(c@),
            Err(e) => parse_config_spec(text@) == Err::<ConfigModel, ConfigError>(e),
        },
{
    let chars = vec_from_str(text);
    let lines = split_lines_vec(&chars);
    let mut st = PState::init();
    let n = lines.len();
    let mut i: usize = 0;
    proof {
        assert(lines_view(lines@).skip(0) =~= lines_view(lines@));
    }
    while i < n
        invariant
            i <= n,
            n == lines@.len(),
            parse_doc(init_pstate(), split_lines(text@), 1) == parse_doc(
                st@,
                lines_view(lines@).skip(i as int),
                i + 1,
            ),
        decreases n - i,
    {
        let ghost pre = lines_view(lines@).skip(i as int);
        proof {
            assert(pre.len() > 0);
            assert(pre[0] == lines@[i as int]@);
            assert(pre.drop_first() =~= lines_view(lines@).skip(i + 1));
        }
        match apply_line_exec(&mut st, &lines[i], i + 1) {
            None => {},
            Some(e) => {
                return Err(e);
            },
        }
        i += 1;
    }
    proof {
        assert(lines_view(lines@).skip(n as int) =~= Seq::<Seq<char>>::empty());
    }
    finalize_exec(st)
}

/// Writes `config` out in the configuration file format.
pub fn save_config(config: &Config) -> (r: String)
    ensures
        r@ == render_config_spec(config@),
{
    let mut lines: Vec<Vec<char>> = Vec::new();
    push_kv_str(&mut lines, "default_target", &config.default_target);
    push_kv_int(&mut lines, "check_interval_sec", config.check_interval_sec);
    push_kv_int(&mut lines, "ping_timeout_ms", config.ping_timeout_ms);
    push_kv_int(&mut lines, "retry_count", config.retry_count as u64);
    push_kv_bool(&mut lines, "notification_enabled", config.notification_enabled);
    match &config.log_file {
        Some(v) => push_kv_str(&mut lines, "log_file", v),
        None => {},
    }
    match &config.notification_command {
        Some(v) => push_kv_str(&mut lines, "notification_command", v),
        None => {},
    }
    if config.targets.len() == 0 {
        push_kv_empty_array(&mut lines, "targets");
    }
    if config.recovery_actions.len() == 0 {
        push_kv_empty_array(&mut lines, "recovery_actions");
    }
    proof {
        assert(lines_view(lines@) =~= render_top(config@));
    }
    let ghost top = lines_view(lines@);
    let mut i: usize = 0;
    while i < config.targets.len()
        invariant
            i <= config.targets@.len(),
            top == render_top(config@),
            lines_view(lines@) == top + render_targets(config@.targets.take(i as int)),
        decreases config.targets@.len() - i,
    {
        let t = &config.targets[i];
        push_target_block(&mut lines, t);
        proof {
            lemma_render_targets_snoc(config@.targets, i as int);
            assert(lines_view(lines@) =~= top + render_targets(config@.targets.take(i as int))
                + render_target(config@.targets[i as int]));
            assert(top + render_targets(config@.targets.take(i as int)) + render_target(
                config@.targets[i as int],
            ) =~= top + render_targets(config@.targets.take(i + 1)));
        }
        i += 1;
    }
    proof {
        assert(config@.targets.take(config.targets@.len() as int) =~= config@.targets);
    }
    let ghost with_targets = lines_view(lines@);
    let mut j: usize = 0;
    while j < config.recovery_actions.len()
        invariant
            j <= config.recovery_actions@.len(),
            with_targets == render_top(config@) + render_targets(config@.targets),
            lines_view(lines@) == with_targets + render_actions(
                config@.recovery_actions.take(j as int),
            ),
        decreases config.recovery_actions@.len() - j,
    {
        let a = &config.recovery_actions[j];
        push_action_block(&mut lines, a);
        proof {
            lemma_render_actions_snoc(config@.recovery_actions, j as int);
            assert(lines_view(lines@) =~= with_targets + render_actions(
                config@.recovery_actions.take(j as int),
            ) + render_action(config@.recovery_actions[j as int]));
            assert(with_targets + render_actions(config@.recovery_actions.take(j as int))
                + render_action(config@.recovery_actions[j as int]) =~= with_targets
                + render_actions(config@.recovery_actions.take(j + 1)));
        }
        j += 1;
    }
    proof {
        assert(config@.recovery_actions.take(config.recovery_actions@.len() as int)
            =~= config@.recovery_actions);
        assert(lines_view(lines@) =~= render_lines_spec(config@));
    }
    let joined = join_lines_vec(&lines);
    chars_to_string(&joined)
}

} // verus!
