use network_monitor::config::{Config, NetworkTarget, RecoveryAction};
use network_monitor::config_text::{load_config, save_config, ConfigError, FieldKey};

fn sample_config() -> Config {
    Config {
        default_target: String::from("10.0.0.1"),
        check_interval_sec: 30,
        ping_timeout_ms: 750,
        retry_count: 2,
        targets: vec![
            NetworkTarget {
                name: String::from("Gateway"),
                address: String::from("10.0.0.1"),
                port: Some(443),
                timeout_ms: None,
                retry_count: Some(4),
            },
            NetworkTarget {
                name: String::from("DNS"),
                address: String::from("10.0.0.53"),
                port: None,
                timeout_ms: Some(250),
                retry_count: None,
            },
        ],
        recovery_actions: vec![
            RecoveryAction {
                name: String::from("restart adapter"),
                command: String::from("powershell -Command \"Restart-NetAdapter\""),
                wait_after_ms: Some(2000),
            },
            RecoveryAction {
                name: String::from("flush dns"),
                command: String::from("Clear-DnsClientCache"),
                wait_after_ms: None,
            },
        ],
        log_file: None,
        notification_enabled: false,
        notification_command: None,
    }
}

#[test]
fn default_config_values() {
    let c = Config::default();
    assert_eq!(c.default_target, "8.8.8.8");
    assert_eq!(c.check_interval_sec, 60);
    assert_eq!(c.ping_timeout_ms, 1000);
    assert_eq!(c.retry_count, 3);
    assert_eq!(c.targets.len(), 2);
    assert_eq!(c.targets[0].name, "Google DNS");
    assert_eq!(c.targets[0].address, "8.8.8.8");
    assert_eq!(c.targets[0].port, None);
    assert_eq!(c.targets[0].timeout_ms, Some(1000));
    assert_eq!(c.targets[0].retry_count, Some(3));
    assert_eq!(c.targets[1].name, "Local Router");
    assert_eq!(c.targets[1].address, "192.168.1.1");
    assert_eq!(c.targets[1].timeout_ms, Some(500));
    assert_eq!(c.targets[1].retry_count, Some(2));
    assert_eq!(c.recovery_actions.len(), 1);
    assert_eq!(c.recovery_actions[0].wait_after_ms, Some(5000));
    assert_eq!(c.log_file.as_deref(), Some("network_monitor.log"));
    assert!(c.notification_enabled);
    assert!(c.notification_command.is_some());
}

#[test]
fn target_timeout_uses_override_then_global() {
    let c = sample_config();
    assert_eq!(c.get_target_timeout(&c.targets[0]), 750);
    assert_eq!(c.get_target_timeout(&c.targets[1]), 250);
}

#[test]
fn target_retry_uses_override_then_global() {
    let c = sample_config();
    assert_eq!(c.get_target_retry_count(&c.targets[0]), 4);
    assert_eq!(c.get_target_retry_count(&c.targets[1]), 2);
}

#[test]
fn config_roundtrip_default() {
    let c = Config::default();
    let text = save_config(&c);
    let c2 = load_config(&text).expect("default configuration must load");
    assert_eq!(c2, c);
}

#[test]
fn config_roundtrip_sample() {
    let c = sample_config();
    let text = save_config(&c);
    let c2 = load_config(&text).expect("sample configuration must load");
    assert_eq!(c2, c);
}

#[test]
fn config_roundtrip_awkward_strings() {
    let mut c = sample_config();
    c.default_target = String::from("host \"with\" quotes \\ and = signs");
    c.targets[0].name = String::from("tab\there newline\nthere");
    c.recovery_actions[0].command = String::from("echo 'a=b' # not a comment");
    c.log_file = Some(String::from("로그.log"));
    c.notification_enabled = true;
    c.notification_command = Some(String::from("notify [now]"));
    let text = save_config(&c);
    let c2 = load_config(&text).expect("awkward strings must load");
    assert_eq!(c2, c);
}

#[test]
fn config_roundtrip_empty_lists() {
    let mut c = sample_config();
    c.targets = Vec::new();
    c.recovery_actions = Vec::new();
    let text = save_config(&c);
    assert!(text.contains("targets = []"));
    assert!(text.contains("recovery_actions = []"));
    let c2 = load_config(&text).expect("empty lists must load");
    assert_eq!(c2, c);
}

#[test]
fn load_accepts_comments_blanks_and_spacing() {
    let text = "\n# a comment\n  default_target = \"h\"  \ncheck_interval_sec=5\nping_timeout_ms = 10\nretry_count = 1\nnotification_enabled = false\ntargets = []\nrecovery_actions = []\n";
    let c = load_config(text).expect("commented text must load");
    assert_eq!(c.default_target, "h");
    assert_eq!(c.check_interval_sec, 5);
    assert!(c.targets.is_empty());
    assert!(c.recovery_actions.is_empty());
}

#[test]
fn load_reports_missing_field() {
    let text = "default_target = \"h\"\ncheck_interval_sec = 5\nping_timeout_ms = 10\nnotification_enabled = false\ntargets = []\nrecovery_actions = []";
    match load_config(text) {
        Err(ConfigError::Missing { field }) => assert_eq!(field, FieldKey::RetryCount),
        other => panic!("expected missing retry_count, got {:?}", other),
    }
}

#[test]
fn load_reports_bad_syntax_with_line() {
    let text = "default_target = \"h\"\nnot a key value line";
    match load_config(text) {
        Err(ConfigError::BadSyntax { line }) => assert_eq!(line, 2),
        other => panic!("expected bad syntax, got {:?}", other),
    }
}

#[test]
fn load_reports_bad_value() {
    let text = "default_target = maybe";
    match load_config(text) {
        Err(ConfigError::BadValue { line }) => assert_eq!(line, 1),
        other => panic!("expected bad value, got {:?}", other),
    }
}

#[test]
fn load_reports_unknown_section() {
    let text = "default_target = \"h\"\n[general]";
    match load_config(text) {
        Err(ConfigError::UnknownSection { line }) => assert_eq!(line, 2),
        other => panic!("expected unknown section, got {:?}", other),
    }
}

#[test]
fn load_reports_duplicate_key() {
    let text = "retry_count = 1\nretry_count = 2";
    match load_config(text) {
        Err(ConfigError::DuplicateKey { line }) => assert_eq!(line, 2),
        other => panic!("expected duplicate key, got {:?}", other),
    }
}

#[test]
fn load_reports_out_of_range() {
    let text = "retry_count = 300";
    match load_config(text) {
        Err(ConfigError::OutOfRange { line }) => assert_eq!(line, 1),
        other => panic!("expected out of range, got {:?}", other),
    }
}

#[test]
fn load_rejects_overlarge_number() {
    let text = "ping_timeout_ms = 99999999999999999999999999";
    match load_config(text) {
        Err(ConfigError::BadValue { line }) => assert_eq!(line, 1),
        other => panic!("expected bad value, got {:?}", other),
    }
}

#[test]
fn load_reports_missing_target_fields() {
    let text = "default_target = \"h\"\ncheck_interval_sec = 5\nping_timeout_ms = 10\nretry_count = 1\nnotification_enabled = false\nrecovery_actions = []\n\n[[targets]]\nname = \"t\"";
    match load_config(text) {
        Err(ConfigError::Missing { field }) => assert_eq!(field, FieldKey::TargetAddress),
        other => panic!("expected missing address, got {:?}", other),
    }
}

#[test]
fn saved_config_is_valid_toml() {
    let c = Config::default();
    let text = save_config(&c);
    let v: toml::Value = toml::from_str(&text).expect("saved configuration must parse as TOML");
    assert_eq!(v.get("default_target").and_then(|x| x.as_str()), Some("8.8.8.8"));
    assert_eq!(v.get("check_interval_sec").and_then(|x| x.as_integer()), Some(60));
    assert_eq!(v.get("ping_timeout_ms").and_then(|x| x.as_integer()), Some(1000));
    assert_eq!(v.get("retry_count").and_then(|x| x.as_integer()), Some(3));
    assert_eq!(v.get("notification_enabled").and_then(|x| x.as_bool()), Some(true));
    let targets = v.get("targets").and_then(|x| x.as_array()).expect("targets array");
    assert_eq!(targets.len(), 2);
    assert_eq!(targets[0].get("name").and_then(|x| x.as_str()), Some("Google DNS"));
    assert_eq!(targets[1].get("address").and_then(|x| x.as_str()), Some("192.168.1.1"));
    let actions = v.get("recovery_actions").and_then(|x| x.as_array()).expect("actions array");
    assert_eq!(actions.len(), 1);
    assert_eq!(actions[0].get("wait_after_ms").and_then(|x| x.as_integer()), Some(5000));
}

#[test]
fn config_clone_preserves_values() {
    let c = sample_config();
    let d = c.clone();
    assert_eq!(c, d);
}
