use network_monitor::paths::{get_executable_dir, is_absolute_path, to_absolute_path};

#[test]
fn absolute_paths_are_recognized() {
    assert!(is_absolute_path("/var/log/x.log"));
    assert!(is_absolute_path("\\\\server\\share"));
    assert!(is_absolute_path("C:\\tools\\monitor"));
    assert!(is_absolute_path("c:/tools/monitor"));
    assert!(!is_absolute_path("logs/x.log"));
    assert!(!is_absolute_path("C:tools"));
    assert!(!is_absolute_path("8:\\nope"));
    assert!(!is_absolute_path(""));
}

#[test]
fn to_absolute_keeps_absolute_paths() {
    assert_eq!(to_absolute_path("C:\\x\\y.log", "D:\\base"), "C:\\x\\y.log");
    assert_eq!(to_absolute_path("/a/b", "/base"), "/a/b");
}

#[test]
fn to_absolute_joins_relative_paths() {
    assert_eq!(to_absolute_path("x.log", "/opt/app"), "/opt/app/x.log");
    assert_eq!(to_absolute_path("x.log", "/opt/app/"), "/opt/app/x.log");
    assert_eq!(to_absolute_path("x.log", "C:\\app\\"), "C:\\app\\x.log");
    assert_eq!(to_absolute_path("x.log", ""), "/x.log");
}

#[test]
fn executable_dir_is_the_prefix_before_the_last_separator() {
    assert_eq!(get_executable_dir("/usr/bin/monitor"), Some(String::from("/usr/bin")));
    assert_eq!(get_executable_dir("C:\\app\\monitor.exe"), Some(String::from("C:\\app")));
    assert_eq!(get_executable_dir("/monitor"), Some(String::from("/")));
    assert_eq!(get_executable_dir("monitor.exe"), None);
}
