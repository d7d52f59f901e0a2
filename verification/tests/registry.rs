use easy_daemon::Config;
use easy_daemon::default_dev_null;

#[test]
fn default_output_is_the_null_device() {
    assert_eq!(default_dev_null(), "/dev/null");
}

#[test]
fn add_fills_in_defaults() {
    let mut config = Config::new();
    config.add("web".to_string(), "/usr/bin/server".to_string(), None, None);
    let daemon = config.get(&"web".to_string()).expect("daemon should be registered");
    assert_eq!(daemon.pid, 0);
    assert_eq!(daemon.exe, "/usr/bin/server");
    assert!(daemon.args.is_empty());
    assert_eq!(daemon.output, "/dev/null");
}

#[test]
fn add_keeps_given_args_and_output() {
    let mut config = Config::new();
    config.add(
        "db".to_string(),
        "/usr/bin/db".to_string(),
        Some(vec!["--port".to_string(), "5432".to_string()]),
        Some("/var/log/db.log".to_string()),
    );
    let daemon = config.get(&"db".to_string()).expect("daemon should be registered");
    assert_eq!(daemon.pid, 0);
    assert_eq!(daemon.args, vec!["--port".to_string(), "5432".to_string()]);
    assert_eq!(daemon.output, "/var/log/db.log");
}

#[test]
fn add_replaces_an_existing_name() {
    let mut config = Config::new();
    config.add("web".to_string(), "/old/bin".to_string(), None, None);
    config.add("web".to_string(), "/new/bin".to_string(), None, Some("/tmp/web.log".to_string()));
    assert_eq!(config.len(), 1);
    let daemon = config.get(&"web".to_string()).expect("daemon should be registered");
    assert_eq!(daemon.exe, "/new/bin");
    assert_eq!(daemon.output, "/tmp/web.log");
}

#[test]
fn add_leaves_other_names_alone() {
    let mut config = Config::new();
    config.add("one".to_string(), "/bin/one".to_string(), None, None);
    config.add("two".to_string(), "/bin/two".to_string(), None, None);
    assert_eq!(config.len(), 2);
    assert_eq!(config.get(&"one".to_string()).unwrap().exe, "/bin/one");
    assert_eq!(config.get(&"two".to_string()).unwrap().exe, "/bin/two");
}

#[test]
fn a_zero_pid_means_not_running() {
    let mut config = Config::new();
    config.add("web".to_string(), "/usr/bin/server".to_string(), None, None);
    assert!(!config.get(&"web".to_string()).unwrap().is_running());
    config.set_pid(&"web".to_string(), 4321);
    assert!(config.get(&"web".to_string()).unwrap().is_running());
}

#[test]
fn set_pid_updates_only_the_pid() {
    let mut config = Config::new();
    config.add("web".to_string(), "/usr/bin/server".to_string(), None, None);
    let found = config.set_pid(&"web".to_string(), 4321);
    assert!(found);
    let daemon = config.get(&"web".to_string()).unwrap();
    assert_eq!(daemon.pid, 4321);
    assert_eq!(daemon.exe, "/usr/bin/server");
    assert_eq!(daemon.output, "/dev/null");
}

#[test]
fn set_pid_on_a_missing_name_changes_nothing() {
    let mut config = Config::new();
    config.add("web".to_string(), "/usr/bin/server".to_string(), None, None);
    let found = config.set_pid(&"gone".to_string(), 4321);
    assert!(!found);
    assert_eq!(config.len(), 1);
    assert_eq!(config.get(&"web".to_string()).unwrap().pid, 0);
}

#[test]
fn remove_drops_only_the_named_daemon() {
    let mut config = Config::new();
    config.add("one".to_string(), "/bin/one".to_string(), None, None);
    config.add("two".to_string(), "/bin/two".to_string(), None, None);
    let found = config.remove(&"one".to_string());
    assert!(found);
    assert!(config.get(&"one".to_string()).is_none());
    assert!(config.get(&"two".to_string()).is_some());
    assert!(!config.remove(&"one".to_string()));
}

#[test]
fn entries_are_reachable_by_index() {
    let mut config = Config::new();
    config.add("one".to_string(), "/bin/one".to_string(), None, None);
    config.add("two".to_string(), "/bin/two".to_string(), None, None);
    let mut names: Vec<String> = Vec::new();
    for i in 0..config.len() {
        names.push(config.name_at(i).clone());
        assert_eq!(config.daemon_at(i).pid, 0);
    }
    names.sort();
    assert_eq!(names, vec!["one".to_string(), "two".to_string()]);
}
