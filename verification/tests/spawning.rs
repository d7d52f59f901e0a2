use easy_daemon::ChildStep;
use easy_daemon::ForkOutcome;
use easy_daemon::OutputMode;
use easy_daemon::SpawnError;
use easy_daemon::build_argv;
use easy_daemon::child_next;
use easy_daemon::has_nul;
use easy_daemon::parent_spawn_result;
use easy_daemon::prepare_spawn;

#[test]
fn nul_detection() {
    assert!(!has_nul("/bin/sleep"));
    assert!(!has_nul(""));
    assert!(has_nul("/bin/\0sleep"));
    assert!(has_nul("\0"));
}

#[test]
fn argv_starts_with_the_executable() {
    let exe = "/bin/sleep".to_string();
    let args = vec!["30".to_string()];
    let argv = build_argv(&exe, &args);
    assert_eq!(argv, vec!["/bin/sleep".to_string(), "30".to_string()]);
}

#[test]
fn argv_of_no_arguments_is_just_the_executable() {
    let exe = "/bin/true".to_string();
    let argv = build_argv(&exe, &Vec::new());
    assert_eq!(argv, vec!["/bin/true".to_string()]);
}

#[test]
fn plan_for_the_null_device_discards() {
    let plan = prepare_spawn(
        &"/bin/sleep".to_string(),
        &vec!["30".to_string()],
        &"/dev/null".to_string(),
    )
    .expect("valid inputs must yield a plan");
    assert_eq!(plan.argv, vec!["/bin/sleep".to_string(), "30".to_string()]);
    assert!(matches!(plan.output, OutputMode::Discard));
}

#[test]
fn plan_for_a_log_file_appends_to_it() {
    let plan = prepare_spawn(&"/bin/server".to_string(), &Vec::new(), &"/tmp/server.log".to_string())
        .expect("valid inputs must yield a plan");
    match plan.output {
        OutputMode::Append(path) => assert_eq!(path, "/tmp/server.log"),
        OutputMode::Discard => panic!("a log file target must not be discarded"),
    }
}

#[test]
fn embedded_nul_is_rejected() {
    let ok_args = vec!["30".to_string()];
    let r = prepare_spawn(&"/bin/\0".to_string(), &ok_args, &"/dev/null".to_string());
    assert_eq!(r.err(), Some(SpawnError::Validation));
    let r = prepare_spawn(&"/bin/sleep".to_string(), &vec!["3\00".to_string()], &"/dev/null".to_string());
    assert_eq!(r.err(), Some(SpawnError::Validation));
    let r = prepare_spawn(&"/bin/sleep".to_string(), &ok_args, &"/dev/\0null".to_string());
    assert_eq!(r.err(), Some(SpawnError::Validation));
}

#[test]
fn parent_sees_the_child_id_or_the_fork_failure() {
    assert_eq!(parent_spawn_result(ForkOutcome::Parent(4242)), Ok(4242));
    assert_eq!(parent_spawn_result(ForkOutcome::Failed), Err(SpawnError::Fork));
}

#[test]
fn child_setup_runs_in_order_and_ends_in_exec() {
    let mut step = ChildStep::StartSession;
    let expected = [
        ChildStep::StdinFromNull,
        ChildStep::OpenOutput,
        ChildStep::DupStdout,
        ChildStep::DupStderr,
        ChildStep::Exec,
    ];
    for want in expected {
        step = child_next(step, true);
        assert_eq!(step, want);
    }
    // An exec that returns at all has failed.
    assert_eq!(child_next(ChildStep::Exec, true), ChildStep::ExitFailure);
}

#[test]
fn any_failed_child_step_is_fatal() {
    for failing in [
        ChildStep::StartSession,
        ChildStep::StdinFromNull,
        ChildStep::OpenOutput,
        ChildStep::DupStdout,
        ChildStep::DupStderr,
    ] {
        assert_eq!(child_next(failing, false), ChildStep::ExitFailure);
    }
    assert_eq!(child_next(ChildStep::ExitFailure, true), ChildStep::ExitFailure);
}
