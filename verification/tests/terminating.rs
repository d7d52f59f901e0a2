use easy_daemon::GRACE_SECONDS;
use easy_daemon::TermAction;
use easy_daemon::TermEvent;
use easy_daemon::TermStage;
use easy_daemon::TerminateError;
use easy_daemon::contains_sub;
use easy_daemon::escalate_termination;
use easy_daemon::request_termination;
use easy_daemon::term_step;

#[test]
fn substring_containment() {
    assert!(contains_sub("/usr/bin/server --port 80", "/usr/bin/server"));
    assert!(contains_sub("abc", "b"));
    assert!(contains_sub("abc", "abc"));
    assert!(contains_sub("abc", ""));
    assert!(contains_sub("", ""));
    assert!(!contains_sub("abc", "abcd"));
    assert!(!contains_sub("abc", "ac"));
    assert!(!contains_sub("", "a"));
}

#[test]
fn grace_window_is_two_seconds() {
    assert_eq!(GRACE_SECONDS, 2);
}

fn init() -> (TermStage, TermAction) {
    (TermStage::Checking, TermAction::ReadCmdline)
}

/// Drive the protocol over a sequence of events, recording every action a
/// driver would perform.
fn run(check: &str, events: Vec<TermEvent>) -> (TermStage, Vec<TermAction>) {
    let check = check.to_string();
    let mut cfg = init();
    let mut performed: Vec<TermAction> = Vec::new();
    for event in events {
        if cfg.1 != TermAction::Stop {
            performed.push(cfg.1);
        }
        cfg = term_step(cfg, &check, event);
    }
    (cfg.0, performed)
}

#[test]
fn absent_process_is_not_found_and_never_signaled() {
    let (stage, performed) = run("/bin/sleep", vec![TermEvent::CmdlineAbsent]);
    assert_eq!(stage, TermStage::Failed(TerminateError::ProcessNotFound));
    assert!(!performed.contains(&TermAction::SendGraceful));
    assert!(!performed.contains(&TermAction::SendForced));
}

#[test]
fn recycled_id_is_a_mismatch_and_never_signaled() {
    let (stage, performed) = run(
        "/bin/sleep",
        vec![TermEvent::CmdlineIs("/usr/bin/unrelated --flag".to_string())],
    );
    assert_eq!(stage, TermStage::Failed(TerminateError::IdentityMismatch));
    assert!(!performed.contains(&TermAction::SendGraceful));
    assert!(!performed.contains(&TermAction::SendForced));
}

#[test]
fn voluntary_exit_within_grace_gets_one_signal() {
    let (stage, performed) = run(
        "/bin/sleep",
        vec![
            TermEvent::CmdlineIs("/bin/sleep 30".to_string()),
            TermEvent::GracefulSent(true),
            TermEvent::GraceElapsed,
            TermEvent::ProbeGone,
        ],
    );
    assert_eq!(stage, TermStage::Done);
    let graceful = performed.iter().filter(|a| **a == TermAction::SendGraceful).count();
    let forced = performed.iter().filter(|a| **a == TermAction::SendForced).count();
    assert_eq!(graceful, 1);
    assert_eq!(forced, 0);
}

#[test]
fn ignored_graceful_signal_escalates_to_exactly_two_signals() {
    let (stage, performed) = run(
        "/bin/sleep",
        vec![
            TermEvent::CmdlineIs("/bin/sleep 30".to_string()),
            TermEvent::GracefulSent(true),
            TermEvent::GraceElapsed,
            TermEvent::ProbeAlive,
            TermEvent::ForcedSent(true),
        ],
    );
    assert_eq!(stage, TermStage::Done);
    let graceful: Vec<usize> = performed
        .iter()
        .enumerate()
        .filter(|(_, a)| **a == TermAction::SendGraceful)
        .map(|(i, _)| i)
        .collect();
    let waits: Vec<usize> = performed
        .iter()
        .enumerate()
        .filter(|(_, a)| **a == TermAction::WaitGrace)
        .map(|(i, _)| i)
        .collect();
    let forced: Vec<usize> = performed
        .iter()
        .enumerate()
        .filter(|(_, a)| **a == TermAction::SendForced)
        .map(|(i, _)| i)
        .collect();
    assert_eq!(graceful.len(), 1);
    assert_eq!(forced.len(), 1);
    assert_eq!(waits.len(), 1);
    // Graceful first, then the grace window, then the forced kill.
    assert!(graceful[0] < waits[0]);
    assert!(waits[0] < forced[0]);
}

#[test]
fn refused_graceful_signal_fails_the_call() {
    let (stage, _) = run(
        "/bin/sleep",
        vec![
            TermEvent::CmdlineIs("/bin/sleep 30".to_string()),
            TermEvent::GracefulSent(false),
        ],
    );
    assert_eq!(stage, TermStage::Failed(TerminateError::SignalError));
}

#[test]
fn refused_forced_signal_fails_the_call() {
    let (stage, _) = run(
        "/bin/sleep",
        vec![
            TermEvent::CmdlineIs("/bin/sleep 30".to_string()),
            TermEvent::GracefulSent(true),
            TermEvent::GraceElapsed,
            TermEvent::ProbeAlive,
            TermEvent::ForcedSent(false),
        ],
    );
    assert_eq!(stage, TermStage::Failed(TerminateError::SignalError));
}

#[test]
fn failed_probe_is_its_own_error() {
    let (stage, performed) = run(
        "/bin/sleep",
        vec![
            TermEvent::CmdlineIs("/bin/sleep 30".to_string()),
            TermEvent::GracefulSent(true),
            TermEvent::GraceElapsed,
            TermEvent::ProbeError,
        ],
    );
    assert_eq!(stage, TermStage::Failed(TerminateError::ProbeFailed));
    assert!(!performed.contains(&TermAction::SendForced));
}

#[test]
fn finished_call_ignores_further_events() {
    let (stage, performed) = run(
        "/bin/sleep",
        vec![
            TermEvent::CmdlineAbsent,
            TermEvent::GracefulSent(true),
            TermEvent::ProbeAlive,
        ],
    );
    assert_eq!(stage, TermStage::Failed(TerminateError::ProcessNotFound));
    assert_eq!(performed, vec![TermAction::ReadCmdline]);
}

#[test]
fn terminating_an_unused_id_reports_not_found() {
    // The id 999999 is unused: reading its command line finds nothing.
    let r = request_termination(999999, None, &"anything".to_string());
    assert_eq!(r, Err(TerminateError::ProcessNotFound));
}

#[test]
fn mismatched_identity_refuses_to_signal() {
    // Identity of a live-but-unrelated process: never signaled.
    let r = request_termination(1, Some(&"/sbin/init".to_string()), &"/bin/sleep".to_string());
    assert_eq!(r, Err(TerminateError::IdentityMismatch));
}

#[test]
fn escalating_on_a_gone_process_succeeds_without_a_kill() {
    // The probe of an unused id reports "no such process": the target is
    // gone, and the call succeeds without a forced kill.
    let r = escalate_termination(999999);
    assert_eq!(r, Ok(()));
}
