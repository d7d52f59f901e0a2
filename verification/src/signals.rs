//! Signal delivery for the terminate protocol.
//!
//! The OS calls go through one trusted wrapper around `nix`'s `kill`; the
//! decisions around them — identity check first, graceful before forced,
//! probe before escalation — are verified here. The driver outside the
//! library only reads the process table and blocks for the grace window
//! between the two halves.

use vstd::prelude::*;
use crate::terminate::TerminateError;
use crate::terminate::contains_seq;
use crate::terminate::contains_sub;

verus! {

/// The largest value the OS accepts as a process id.
pub const PID_MAX: u32 = 0x7fff_ffff;

/// Which signal the engine delivers.
#[derive(Clone, Copy, Debug, PartialEq, Eq, Structural)]
pub enum SignalKind {
    /// The catchable termination request (SIGTERM).
    Graceful,
    /// The unconditional kill (SIGKILL).
    Forced,
    /// The null signal: only error checking, probes liveness.
    Probe,
}

/// What delivering a signal reported.
#[derive(Clone, Copy, Debug, PartialEq, Eq, Structural)]
pub enum SignalOutcome {
    /// The OS accepted the call.
    Delivered,
    /// No process with the id exists.
    NoSuchProcess,
    /// The OS refused the call for another reason (e.g. permission).
    Refused,
}

/// Relies on nix::sys::signal::kill: delivers SIGTERM for Graceful, SIGKILL
/// for Forced, and no signal (the null probe) for Probe; an ESRCH error
/// means no such process, any other error is a refusal. The outcome depends
/// on the live process table, so nothing more can be promised of it.
#[verifier::external_body]
fn send_signal(pid: u32, kind: SignalKind) -> (r: SignalOutcome)
    requires
        1 <= pid <= PID_MAX,
{
    let signal = match kind {
        SignalKind::Graceful => Some(nix::sys::signal::Signal::SIGTERM),
        SignalKind::Forced => Some(nix::sys::signal::Signal::SIGKILL),
        SignalKind::Probe => None,
    };
    match nix::sys::signal::kill(nix::unistd::Pid::from_raw(pid as i32), signal) {
        Ok(()) => SignalOutcome::Delivered,
        Err(nix::errno::Errno::ESRCH) => SignalOutcome::NoSuchProcess,
        Err(_) => SignalOutcome::Refused,
    }
}

/// The first half of a termination call: hold the target's command line —
/// `None` when the process table has no such id — against the identity
/// check, and only on a match request the graceful shutdown. An absent
/// target fails with ProcessNotFound, a mismatched one with
/// IdentityMismatch, and in neither case is any signal sent; when the
/// identity matches, only the OS refusing the signal can fail the call.
/// The caller then blocks for the grace window before escalating.
pub fn request_termination(pid: u32, cmdline: Option<&String>, check: &String) -> (r: Result<
    (),
    TerminateError,
>)
    requires
        1 <= pid <= PID_MAX,
    ensures
        cmdline is None ==> r == Err::<(), TerminateError>(TerminateError::ProcessNotFound),
        (cmdline matches Some(c) && !contains_seq(c@, check@)) ==> r == Err::<(), TerminateError>(
            TerminateError::IdentityMismatch,
        ),
        (cmdline matches Some(c) && contains_seq(c@, check@)) ==> (r is Ok || r == Err::<
            (),
            TerminateError,
        >(TerminateError::SignalError)),
        r is Ok ==> (cmdline matches Some(c) && contains_seq(c@, check@)),
{
    match cmdline {
        None => Err(TerminateError::ProcessNotFound),
        Some(c) => {
            if !contains_sub(c.as_str(), check.as_str()) {
                Err(TerminateError::IdentityMismatch)
            } else {
                match send_signal(pid, SignalKind::Graceful) {
                    SignalOutcome::Delivered => Ok(()),
                    _ => Err(TerminateError::SignalError),
                }
            }
        },
    }
}

/// The second half, after the grace window: probe the target with the null
/// signal. Gone means it exited voluntarily — success without any forced
/// kill. Still alive means the forced kill is sent, and only the OS
/// refusing that send can fail the call; any other probe failure is its own
/// error.
pub fn escalate_termination(pid: u32) -> (r: Result<(), TerminateError>)
    requires
        1 <= pid <= PID_MAX,
    ensures
        r is Err ==> (r == Err::<(), TerminateError>(TerminateError::SignalError) || r == Err::<
            (),
            TerminateError,
        >(TerminateError::ProbeFailed)),
{
    match send_signal(pid, SignalKind::Probe) {
        SignalOutcome::NoSuchProcess => Ok(()),
        SignalOutcome::Refused => Err(TerminateError::ProbeFailed),
        SignalOutcome::Delivered => match send_signal(pid, SignalKind::Forced) {
            SignalOutcome::Delivered => Ok(()),
            _ => Err(TerminateError::SignalError),
        },
    }
}

} // verus!
