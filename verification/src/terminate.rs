//! The terminate half of the process lifecycle engine: an identity-checked,
//! escalating shutdown.
//!
//! Four stages, each at most once per call: read the target's command line
//! from the OS process table and hold it against the identity check; send
//! the graceful signal; wait a fixed grace window; then probe, and force the
//! kill only if the target is still alive. The stages and their transitions
//! are modelled here as a state machine whose driver performs one OS action
//! per step and reports its outcome.

use vstd::prelude::*;
use vstd::string::StrSliceExecFns;

verus! {

/// `needle` occurs contiguously inside `hay`.
pub open spec fn contains_seq(hay: Seq<char>, needle: Seq<char>) -> bool {
    exists|i: int|
        0 <= i <= hay.len() - needle.len() && #[trigger] hay.subrange(i, i + needle.len())
            == needle
}

/// Whether `needle` matches `hay` exactly at position `at`.
fn matches_at(hay: &str, needle: &str, at: usize) -> (r: bool)
    requires
        at + needle@.len() <= hay@.len(),
        hay@.len() <= usize::MAX,
    ensures
        r == (hay@.subrange(at as int, at + needle@.len()) == needle@),
{
    let nlen = needle.unicode_len();
    let ghost window = hay@.subrange(at as int, at + needle@.len());
    let mut j: usize = 0;
    while j < nlen
        invariant
            j <= nlen,
            nlen == needle@.len(),
            at + nlen <= hay@.len(),
            hay@.len() <= usize::MAX,
            window == hay@.subrange(at as int, at + needle@.len()),
            forall|k: int| 0 <= k < j ==> hay@[at + k] == needle@[k],
        decreases nlen - j,
    {
        if hay.get_char(at + j) != needle.get_char(j) {
            proof {
                assert(window[j as int] == hay@[at + j]);
            }
            return false;
        }
        j = j + 1;
    }
    proof {
        assert(window =~= needle@);
    }
    true
}

/// Whether `needle` occurs anywhere inside `hay` — how the engine holds a
/// process's command line against the identity check.
pub fn contains_sub(hay: &str, needle: &str) -> (r: bool)
    ensures
        r == contains_seq(hay@, needle@),
{
    let hlen = hay.unicode_len();
    let nlen = needle.unicode_len();
    if nlen > hlen {
        return false;
    }
    if nlen == 0 {
        proof {
            assert(hay@.subrange(0, 0 + needle@.len() as int) =~= needle@);
            assert(contains_seq(hay@, needle@));
        }
        return true;
    }
    let bound = hlen - nlen;
    let mut i: usize = 0;
    while i <= bound
        invariant
            nlen <= hlen,
            bound == hlen - nlen,
            hlen == hay@.len(),
            nlen == needle@.len(),
            1 <= nlen,
            i <= bound + 1,
            forall|k: int| 0 <= k < i ==> #[trigger] hay@.subrange(k, k + needle@.len())
                != needle@,
        decreases bound + 1 - i,
    {
        if matches_at(hay, needle, i) {
            return true;
        }
        i = i + 1;
    }
    false
}

/// Why a termination request failed.
#[derive(Clone, Copy, Debug, PartialEq, Eq, Structural)]
pub enum TerminateError {
    /// No live process has the given id: the target is already gone.
    ProcessNotFound,
    /// A live process has the id, but its command line does not contain the
    /// identity check: the id was recycled for an unrelated process, which
    /// must not be signaled.
    IdentityMismatch,
    /// The OS refused to deliver a signal.
    SignalError,
    /// The liveness probe failed for a reason other than "no such process".
    ProbeFailed,
}

/// Where a termination call stands.
#[derive(Clone, Copy, Debug, PartialEq, Eq, Structural)]
pub enum TermStage {
    /// Holding the target's command line against the identity check.
    Checking,
    /// The graceful signal is being delivered.
    SignalSent,
    /// The fixed grace window is running.
    Waiting,
    /// Probing liveness, forcing the kill only if the target still lives.
    Escalating,
    /// The target is terminated (gracefully, or by force).
    Done,
    /// The call failed for this reason.
    Failed(TerminateError),
}

/// The one OS action the driver must perform next.
#[derive(Clone, Copy, Debug, PartialEq, Eq, Structural)]
pub enum TermAction {
    /// Read the target's command line from the process table.
    ReadCmdline,
    /// Send the graceful (catchable) termination signal.
    SendGraceful,
    /// Block for the fixed grace window.
    WaitGrace,
    /// Send the null signal to probe liveness.
    Probe,
    /// Send the forced (uncatchable) termination signal.
    SendForced,
    /// Nothing: the call is over.
    Stop,
}

/// What the OS reported for the action the driver last performed.
pub enum TermEvent {
    /// The command line was read and holds this text.
    CmdlineIs(String),
    /// No process with the id exists in the process table.
    CmdlineAbsent,
    /// The graceful signal was delivered (`true`) or refused.
    GracefulSent(bool),
    /// The grace window elapsed.
    GraceElapsed,
    /// The probe found the target still alive.
    ProbeAlive,
    /// The probe reported "no such process": the target exited within the
    /// grace window.
    ProbeGone,
    /// The probe failed some other way.
    ProbeError,
    /// The forced signal was delivered (`true`) or refused.
    ForcedSent(bool),
}

/// A configuration of the protocol: its stage, and the pending action.
pub type TermConfig = (TermStage, TermAction);

/// Where the protocol starts: checking, about to read the command line.
pub open spec fn term_init() -> TermConfig {
    (TermStage::Checking, TermAction::ReadCmdline)
}

/// The transition table. An event that does not answer the pending action
/// changes nothing; each stage is passed at most once, in order, with no
/// retry.
pub open spec fn term_step_spec(cfg: TermConfig, check: Seq<char>, event: TermEvent) -> TermConfig {
    match (cfg.1, event) {
        (TermAction::ReadCmdline, TermEvent::CmdlineAbsent) => (
            TermStage::Failed(TerminateError::ProcessNotFound),
            TermAction::Stop,
        ),
        (TermAction::ReadCmdline, TermEvent::CmdlineIs(c)) => if contains_seq(c@, check) {
            (TermStage::SignalSent, TermAction::SendGraceful)
        } else {
            (TermStage::Failed(TerminateError::IdentityMismatch), TermAction::Stop)
        },
        (TermAction::SendGraceful, TermEvent::GracefulSent(ok)) => if ok {
            (TermStage::Waiting, TermAction::WaitGrace)
        } else {
            (TermStage::Failed(TerminateError::SignalError), TermAction::Stop)
        },
        (TermAction::WaitGrace, TermEvent::GraceElapsed) => (
            TermStage::Escalating,
            TermAction::Probe,
        ),
        (TermAction::Probe, TermEvent::ProbeGone) => (TermStage::Done, TermAction::Stop),
        (TermAction::Probe, TermEvent::ProbeAlive) => (
            TermStage::Escalating,
            TermAction::SendForced,
        ),
        (TermAction::Probe, TermEvent::ProbeError) => (
            TermStage::Failed(TerminateError::ProbeFailed),
            TermAction::Stop,
        ),
        (TermAction::SendForced, TermEvent::ForcedSent(ok)) => if ok {
            (TermStage::Done, TermAction::Stop)
        } else {
            (TermStage::Failed(TerminateError::SignalError), TermAction::Stop)
        },
        _ => cfg,
    }
}

/// Advance the protocol by one reported event.
pub fn term_step(cfg: TermConfig, check: &String, event: TermEvent) -> (r: TermConfig)
    ensures
        r == term_step_spec(cfg, check@, event),
{
    match (cfg.1, event) {
        (TermAction::ReadCmdline, TermEvent::CmdlineAbsent) => (
            TermStage::Failed(TerminateError::ProcessNotFound),
            TermAction::Stop,
        ),
        (TermAction::ReadCmdline, TermEvent::CmdlineIs(c)) => if contains_sub(
            c.as_str(),
            check.as_str(),
        ) {
            (TermStage::SignalSent, TermAction::SendGraceful)
        } else {
            (TermStage::Failed(TerminateError::IdentityMismatch), TermAction::Stop)
        },
        (TermAction::SendGraceful, TermEvent::GracefulSent(ok)) => if ok {
            (TermStage::Waiting, TermAction::WaitGrace)
        } else {
            (TermStage::Failed(TerminateError::SignalError), TermAction::Stop)
        },
        (TermAction::WaitGrace, TermEvent::GraceElapsed) => (
            TermStage::Escalating,
            TermAction::Probe,
        ),
        (TermAction::Probe, TermEvent::ProbeGone) => (TermStage::Done, TermAction::Stop),
        (TermAction::Probe, TermEvent::ProbeAlive) => (
            TermStage::Escalating,
            TermAction::SendForced,
        ),
        (TermAction::Probe, TermEvent::ProbeError) => (
            TermStage::Failed(TerminateError::ProbeFailed),
            TermAction::Stop,
        ),
        (TermAction::SendForced, TermEvent::ForcedSent(ok)) => if ok {
            (TermStage::Done, TermAction::Stop)
        } else {
            (TermStage::Failed(TerminateError::SignalError), TermAction::Stop)
        },
        (_, _) => cfg,
    }
}

/// The grace window, in seconds: a deliberate fixed delay, not configurable.
pub const GRACE_SECONDS: u64 = 2;

/// Where the protocol stands after a whole sequence of reported events.
pub open spec fn term_run(cfg: TermConfig, check: Seq<char>, events: Seq<TermEvent>) -> TermConfig
    decreases events.len(),
{
    if events.len() == 0 {
        cfg
    } else {
        term_run(term_step_spec(cfg, check, events.first()), check, events.drop_first())
    }
}

/// Whether `event` is a report the OS can make for `action`. Stop has no
/// answer: a finished call asks for nothing.
pub open spec fn event_answers(action: TermAction, event: TermEvent) -> bool {
    match (action, event) {
        (TermAction::ReadCmdline, TermEvent::CmdlineAbsent) => true,
        (TermAction::ReadCmdline, TermEvent::CmdlineIs(_)) => true,
        (TermAction::SendGraceful, TermEvent::GracefulSent(_)) => true,
        (TermAction::WaitGrace, TermEvent::GraceElapsed) => true,
        (TermAction::Probe, TermEvent::ProbeGone) => true,
        (TermAction::Probe, TermEvent::ProbeAlive) => true,
        (TermAction::Probe, TermEvent::ProbeError) => true,
        (TermAction::SendForced, TermEvent::ForcedSent(_)) => true,
        _ => false,
    }
}

/// How often the driver performs `action` along a run: the pending action
/// counts as performed once for each event that answers it.
pub open spec fn actions_in_run(
    cfg: TermConfig,
    check: Seq<char>,
    events: Seq<TermEvent>,
    action: TermAction,
) -> nat
    decreases events.len(),
{
    if events.len() == 0 {
        0
    } else {
        (if cfg.1 == action && event_answers(cfg.1, events.first()) {
            1nat
        } else {
            0nat
        }) + actions_in_run(
            term_step_spec(cfg, check, events.first()),
            check,
            events.drop_first(),
            action,
        )
    }
}

/// How far along the protocol an action stands: later actions have higher
/// rank, and a run never moves back.
pub open spec fn action_rank(action: TermAction) -> nat {
    match action {
        TermAction::ReadCmdline => 0,
        TermAction::SendGraceful => 1,
        TermAction::WaitGrace => 2,
        TermAction::Probe => 3,
        TermAction::SendForced => 4,
        TermAction::Stop => 5,
    }
}

/// A finished call stays finished: from a configuration whose action is
/// Stop, no event moves the protocol and no further action is performed.
pub proof fn lemma_stopped_stays(cfg: TermConfig, check: Seq<char>, events: Seq<TermEvent>)
    requires
        cfg.1 == TermAction::Stop,
    ensures
        term_run(cfg, check, events) == cfg,
        forall|a: TermAction| actions_in_run(cfg, check, events, a) == 0,
    decreases events.len(),
{
    if events.len() > 0 {
        assert(term_step_spec(cfg, check, events.first()) == cfg);
        lemma_stopped_stays(cfg, check, events.drop_first());
        assert forall|a: TermAction| actions_in_run(cfg, check, events, a) == 0 by {
            assert(actions_in_run(cfg, check, events.drop_first(), a) == 0);
        }
    }
}

/// One step of a run, written out: where it goes and what it counts.
proof fn lemma_run_unfold(cfg: TermConfig, check: Seq<char>, events: Seq<TermEvent>)
    requires
        events.len() > 0,
    ensures
        term_run(cfg, check, events) == term_run(
            term_step_spec(cfg, check, events.first()),
            check,
            events.drop_first(),
        ),
        forall|a: TermAction|
            #[trigger] actions_in_run(cfg, check, events, a) == (
            if cfg.1 == a && event_answers(cfg.1, events.first()) {
                1nat
            } else {
                0nat
            }) + actions_in_run(term_step_spec(cfg, check, events.first()), check, events.drop_first(), a),
{
}

/// Law: no retries. Whatever the OS reports, a run performs each stage's
/// action at most once, and never returns to an action it has moved past.
pub proof fn lemma_each_action_at_most_once(
    cfg: TermConfig,
    check: Seq<char>,
    events: Seq<TermEvent>,
    action: TermAction,
)
    ensures
        actions_in_run(cfg, check, events, action) <= 1,
        action_rank(cfg.1) > action_rank(action) ==> actions_in_run(cfg, check, events, action)
            == 0,
    decreases events.len(),
{
    if events.len() > 0 {
        let next = term_step_spec(cfg, check, events.first());
        assert(action_rank(next.1) >= action_rank(cfg.1));
        if cfg.1 == action && event_answers(cfg.1, events.first()) {
            assert(action_rank(next.1) > action_rank(cfg.1));
        }
        lemma_each_action_at_most_once(next, check, events.drop_first(), action);
    }
}

/// Law: the stages run strictly in order. A run never moves back to an
/// earlier action, whatever the OS reports.
pub proof fn lemma_stage_order_is_kept(cfg: TermConfig, check: Seq<char>, events: Seq<TermEvent>)
    ensures
        action_rank(term_run(cfg, check, events).1) >= action_rank(cfg.1),
    decreases events.len(),
{
    if events.len() > 0 {
        let next = term_step_spec(cfg, check, events.first());
        assert(action_rank(next.1) >= action_rank(cfg.1));
        lemma_stage_order_is_kept(next, check, events.drop_first());
    }
}

/// Law: escalation comes only after the grace window. A run that delivers
/// the forced signal has blocked for the full grace window first, so the
/// time from the graceful request to the forced kill is at least the window.
pub proof fn lemma_forced_only_after_grace(cfg: TermConfig, check: Seq<char>, events: Seq<
    TermEvent,
>)
    requires
        action_rank(cfg.1) <= action_rank(TermAction::WaitGrace) || cfg.1 == TermAction::Stop,
    ensures
        actions_in_run(cfg, check, events, TermAction::SendForced) >= 1 ==> actions_in_run(
            cfg,
            check,
            events,
            TermAction::WaitGrace,
        ) >= 1,
    decreases events.len(),
{
    if events.len() > 0 {
        let next = term_step_spec(cfg, check, events.first());
        if cfg.1 == TermAction::WaitGrace && event_answers(cfg.1, events.first()) {
        } else {
            assert(action_rank(next.1) <= action_rank(TermAction::WaitGrace) || next.1
                == TermAction::Stop);
            lemma_forced_only_after_grace(next, check, events.drop_first());
        }
    }
}

/// Law: terminating an id that no live process has fails with
/// ProcessNotFound — never SignalError — and no signal is ever sent.
pub proof fn lemma_not_found_never_signals(check: Seq<char>, events: Seq<TermEvent>)
    requires
        events.len() > 0,
        events.first() == TermEvent::CmdlineAbsent,
    ensures
        term_run(term_init(), check, events).0 == TermStage::Failed(
            TerminateError::ProcessNotFound,
        ),
        actions_in_run(term_init(), check, events, TermAction::SendGraceful) == 0,
        actions_in_run(term_init(), check, events, TermAction::SendForced) == 0,
{
    let next = term_step_spec(term_init(), check, events.first());
    assert(next == (TermStage::Failed(TerminateError::ProcessNotFound), TermAction::Stop));
    lemma_run_unfold(term_init(), check, events);
    lemma_stopped_stays(next, check, events.drop_first());
}

/// Law: terminating a live process whose command line does not contain the
/// identity check fails with IdentityMismatch, and no signal is ever sent to
/// the unrelated process.
pub proof fn lemma_mismatch_never_signals(check: Seq<char>, cmdline: String, events: Seq<
    TermEvent,
>)
    requires
        events.len() > 0,
        events.first() == TermEvent::CmdlineIs(cmdline),
        !contains_seq(cmdline@, check),
    ensures
        term_run(term_init(), check, events).0 == TermStage::Failed(
            TerminateError::IdentityMismatch,
        ),
        actions_in_run(term_init(), check, events, TermAction::SendGraceful) == 0,
        actions_in_run(term_init(), check, events, TermAction::SendForced) == 0,
{
    let next = term_step_spec(term_init(), check, events.first());
    assert(next == (TermStage::Failed(TerminateError::IdentityMismatch), TermAction::Stop));
    lemma_run_unfold(term_init(), check, events);
    lemma_stopped_stays(next, check, events.drop_first());
}

/// Law: a target that matches the identity check, receives the graceful
/// signal, and exits within the grace window ends the call Done with exactly
/// one signal delivered — the forced kill is never issued.
pub proof fn lemma_voluntary_exit_one_signal(check: Seq<char>, cmdline: String, events: Seq<
    TermEvent,
>)
    requires
        events.len() >= 4,
        events[0] == TermEvent::CmdlineIs(cmdline),
        contains_seq(cmdline@, check),
        events[1] == TermEvent::GracefulSent(true),
        events[2] == TermEvent::GraceElapsed,
        events[3] == TermEvent::ProbeGone,
    ensures
        term_run(term_init(), check, events).0 == TermStage::Done,
        actions_in_run(term_init(), check, events, TermAction::SendGraceful) == 1,
        actions_in_run(term_init(), check, events, TermAction::SendForced) == 0,
{
    let e1 = events.drop_first();
    let e2 = e1.drop_first();
    let e3 = e2.drop_first();
    let e4 = e3.drop_first();
    assert(e1.first() == events[1]);
    assert(e2.first() == events[2]);
    assert(e3.first() == events[3]);
    let cfg1 = term_step_spec(term_init(), check, events.first());
    assert(cfg1 == (TermStage::SignalSent, TermAction::SendGraceful));
    let cfg2 = term_step_spec(cfg1, check, e1.first());
    assert(cfg2 == (TermStage::Waiting, TermAction::WaitGrace));
    let cfg3 = term_step_spec(cfg2, check, e2.first());
    assert(cfg3 == (TermStage::Escalating, TermAction::Probe));
    let cfg4 = term_step_spec(cfg3, check, e3.first());
    assert(cfg4 == (TermStage::Done, TermAction::Stop));
    lemma_run_unfold(term_init(), check, events);
    lemma_run_unfold(cfg1, check, e1);
    lemma_run_unfold(cfg2, check, e2);
    lemma_run_unfold(cfg3, check, e3);
    lemma_stopped_stays(cfg4, check, e4);
}

/// Law: a target that matches the identity check but ignores the graceful
/// signal gets exactly two signals — the graceful one, then, only after the
/// grace window, the forced one — and the call ends Done.
pub proof fn lemma_escalation_two_signals(check: Seq<char>, cmdline: String, events: Seq<
    TermEvent,
>)
    requires
        events.len() >= 5,
        events[0] == TermEvent::CmdlineIs(cmdline),
        contains_seq(cmdline@, check),
        events[1] == TermEvent::GracefulSent(true),
        events[2] == TermEvent::GraceElapsed,
        events[3] == TermEvent::ProbeAlive,
        events[4] == TermEvent::ForcedSent(true),
    ensures
        term_run(term_init(), check, events).0 == TermStage::Done,
        actions_in_run(term_init(), check, events, TermAction::SendGraceful) == 1,
        actions_in_run(term_init(), check, events, TermAction::SendForced) == 1,
        actions_in_run(term_init(), check, events, TermAction::WaitGrace) == 1,
{
    let e1 = events.drop_first();
    let e2 = e1.drop_first();
    let e3 = e2.drop_first();
    let e4 = e3.drop_first();
    let e5 = e4.drop_first();
    assert(e1.first() == events[1]);
    assert(e2.first() == events[2]);
    assert(e3.first() == events[3]);
    assert(e4.first() == events[4]);
    let cfg1 = term_step_spec(term_init(), check, events.first());
    assert(cfg1 == (TermStage::SignalSent, TermAction::SendGraceful));
    let cfg2 = term_step_spec(cfg1, check, e1.first());
    assert(cfg2 == (TermStage::Waiting, TermAction::WaitGrace));
    let cfg3 = term_step_spec(cfg2, check, e2.first());
    assert(cfg3 == (TermStage::Escalating, TermAction::Probe));
    let cfg4 = term_step_spec(cfg3, check, e3.first());
    assert(cfg4 == (TermStage::Escalating, TermAction::SendForced));
    let cfg5 = term_step_spec(cfg4, check, e4.first());
    assert(cfg5 == (TermStage::Done, TermAction::Stop));
    lemma_run_unfold(term_init(), check, events);
    lemma_run_unfold(cfg1, check, e1);
    lemma_run_unfold(cfg2, check, e2);
    lemma_run_unfold(cfg3, check, e3);
    lemma_run_unfold(cfg4, check, e4);
    lemma_stopped_stays(cfg5, check, e5);
}

} // verus!
