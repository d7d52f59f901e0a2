//! The spawn half of the process lifecycle engine.
//!
//! Spawning forks the caller: the parent immediately returns the child's
//! process id, while the child detaches from the terminal, redirects its
//! standard streams, and replaces its image with the target program. Only
//! pre-fork validation and the fork itself can fail toward the caller;
//! everything after the split is observable only through the child's own
//! exit status.
//!
//! What can be decided from plain values stands here, verified: input
//! validation, the argument vector, the redirection plan, and the order of
//! the child's pre-exec steps. The actual fork, descriptor duplication and
//! image replacement are driven outside the library, following the plan.

use vstd::prelude::*;
use vstd::string::StrSliceExecFns;

verus! {

/// A string can be handed to the OS as a path or argument: it holds no
/// embedded NUL character.
pub open spec fn no_nul(s: Seq<char>) -> bool {
    forall|i: int| 0 <= i < s.len() ==> s[i] != '\0'
}

/// All spawn inputs are valid: executable path, every argument, and the
/// output target are NUL-free.
pub open spec fn spawn_inputs_valid(exe: Seq<char>, args: Seq<Seq<char>>, output: Seq<char>) -> bool {
    &&& no_nul(exe)
    &&& forall|i: int| 0 <= i < args.len() ==> no_nul(#[trigger] args[i])
    &&& no_nul(output)
}

/// The argument vector handed to the new image: the executable path itself
/// in first position, then the caller's arguments.
pub open spec fn argv_spec(exe: Seq<char>, args: Seq<Seq<char>>) -> Seq<Seq<char>> {
    seq![exe] + args
}

/// Whether `s` holds an embedded NUL character.
pub fn has_nul(s: &str) -> (r: bool)
    ensures
        r == !no_nul(s@),
{
    let len = s.unicode_len();
    let mut i: usize = 0;
    while i < len
        invariant
            i <= len,
            len == s@.len(),
            forall|k: int| 0 <= k < i ==> s@[k] != '\0',
        decreases len - i,
    {
        if s.get_char(i) == '\0' {
            return true;
        }
        i = i + 1;
    }
    false
}

/// Why a spawn request failed toward the caller.
#[derive(Clone, Copy, Debug, PartialEq, Eq, Structural)]
pub enum SpawnError {
    /// An input string holds an embedded NUL byte and cannot name a path
    /// or argument.
    Validation,
    /// The OS refused to duplicate the process.
    Fork,
}

/// How the spawned daemon's standard output and error are redirected.
pub enum OutputMode {
    /// Discard: both streams go to the null device.
    Discard,
    /// Append to this log file, creating it if absent and never truncating,
    /// so prior content survives restarts.
    Append(String),
}

/// Everything the child needs for its pre-exec setup, fixed before the fork.
pub struct SpawnPlan {
    /// The argument vector for the new image.
    pub argv: Vec<String>,
    /// Where standard output and error go.
    pub output: OutputMode,
}

/// Build the argument vector: the executable path first, then the arguments.
pub fn build_argv(exe: &String, args: &Vec<String>) -> (r: Vec<String>)
    ensures
        r.deep_view() == argv_spec(exe@, args.deep_view()),
{
    let mut argv: Vec<String> = Vec::new();
    argv.push(exe.clone());
    let mut i: usize = 0;
    while i < args.len()
        invariant
            i <= args.len(),
            argv.deep_view().len() == 1 + i,
            argv.deep_view()[0] == exe@,
            forall|k: int| 0 <= k < i ==> argv.deep_view()[k + 1] == args.deep_view()[k],
        decreases args.len() - i,
    {
        argv.push(args[i].clone());
        i = i + 1;
    }
    proof {
        assert(argv.deep_view() =~= argv_spec(exe@, args.deep_view()));
    }
    argv
}

/// Validate the inputs and fix the spawn plan: the argument vector and the
/// redirection of the child's output streams. Fails exactly when some input
/// holds an embedded NUL; the null-device sentinel selects discarding, any
/// other target is appended to.
pub fn prepare_spawn(exe: &String, args: &Vec<String>, output: &String) -> (r: Result<
    SpawnPlan,
    SpawnError,
>)
    ensures
        r is Ok <==> spawn_inputs_valid(exe@, args.deep_view(), output@),
        r is Err ==> r == Err::<SpawnPlan, SpawnError>(SpawnError::Validation),
        r matches Ok(p) ==> {
            &&& p.argv.deep_view() == argv_spec(exe@, args.deep_view())
            &&& (output@ == "/dev/null"@ ==> p.output is Discard)
            &&& (output@ != "/dev/null"@ ==> (p.output matches OutputMode::Append(f) && f@
                == output@))
        },
{
    if has_nul(exe.as_str()) {
        return Err(SpawnError::Validation);
    }
    let mut i: usize = 0;
    while i < args.len()
        invariant
            i <= args.len(),
            forall|k: int| 0 <= k < i ==> no_nul(#[trigger] args.deep_view()[k]),
        decreases args.len() - i,
    {
        proof {
            assert(args.deep_view()[i as int] == args@[i as int]@);
        }
        if has_nul(args[i].as_str()) {
            return Err(SpawnError::Validation);
        }
        i = i + 1;
    }
    if has_nul(output.as_str()) {
        return Err(SpawnError::Validation);
    }
    let argv = build_argv(exe, args);
    let mode = if *output == crate::config::default_dev_null() {
        OutputMode::Discard
    } else {
        OutputMode::Append(output.clone())
    };
    Ok(SpawnPlan { argv, output: mode })
}

/// How the fork-style duplication came out, as the parent sees it.
#[derive(Clone, Copy, Debug, PartialEq, Eq, Structural)]
pub enum ForkOutcome {
    /// The parent context: the child exists under this process id.
    Parent(u32),
    /// The OS refused to duplicate the process.
    Failed,
}

/// The parent's half of the spawn contract: the moment the duplication
/// reports a child, its id is the result; a failed duplication is the only
/// parent-visible error after validation.
pub fn parent_spawn_result(fork: ForkOutcome) -> (r: Result<u32, SpawnError>)
    ensures
        fork matches ForkOutcome::Parent(pid) ==> r == Ok::<u32, SpawnError>(pid),
        fork is Failed ==> r == Err::<u32, SpawnError>(SpawnError::Fork),
{
    match fork {
        ForkOutcome::Parent(pid) => Ok(pid),
        ForkOutcome::Failed => Err(SpawnError::Fork),
    }
}

/// The child's pre-exec setup, one step at a time, in the only order the
/// engine allows: detach from the terminal, silence standard input, open the
/// output target, point standard output and then standard error at it, and
/// only then replace the image.
#[derive(Clone, Copy, Debug, PartialEq, Eq, Structural)]
pub enum ChildStep {
    /// Start a new session: no controlling terminal.
    StartSession,
    /// Open the null device read-only and make it standard input.
    StdinFromNull,
    /// Open the plan's output target (null device, or append-mode log file).
    OpenOutput,
    /// Duplicate the output descriptor onto standard output.
    DupStdout,
    /// Duplicate the output descriptor onto standard error.
    DupStderr,
    /// Replace the process image with the plan's argument vector.
    Exec,
    /// A step failed (or the exec returned): the child exits with a
    /// non-zero status, observable only through its own exit.
    ExitFailure,
}

/// Where the child's setup goes after the current step reported `ok`.
pub open spec fn child_next_spec(step: ChildStep, ok: bool) -> ChildStep {
    match step {
        ChildStep::StartSession => if ok {
            ChildStep::StdinFromNull
        } else {
            ChildStep::ExitFailure
        },
        ChildStep::StdinFromNull => if ok {
            ChildStep::OpenOutput
        } else {
            ChildStep::ExitFailure
        },
        ChildStep::OpenOutput => if ok {
            ChildStep::DupStdout
        } else {
            ChildStep::ExitFailure
        },
        ChildStep::DupStdout => if ok {
            ChildStep::DupStderr
        } else {
            ChildStep::ExitFailure
        },
        ChildStep::DupStderr => if ok {
            ChildStep::Exec
        } else {
            ChildStep::ExitFailure
        },
        ChildStep::Exec => ChildStep::ExitFailure,
        ChildStep::ExitFailure => ChildStep::ExitFailure,
    }
}

/// Advance the child's setup by one step.
pub fn child_next(step: ChildStep, ok: bool) -> (r: ChildStep)
    ensures
        r == child_next_spec(step, ok),
{
    match step {
        ChildStep::StartSession => if ok {
            ChildStep::StdinFromNull
        } else {
            ChildStep::ExitFailure
        },
        ChildStep::StdinFromNull => if ok {
            ChildStep::OpenOutput
        } else {
            ChildStep::ExitFailure
        },
        ChildStep::OpenOutput => if ok {
            ChildStep::DupStdout
        } else {
            ChildStep::ExitFailure
        },
        ChildStep::DupStdout => if ok {
            ChildStep::DupStderr
        } else {
            ChildStep::ExitFailure
        },
        ChildStep::DupStderr => if ok {
            ChildStep::Exec
        } else {
            ChildStep::ExitFailure
        },
        ChildStep::Exec => ChildStep::ExitFailure,
        ChildStep::ExitFailure => ChildStep::ExitFailure,
    }
}

/// Where the setup stands after a whole sequence of step outcomes.
pub open spec fn child_run(step: ChildStep, oks: Seq<bool>) -> ChildStep
    decreases oks.len(),
{
    if oks.len() == 0 {
        step
    } else {
        child_run(child_next_spec(step, oks.first()), oks.drop_first())
    }
}

/// How many steps still separate the setup from the image replacement.
pub open spec fn child_rank(step: ChildStep) -> nat {
    match step {
        ChildStep::StartSession => 5,
        ChildStep::StdinFromNull => 4,
        ChildStep::OpenOutput => 3,
        ChildStep::DupStdout => 2,
        ChildStep::DupStderr => 1,
        ChildStep::Exec => 0,
        ChildStep::ExitFailure => 0,
    }
}

/// A failed setup never recovers: once a step fails, the child only exits.
pub proof fn lemma_child_failure_is_final(oks: Seq<bool>)
    ensures
        child_run(ChildStep::ExitFailure, oks) == ChildStep::ExitFailure,
    decreases oks.len(),
{
    if oks.len() > 0 {
        lemma_child_failure_is_final(oks.drop_first());
    }
}

/// The image is replaced only after the full setup: a run that reaches the
/// exec step saw every earlier step succeed — session detachment and all
/// descriptor redirections come strictly before the new image runs.
pub proof fn lemma_exec_needs_full_setup(step: ChildStep, oks: Seq<bool>)
    requires
        child_run(step, oks) is Exec,
    ensures
        oks.len() == child_rank(step),
        forall|k: int| 0 <= k < oks.len() ==> oks[k],
    decreases oks.len(),
{
    if oks.len() == 0 {
    } else {
        let next = child_next_spec(step, oks.first());
        if next is ExitFailure {
            lemma_child_failure_is_final(oks.drop_first());
        } else {
            lemma_exec_needs_full_setup(next, oks.drop_first());
            assert(oks.first());
            assert forall|k: int| 0 <= k < oks.len() implies oks[k] by {
                if k > 0 {
                    assert(oks.drop_first()[k - 1] == oks[k]);
                }
            }
        }
    }
}

} // verus!
