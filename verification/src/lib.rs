//! A local daemon supervisor: spawn a program detached from the terminal
//! with redirected standard streams, and terminate it later through an
//! identity-checked, escalating shutdown protocol.

use vstd::prelude::*;

pub mod config;
pub mod signals;
pub mod spawn;
pub mod terminate;

pub use config::Config;
pub use config::Daemon;
pub use config::DaemonView;
pub use config::default_dev_null;
pub use spawn::ForkOutcome;
pub use spawn::OutputMode;
pub use spawn::SpawnError;
pub use spawn::SpawnPlan;
pub use spawn::build_argv;
pub use spawn::has_nul;
pub use spawn::parent_spawn_result;
pub use spawn::prepare_spawn;
pub use spawn::ChildStep;
pub use spawn::child_next;
pub use terminate::GRACE_SECONDS;
pub use terminate::TermAction;
pub use terminate::TermConfig;
pub use terminate::TermEvent;
pub use terminate::TermStage;
pub use terminate::TerminateError;
pub use terminate::contains_sub;
pub use terminate::term_step;
pub use signals::PID_MAX;
pub use signals::escalate_termination;
pub use signals::request_termination;

verus! {

} // verus!
