//! The order of the steps of one activation.
//!
//! The program around this library does the work of each step and reports how
//! it went; [`switch_configuration`] says which step comes next.

use vstd::prelude::*;
use crate::config::ConfigType;

verus! {

/// The steps of an activation. Each but the three resting ones names the work
/// that is under way.
#[derive(Debug, Clone, Copy, PartialEq, Eq, Structural)]
pub enum Step {
    /// Nothing has been done yet.
    Idle,
    /// Scrubbing the ambient settings and writing the local settings.
    Reconciling,
    /// Copying the profile over the companion's active configuration.
    CopyingProfile,
    /// Running the companion's restart command to its end.
    RestartingCompanion,
    /// Computing the environment and starting the assistant.
    Launching,
    /// Waiting for the assistant to exit.
    Running,
    /// Running the companion's stop command.
    StoppingCompanion,
    /// Removing the local settings.
    Cleanup,
    /// Waiting for one key before the terminal is handed back.
    Pausing,
    /// The activation is over.
    Finished,
    /// The activation was given up; the failure is reported to the user.
    Aborted,
}

/// How the work of a step went.
#[derive(Debug, Clone, Copy, PartialEq, Eq, Structural)]
pub enum Outcome {
    Succeeded,
    Failed,
}

/// Whether a step is attempted once and its failure only logged.
pub open spec fn is_best_effort(step: Step) -> bool {
    step == Step::RestartingCompanion || step == Step::StoppingCompanion || step == Step::Cleanup
}

/// The step that follows `step` when its work went well.
pub open spec fn step_after(kind: ConfigType, step: Step) -> Step {
    match step {
        Step::Idle => match kind {
            ConfigType::Claude => Step::Reconciling,
            ConfigType::CodeRouter => Step::CopyingProfile,
        },
        Step::Reconciling => Step::Launching,
        Step::CopyingProfile => Step::RestartingCompanion,
        Step::RestartingCompanion => Step::Launching,
        Step::Launching => Step::Running,
        Step::Running => match kind {
            ConfigType::Claude => Step::Cleanup,
            ConfigType::CodeRouter => Step::StoppingCompanion,
        },
        Step::StoppingCompanion => Step::Pausing,
        Step::Cleanup => Step::Pausing,
        Step::Pausing => Step::Finished,
        Step::Finished => Step::Finished,
        Step::Aborted => Step::Aborted,
    }
}

/// The step that follows `step` after `outcome`. A failure ends the activation,
/// except in a best-effort step, which is followed as if it had gone well, and
/// in a resting step, where there was no work to fail.
pub open spec fn next_step(kind: ConfigType, step: Step, outcome: Outcome) -> Step {
    if outcome == Outcome::Failed && !is_best_effort(step) && step != Step::Idle && step
        != Step::Finished {
        Step::Aborted
    } else {
        step_after(kind, step)
    }
}

/// How many steps an activation can still take.
pub open spec fn steps_left(step: Step) -> nat {
    match step {
        Step::Idle => 7,
        Step::Reconciling => 5,
        Step::CopyingProfile => 6,
        Step::RestartingCompanion => 5,
        Step::Launching => 4,
        Step::Running => 3,
        Step::StoppingCompanion => 2,
        Step::Cleanup => 2,
        Step::Pausing => 1,
        Step::Finished => 0,
        Step::Aborted => 0,
    }
}

/// Whether a step occurs in the activation of a profile of the given kind.
pub open spec fn on_path(kind: ConfigType, step: Step) -> bool {
    match kind {
        ConfigType::Claude => step != Step::CopyingProfile && step != Step::RestartingCompanion
            && step != Step::StoppingCompanion,
        ConfigType::CodeRouter => step != Step::Reconciling && step != Step::Cleanup,
    }
}

/// The assistant is started only once the companion's restart has come to its
/// end (for the router kind) or the settings are reconciled (for the first
/// kind); the companion is stopped, and the local settings are removed, only
/// once the assistant has exited, and then whatever the wait reported of it.
pub proof fn lemma_order_of_steps(kind: ConfigType, step: Step, outcome: Outcome)
    requires
        on_path(kind, step),
    ensures
        on_path(kind, next_step(kind, step, outcome)),
        step == Step::Running && outcome == Outcome::Succeeded ==> next_step(kind, step, outcome)
            == (match kind {
            ConfigType::Claude => Step::Cleanup,
            ConfigType::CodeRouter => Step::StoppingCompanion,
        }),
        next_step(kind, step, outcome) == Step::Launching ==> (match kind {
            ConfigType::Claude => step == Step::Reconciling && outcome == Outcome::Succeeded,
            ConfigType::CodeRouter => step == Step::RestartingCompanion,
        }),
        next_step(kind, step, outcome) == Step::StoppingCompanion ==> kind
            == ConfigType::CodeRouter && step == Step::Running && outcome == Outcome::Succeeded,
        next_step(kind, step, outcome) == Step::Cleanup ==> kind == ConfigType::Claude && step
            == Step::Running && outcome == Outcome::Succeeded,
        next_step(kind, step, outcome) == Step::Reconciling ==> kind == ConfigType::Claude,
        next_step(kind, step, outcome) == Step::CopyingProfile ==> kind == ConfigType::CodeRouter,
        next_step(kind, step, outcome) == Step::RestartingCompanion ==> step
            == Step::CopyingProfile && outcome == Outcome::Succeeded,
        next_step(kind, step, outcome) == Step::Running ==> step == Step::Launching && outcome
            == Outcome::Succeeded,
{
}

/// An activation ends: every step leads to one with fewer steps left, until it
/// rests in `Finished` or `Aborted`.
pub proof fn lemma_activation_ends(kind: ConfigType, step: Step, outcome: Outcome)
    ensures
        step != Step::Finished && step != Step::Aborted ==> steps_left(
            next_step(kind, step, outcome),
        ) < steps_left(step),
        step == Step::Finished || step == Step::Aborted ==> next_step(kind, step, outcome) == step,
{
}

/// The step that follows `step` in the activation of a profile of the given
/// kind, once the work of `step` has ended with `outcome`.
pub fn switch_configuration(kind: ConfigType, step: Step, outcome: Outcome) -> (next: Step)
    ensures
        next == next_step(kind, step, outcome),
        on_path(kind, step) ==> on_path(kind, next),
{
    let failed = match outcome {
        Outcome::Succeeded => false,
        Outcome::Failed => true,
    };
    match step {
        Step::Idle => match kind {
            ConfigType::Claude => Step::Reconciling,
            ConfigType::CodeRouter => Step::CopyingProfile,
        },
        Step::Reconciling => if failed {
            Step::Aborted
        } else {
            Step::Launching
        },
        Step::CopyingProfile => if failed {
            Step::Aborted
        } else {
            Step::RestartingCompanion
        },
        Step::RestartingCompanion => Step::Launching,
        Step::Launching => if failed {
            Step::Aborted
        } else {
            Step::Running
        },
        Step::Running => if failed {
            Step::Aborted
        } else {
            match kind {
                ConfigType::Claude => Step::Cleanup,
                ConfigType::CodeRouter => Step::StoppingCompanion,
            }
        },
        Step::StoppingCompanion => Step::Pausing,
        Step::Cleanup => Step::Pausing,
        Step::Pausing => if failed {
            Step::Aborted
        } else {
            Step::Finished
        },
        Step::Finished => Step::Finished,
        Step::Aborted => Step::Aborted,
    }
}

} // verus!
