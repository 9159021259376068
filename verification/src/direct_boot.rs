//! The steps that install an executable which boots straight into a stage.
use vstd::prelude::*;

use crate::cancellation;
use crate::managed_build::{ManagedDirectBootOutcome, PatchedExecutable};
use crate::stage_table::RuntimeStageTarget;

verus! {

/// A step of the installation.
#[derive(Debug, Clone, Copy, PartialEq, Eq, Structural)]
pub enum BootStep {
    Begin,
    FindTable,
    ReadTable,
    ParseTable,
    ResolveTarget,
    ReadExecutable,
    Patch,
    Install,
    Installed,
    Cancelled,
    /// The step that failed.
    Failed(BootFault),
}

/// What failed.
#[derive(Debug, Clone, Copy, PartialEq, Eq, Structural)]
pub enum BootFault {
    FindTable,
    ReadTable,
    ParseTable,
    ResolveTarget,
    ReadExecutable,
    Patch,
    Install,
}

/// The flag is looked at after these steps.
pub open spec fn can_be_cancelled_after(step: BootStep) -> bool {
    ||| step == BootStep::Begin
    ||| step == BootStep::ReadTable
    ||| step == BootStep::ReadExecutable
    ||| step == BootStep::Patch
    ||| step == BootStep::Install
}

/// The step after one that succeeded and was not cancelled.
pub open spec fn step_after(step: BootStep) -> BootStep {
    match step {
        BootStep::Begin => BootStep::FindTable,
        BootStep::FindTable => BootStep::ReadTable,
        BootStep::ReadTable => BootStep::ParseTable,
        BootStep::ParseTable => BootStep::ResolveTarget,
        BootStep::ResolveTarget => BootStep::ReadExecutable,
        BootStep::ReadExecutable => BootStep::Patch,
        BootStep::Patch => BootStep::Install,
        BootStep::Install => BootStep::Installed,
        _ => step,
    }
}

/// What a step that fails leads to.
pub open spec fn failure_of(step: BootStep) -> BootStep {
    match step {
        BootStep::FindTable => BootStep::Failed(BootFault::FindTable),
        BootStep::ReadTable => BootStep::Failed(BootFault::ReadTable),
        BootStep::ParseTable => BootStep::Failed(BootFault::ParseTable),
        BootStep::ResolveTarget => BootStep::Failed(BootFault::ResolveTarget),
        BootStep::ReadExecutable => BootStep::Failed(BootFault::ReadExecutable),
        BootStep::Patch => BootStep::Failed(BootFault::Patch),
        BootStep::Install => BootStep::Failed(BootFault::Install),
        _ => step,
    }
}

/// The step that follows: a failure ends the installation, and so does the cancel flag where it is
/// looked at.
pub open spec fn boot_next(step: BootStep, succeeded: bool, cancelled: bool) -> BootStep {
    if !succeeded && failure_of(step) != step {
        failure_of(step)
    } else if cancelled && can_be_cancelled_after(step) {
        BootStep::Cancelled
    } else {
        step_after(step)
    }
}

/// The step that follows.
pub fn prepare_managed_direct_boot(step: BootStep, succeeded: bool, cancelled: bool) -> (r: BootStep)
    ensures
        r == boot_next(step, succeeded, cancelled),
{
    match step {
        BootStep::Begin => if cancelled {
            BootStep::Cancelled
        } else {
            BootStep::FindTable
        },
        BootStep::FindTable => if succeeded {
            BootStep::ReadTable
        } else {
            BootStep::Failed(BootFault::FindTable)
        },
        BootStep::ReadTable => if !succeeded {
            BootStep::Failed(BootFault::ReadTable)
        } else if cancelled {
            BootStep::Cancelled
        } else {
            BootStep::ParseTable
        },
        BootStep::ParseTable => if succeeded {
            BootStep::ResolveTarget
        } else {
            BootStep::Failed(BootFault::ParseTable)
        },
        BootStep::ResolveTarget => if succeeded {
            BootStep::ReadExecutable
        } else {
            BootStep::Failed(BootFault::ResolveTarget)
        },
        BootStep::ReadExecutable => if !succeeded {
            BootStep::Failed(BootFault::ReadExecutable)
        } else if cancelled {
            BootStep::Cancelled
        } else {
            BootStep::Patch
        },
        BootStep::Patch => if !succeeded {
            BootStep::Failed(BootFault::Patch)
        } else if cancelled {
            BootStep::Cancelled
        } else {
            BootStep::Install
        },
        BootStep::Install => if !succeeded {
            BootStep::Failed(BootFault::Install)
        } else if cancelled {
            BootStep::Cancelled
        } else {
            BootStep::Installed
        },
        _ => step,
    }
}

/// The message about a failed step: `path` is the file it was about, `error` what was reported.
/// Finding the table and resolving the target report in their own words, and so does a write that
/// was cancelled.
pub open spec fn fault_text(fault: BootFault, path: Seq<char>, error: Seq<char>) -> Seq<char> {
    match fault {
        BootFault::FindTable | BootFault::ResolveTarget => error,
        BootFault::ReadTable => "Could not read runtime stage archive table '"@ + path + "': "@
            + error,
        BootFault::ParseTable => "Could not parse runtime stage archive table '"@ + path + "': "@
            + error,
        BootFault::ReadExecutable => "Could not read managed game executable '"@ + path + "': "@
            + error,
        BootFault::Patch => "Could not prepare version-independent direct boot from '"@ + path
            + "': "@ + error,
        BootFault::Install => if cancellation::MANAGED_BUILD_CANCELLED@.is_prefix_of(error) {
            error
        } else {
            "Could not install managed direct-boot executable '"@ + path + "': "@ + error
        },
    }
}

fn quoted(opening: &str, path: &str, error: &str) -> (r: String)
    ensures
        r@ == opening@ + path@ + "': "@ + error@,
{
    opening.to_owned().concat(path).concat("': ").concat(error)
}

impl BootFault {
    /// The message about a failed step.
    pub fn message(&self, path: &str, error: &str) -> (r: String)
        ensures
            r@ == fault_text(*self, path@, error@),
    {
        match *self {
            BootFault::FindTable => error.to_owned(),
            BootFault::ResolveTarget => error.to_owned(),
            BootFault::ReadTable => quoted(
                "Could not read runtime stage archive table '",
                path,
                error,
            ),
            BootFault::ParseTable => quoted(
                "Could not parse runtime stage archive table '",
                path,
                error,
            ),
            BootFault::ReadExecutable => quoted(
                "Could not read managed game executable '",
                path,
                error,
            ),
            BootFault::Patch => quoted(
                "Could not prepare version-independent direct boot from '",
                path,
                error,
            ),
            BootFault::Install => if cancellation::is_cancelled_error(error) {
                error.to_owned()
            } else {
                quoted("Could not install managed direct-boot executable '", path, error)
            },
        }
    }
}

/// The result of an installation.
pub fn installed_boot(
    target: RuntimeStageTarget,
    matching_contexts: usize,
    executable: PatchedExecutable,
    reused: bool,
) -> (r: ManagedDirectBootOutcome)
    ensures
        r.target == target,
        r.matching_contexts == matching_contexts,
        r.executable == executable,
        r.reused == reused,
{
    ManagedDirectBootOutcome { target, matching_contexts, reused, executable }
}

/// The step after some answers.
pub open spec fn boot_run(answers: Seq<(bool, bool)>) -> BootStep
    decreases answers.len(),
{
    if answers.len() == 0 {
        BootStep::Begin
    } else {
        boot_next(boot_run(answers.drop_last()), answers.last().0, answers.last().1)
    }
}

/// How many steps lie behind; an installation that has ended is past all of them.
pub open spec fn progress(step: BootStep) -> int {
    match step {
        BootStep::Begin => 0,
        BootStep::FindTable => 1,
        BootStep::ReadTable => 2,
        BootStep::ParseTable => 3,
        BootStep::ResolveTarget => 4,
        BootStep::ReadExecutable => 5,
        BootStep::Patch => 6,
        BootStep::Install => 7,
        _ => 8,
    }
}

/// Every installation ends after eight steps at most, and a cancelled one only because the flag
/// was set.
pub proof fn law_installation_ends(answers: Seq<(bool, bool)>)
    ensures
        progress(boot_run(answers)) >= answers.len() || progress(boot_run(answers)) == 8,
        boot_run(answers) == BootStep::Cancelled ==> exists|i: int|
            0 <= i < answers.len() && (#[trigger] answers[i]).1,
    decreases answers.len(),
{
    if answers.len() > 0 {
        let rest = answers.drop_last();
        law_installation_ends(rest);
        if boot_run(answers) == BootStep::Cancelled {
            if boot_run(rest) == BootStep::Cancelled {
                let i = choose|i: int| 0 <= i < rest.len() && (#[trigger] rest[i]).1;
                assert(answers[i].1);
            } else {
                assert(answers[answers.len() - 1].1);
            }
        }
    }
}

} // verus!
