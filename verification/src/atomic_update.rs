//! Updating a file of the project so that its content is never lost: the new content is written
//! beside it, the old file is set aside, and only when the new one stands in its place is the old
//! one removed.
use vstd::prelude::*;

use crate::text;

verus! {

/// What an update does next.
#[derive(Debug, Clone, Copy, PartialEq, Eq, Structural)]
pub enum UpdateStep {
    /// Create the temporary file.
    Create,
    /// Write the new content to it.
    Write,
    /// Look whether there is an old file.
    LookForOld,
    /// Rename the old file to the backup.
    SetAside,
    /// Rename the temporary file to the file.
    Commit,
    /// Look whether there is a backup, after the commit failed.
    LookForRescue,
    /// Rename the backup to the file.
    Restore,
    /// Look whether there is a backup, after the commit succeeded.
    LookForBackup,
    /// Remove the backup.
    RemoveBackup,
    Committed,
    Failed(UpdateFault),
}

/// The step that ended an update.
#[derive(Debug, Clone, Copy, PartialEq, Eq, Structural)]
pub enum UpdateFault {
    Create,
    Write,
    SetAside,
    Commit,
    RemoveBackup,
}

/// The step that follows; `succeeded` says of a look that it found a file.
pub open spec fn update_next(step: UpdateStep, succeeded: bool) -> UpdateStep {
    match step {
        UpdateStep::Create => if succeeded {
            UpdateStep::Write
        } else {
            UpdateStep::Failed(UpdateFault::Create)
        },
        UpdateStep::Write => if succeeded {
            UpdateStep::LookForOld
        } else {
            UpdateStep::Failed(UpdateFault::Write)
        },
        UpdateStep::LookForOld => if succeeded {
            UpdateStep::SetAside
        } else {
            UpdateStep::Commit
        },
        UpdateStep::SetAside => if succeeded {
            UpdateStep::Commit
        } else {
            UpdateStep::Failed(UpdateFault::SetAside)
        },
        UpdateStep::Commit => if succeeded {
            UpdateStep::LookForBackup
        } else {
            UpdateStep::LookForRescue
        },
        UpdateStep::LookForRescue => if succeeded {
            UpdateStep::Restore
        } else {
            UpdateStep::Failed(UpdateFault::Commit)
        },
        UpdateStep::Restore => UpdateStep::Failed(UpdateFault::Commit),
        UpdateStep::LookForBackup => if succeeded {
            UpdateStep::RemoveBackup
        } else {
            UpdateStep::Committed
        },
        UpdateStep::RemoveBackup => if succeeded {
            UpdateStep::Committed
        } else {
            UpdateStep::Failed(UpdateFault::RemoveBackup)
        },
        UpdateStep::Committed => step,
        UpdateStep::Failed(_) => step,
    }
}

/// Moves an update on after a step of it was done, or failed.
pub fn write_atomic(step: UpdateStep, succeeded: bool) -> (r: UpdateStep)
    ensures
        r == update_next(step, succeeded),
{
    match step {
        UpdateStep::Create => if succeeded {
            UpdateStep::Write
        } else {
            UpdateStep::Failed(UpdateFault::Create)
        },
        UpdateStep::Write => if succeeded {
            UpdateStep::LookForOld
        } else {
            UpdateStep::Failed(UpdateFault::Write)
        },
        UpdateStep::LookForOld => if succeeded {
            UpdateStep::SetAside
        } else {
            UpdateStep::Commit
        },
        UpdateStep::SetAside => if succeeded {
            UpdateStep::Commit
        } else {
            UpdateStep::Failed(UpdateFault::SetAside)
        },
        UpdateStep::Commit => if succeeded {
            UpdateStep::LookForBackup
        } else {
            UpdateStep::LookForRescue
        },
        UpdateStep::LookForRescue => if succeeded {
            UpdateStep::Restore
        } else {
            UpdateStep::Failed(UpdateFault::Commit)
        },
        UpdateStep::Restore => UpdateStep::Failed(UpdateFault::Commit),
        UpdateStep::LookForBackup => if succeeded {
            UpdateStep::RemoveBackup
        } else {
            UpdateStep::Committed
        },
        UpdateStep::RemoveBackup => if succeeded {
            UpdateStep::Committed
        } else {
            UpdateStep::Failed(UpdateFault::RemoveBackup)
        },
        UpdateStep::Committed => step,
        UpdateStep::Failed(_) => step,
    }
}

/// The name of a file beside the updated one. A file whose name cannot be shown gets a fixed one.
pub open spec fn sibling(name: Option<Seq<char>>, process: u32, ending: Seq<char>) -> Seq<char> {
    let shown = match name {
        Some(name) => name,
        None => "instances"@,
    };
    "."@ + shown + "."@ + text::decimal(process as nat) + ending
}

fn sibling_name(name: Option<&str>, process: u32, ending: &str) -> (r: String)
    ensures
        r@ == sibling(
            match name {
                Some(name) => Some(name@),
                None => None,
            },
            process,
            ending@,
        ),
{
    let shown: &str = match name {
        Some(name) => name,
        None => "instances",
    };
    let number = text::decimal_text(process as u128);
    ".".to_owned().concat(shown).concat(".").concat(number.as_str()).concat(ending)
}

/// The name of the temporary file.
pub fn temporary_name(name: Option<&str>, process: u32) -> (r: String)
    ensures
        r@ == sibling(
            match name {
                Some(name) => Some(name@),
                None => None,
            },
            process,
            ".tmp"@,
        ),
{
    sibling_name(name, process, ".tmp")
}

/// The name of the backup.
pub fn backup_name(name: Option<&str>, process: u32) -> (r: String)
    ensures
        r@ == sibling(
            match name {
                Some(name) => Some(name@),
                None => None,
            },
            process,
            ".bak"@,
        ),
{
    sibling_name(name, process, ".bak")
}

impl UpdateFault {
    /// What was attempted.
    pub open spec fn attempt(self) -> Seq<char> {
        match self {
            UpdateFault::Create => "Could not create '"@,
            UpdateFault::Write => "Could not write '"@,
            UpdateFault::SetAside => "Could not prepare atomic update '"@,
            UpdateFault::Commit => "Could not commit '"@,
            UpdateFault::RemoveBackup => "Could not remove update backup '"@,
        }
    }

    /// The complaint; the path is that of the file that the step was about.
    pub fn message(&self, path: &str, error: &str) -> (r: String)
        ensures
            r@ == self.attempt() + path@ + "': "@ + error@,
    {
        let attempt: &str = match *self {
            UpdateFault::Create => "Could not create '",
            UpdateFault::Write => "Could not write '",
            UpdateFault::SetAside => "Could not prepare atomic update '",
            UpdateFault::Commit => "Could not commit '",
            UpdateFault::RemoveBackup => "Could not remove update backup '",
        };
        attempt.to_owned().concat(path).concat("': ").concat(error)
    }
}

/// The three files of an update, each with its content where it exists.
pub struct UpdateFiles {
    pub target: Option<Seq<u8>>,
    pub temporary: Option<Seq<u8>>,
    pub backup: Option<Seq<u8>>,
}

/// The files after a step that succeeded, where `content` is to be written.
pub open spec fn files_after(step: UpdateStep, files: UpdateFiles, content: Seq<u8>) -> UpdateFiles {
    match step {
        UpdateStep::Write => UpdateFiles { temporary: Some(content), ..files },
        UpdateStep::SetAside => UpdateFiles { target: None, backup: files.target, ..files },
        UpdateStep::Commit => UpdateFiles { target: files.temporary, temporary: None, ..files },
        UpdateStep::Restore => UpdateFiles { target: files.backup, backup: None, ..files },
        UpdateStep::RemoveBackup => UpdateFiles { backup: None, ..files },
        _ => files,
    }
}

/// What a look finds is what is there.
pub open spec fn look_is_true(step: UpdateStep, files: UpdateFiles, succeeded: bool) -> bool {
    match step {
        UpdateStep::LookForOld => succeeded == (files.target is Some),
        UpdateStep::LookForRescue => succeeded == (files.backup is Some),
        UpdateStep::LookForBackup => succeeded == (files.backup is Some),
        _ => true,
    }
}

/// Where the old content and the new one are when a step is due.
pub open spec fn is_kept(
    step: UpdateStep,
    files: UpdateFiles,
    before: Option<Seq<u8>>,
    content: Seq<u8>,
) -> bool {
    match step {
        UpdateStep::Create => files.target == before,
        UpdateStep::Write => files.target == before,
        UpdateStep::LookForOld => files.target == before && files.temporary == Some(content),
        UpdateStep::SetAside => files.target == before && before is Some && files.temporary == Some(
            content,
        ),
        UpdateStep::Commit => files.temporary == Some(content) && (before is Some ==> files.backup
            == before),
        UpdateStep::LookForRescue => before is Some ==> files.backup == before,
        UpdateStep::Restore => before is Some ==> files.backup == before,
        UpdateStep::LookForBackup => files.target == Some(content),
        UpdateStep::RemoveBackup => files.target == Some(content),
        UpdateStep::Committed => files.target == Some(content),
        UpdateStep::Failed(UpdateFault::Commit) => before is Some ==> files.target == before
            || files.backup == before,
        UpdateStep::Failed(UpdateFault::RemoveBackup) => files.target == Some(content),
        UpdateStep::Failed(_) => files.target == before,
    }
}

/// An update never loses a file: from its beginning on, through every step that succeeds or fails
/// without effect, the old content stands at its place or in the backup until the new content has
/// taken the place. So an update that ends well leaves the new content, and one that fails leaves
/// the old content, in the file or in the backup, or the new one.
pub proof fn law_an_update_loses_nothing(
    step: UpdateStep,
    succeeded: bool,
    files: UpdateFiles,
    before: Option<Seq<u8>>,
    content: Seq<u8>,
)
    requires
        look_is_true(step, files, succeeded),
        is_kept(step, files, before, content),
    ensures
        is_kept(
            update_next(step, succeeded),
            if succeeded {
                files_after(step, files, content)
            } else {
                files
            },
            before,
            content,
        ),
{
}

/// How many steps an update still has at most.
pub open spec fn steps_left(step: UpdateStep) -> nat {
    match step {
        UpdateStep::Create => 7,
        UpdateStep::Write => 6,
        UpdateStep::LookForOld => 5,
        UpdateStep::SetAside => 4,
        UpdateStep::Commit => 3,
        UpdateStep::LookForRescue => 2,
        UpdateStep::LookForBackup => 2,
        UpdateStep::Restore => 1,
        UpdateStep::RemoveBackup => 1,
        _ => 0,
    }
}

/// An update ends: every step brings it closer to its end.
pub proof fn law_an_update_ends(step: UpdateStep, succeeded: bool)
    requires
        steps_left(step) > 0,
    ensures
        steps_left(update_next(step, succeeded)) < steps_left(step),
{
}

} // verus!
