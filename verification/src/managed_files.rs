//! Files of a managed build: finding them, reading the stage table and replacing outputs in one
//! step.
use vstd::prelude::*;

use crate::cancellation;
use crate::cancellation::{IoFault, IoFaultKind};
use crate::managed_build::{MAX_RUNTIME_STAGE_TABLE_BYTES, MAX_TEMPORARY_ATTEMPTS};
use crate::mirror::EntryKind;
use crate::stage_edits;
use crate::text;

verus! {

/// Why a directory has no unique entry of a name.
#[derive(Debug, Clone, Copy, PartialEq, Eq, Structural)]
pub enum ComponentFault {
    Missing,
    Ambiguous,
}

/// How many of the first `n` names are this name, up to case.
pub open spec fn matching_names(names: Seq<Seq<char>>, expected: Seq<char>, n: nat) -> nat
    decreases n,
{
    if n == 0 {
        0
    } else {
        matching_names(names, expected, (n - 1) as nat) + if text::same_ignoring_case(
            names[n - 1],
            expected,
        ) {
            1nat
        } else {
            0
        }
    }
}

/// Finds the entry of a directory with this name, up to case; there has to be exactly one.
pub fn find_case_insensitive_component(names: &[String], expected: &str) -> (r: Result<
    usize,
    ComponentFault,
>)
    ensures
        match r {
            Ok(i) => matching_names(text::views(names@), expected@, names@.len()) == 1 && i
                < names@.len() && text::same_ignoring_case(names@[i as int]@, expected@),
            Err(ComponentFault::Missing) => matching_names(
                text::views(names@),
                expected@,
                names@.len(),
            ) == 0,
            Err(ComponentFault::Ambiguous) => matching_names(
                text::views(names@),
                expected@,
                names@.len(),
            ) > 1,
        },
{
    let ghost views = text::views(names@);
    let mut found: Option<usize> = None;
    let mut count: usize = 0;
    let mut i: usize = 0;
    while i < names.len()
        invariant
            i <= names.len(),
            views == text::views(names@),
            count <= i,
            count == matching_names(views, expected@, i as nat),
            count == 0 <==> found is None,
            found matches Some(f) ==> f < i && text::same_ignoring_case(
                names@[f as int]@,
                expected@,
            ),
        decreases names.len() - i,
    {
        if text::eq_ignoring_case(names[i].as_str(), expected) {
            found = Some(i);
            count += 1;
        }
        i += 1;
    }
    match found {
        None => Err(ComponentFault::Missing),
        Some(f) => {
            if count == 1 {
                Ok(f)
            } else {
                Err(ComponentFault::Ambiguous)
            }
        },
    }
}

impl ComponentFault {
    /// The complaint.
    pub open spec fn text(
        self,
        description: Seq<char>,
        expected: Seq<char>,
        directory: Seq<char>,
    ) -> Seq<char> {
        match self {
            ComponentFault::Missing => "Could not find "@ + description + " component '"@
                + expected + "' beneath '"@ + directory + "'"@,
            ComponentFault::Ambiguous => "Found multiple case-insensitive "@ + description
                + " components named '"@ + expected + "' beneath '"@ + directory + "'"@,
        }
    }

    /// The complaint, with the directory as it is shown.
    pub fn message(&self, description: &str, expected: &str, directory: &str) -> (r: String)
        ensures
            r@ == self.text(description@, expected@, directory@),
    {
        match *self {
            ComponentFault::Missing => "Could not find ".to_owned().concat(description).concat(
                " component '",
            ).concat(expected).concat("' beneath '").concat(directory).concat("'"),
            ComponentFault::Ambiguous => "Found multiple case-insensitive ".to_owned().concat(
                description,
            ).concat(" components named '").concat(expected).concat("' beneath '").concat(
                directory,
            ).concat("'"),
        }
    }
}

/// Whether an entry found on the way has the right type: directories lead on, the last is a file.
pub fn component_type_fits(kind: EntryKind, is_last: bool) -> (r: bool)
    ensures
        r == (if is_last {
            kind == EntryKind::File
        } else {
            kind == EntryKind::Directory
        }),
{
    if is_last {
        kind == EntryKind::File
    } else {
        kind == EntryKind::Directory
    }
}

/// What reading a stage table comes to.
#[derive(Debug, Clone, Copy, PartialEq, Eq, Structural)]
pub enum TableStep {
    /// There is none, and there need not be one.
    Absent,
    /// Read the file.
    Read,
}

/// Why a stage table is not used.
#[derive(Debug, Clone, Copy, PartialEq, Eq, Structural)]
pub enum TableFault {
    Missing,
    Link,
    Irregular,
    TooLarge,
    NotExact,
}

/// What to do about the stage table at a path, from what stands there and how long it is. Only
/// the project's own table may be missing.
pub fn read_runtime_stage_table_file(found: Option<(EntryKind, u64)>, optional: bool) -> (r: Result<
    TableStep,
    TableFault,
>)
    ensures
        r == (match found {
            None => if optional {
                Ok::<TableStep, TableFault>(TableStep::Absent)
            } else {
                Err(TableFault::Missing)
            },
            Some((EntryKind::Link, _)) => Err(TableFault::Link),
            Some((EntryKind::File, length)) => if length > MAX_RUNTIME_STAGE_TABLE_BYTES {
                Err(TableFault::TooLarge)
            } else {
                Ok(TableStep::Read)
            },
            Some(_) => Err(TableFault::Irregular),
        }),
{
    match found {
        None => {
            if optional {
                Ok(TableStep::Absent)
            } else {
                Err(TableFault::Missing)
            }
        },
        Some((EntryKind::Link, _)) => Err(TableFault::Link),
        Some((EntryKind::File, length)) => {
            if length > MAX_RUNTIME_STAGE_TABLE_BYTES {
                Err(TableFault::TooLarge)
            } else {
                Ok(TableStep::Read)
            }
        },
        Some(_) => Err(TableFault::Irregular),
    }
}

/// Accepts a stage table that its typed form gives back byte for byte.
pub fn accept_stage_table(bytes: &[u8], rebuilt: &[u8]) -> (r: Result<(), TableFault>)
    ensures
        r == (if bytes@ == rebuilt@ {
            Ok::<(), TableFault>(())
        } else {
            Err(TableFault::NotExact)
        }),
{
    if stage_edits::same_bytes(bytes, rebuilt) {
        Ok(())
    } else {
        Err(TableFault::NotExact)
    }
}

impl TableFault {
    /// The complaint; `error` is what the system said of a missing file.
    pub open spec fn text(self, description: Seq<char>, path: Seq<char>, error: Seq<char>) -> Seq<
        char,
    > {
        match self {
            TableFault::Missing => "Could not inspect "@ + description + " '"@ + path
                + "': "@ + error,
            TableFault::Link => "Refusing "@ + description + " symlink or reparse point: "@ + path,
            TableFault::Irregular => description + " is not a regular file: "@ + path,
            TableFault::TooLarge => description + " '"@ + path
                + "' is larger than 16777216 bytes"@,
            TableFault::NotExact => description + " '"@ + path
                + "' is not a byte-exact typed JDrama document"@,
        }
    }

    /// The complaint, with the path as it is shown.
    pub fn message(&self, description: &str, path: &str, error: &str) -> (r: String)
        ensures
            r@ == self.text(description@, path@, error@),
    {
        match *self {
            TableFault::Missing => "Could not inspect ".to_owned().concat(description).concat(
                " '",
            ).concat(path).concat("': ").concat(error),
            TableFault::Link => "Refusing ".to_owned().concat(description).concat(
                " symlink or reparse point: ",
            ).concat(path),
            TableFault::Irregular => description.to_owned().concat(
                " is not a regular file: ",
            ).concat(path),
            TableFault::TooLarge => description.to_owned().concat(" '").concat(path).concat(
                "' is larger than 16777216 bytes",
            ),
            TableFault::NotExact => description.to_owned().concat(" '").concat(path).concat(
                "' is not a byte-exact typed JDrama document",
            ),
        }
    }
}

/// The stage table in effect: the project's own where it has one, else that of the extracted game.
pub fn read_effective_runtime_stage_table(
    project: Option<Vec<u8>>,
    base: Option<Vec<u8>>,
    base_path: &str,
) -> (r: Result<Vec<u8>, String>)
    ensures
        match (project, base) {
            (Some(table), _) => r == Ok::<Vec<u8>, String>(table),
            (None, Some(table)) => r == Ok::<Vec<u8>, String>(table),
            (None, None) => r matches Err(e) && e@
                == "Runtime stage archive table disappeared while reading '"@ + base_path@ + "'"@,
        },
{
    match project {
        Some(table) => Ok(table),
        None => match base {
            Some(table) => Ok(table),
            None => Err(
                "Runtime stage archive table disappeared while reading '".to_owned().concat(
                    base_path,
                ).concat("'"),
            ),
        },
    }
}

/// How an output is written.
#[derive(Debug, Clone, Copy, PartialEq, Eq, Structural)]
pub enum WriteStep {
    /// It holds the bytes already.
    Reuse,
    /// Write a temporary file and move it into place, over an existing file or not.
    Write { replaced: bool },
}

/// An existing output is no regular file.
pub open spec fn output_message(path: Seq<char>) -> Seq<char> {
    "existing managed output is not a regular non-link file: "@ + path
}

fn output_fault(path: &str) -> (r: IoFault)
    ensures
        r.kind == IoFaultKind::InvalidInput,
        r.message@ == output_message(path@),
{
    IoFault {
        kind: IoFaultKind::InvalidInput,
        message: "existing managed output is not a regular non-link file: ".to_owned().concat(path),
    }
}

/// Whether writing an output replaces something; what stands there may only be a file.
pub fn atomic_write_with_cancel(existing: Option<EntryKind>, path: &str) -> (r: Result<
    bool,
    IoFault,
>)
    ensures
        match existing {
            None => r == Ok::<bool, IoFault>(false),
            Some(EntryKind::File) => r == Ok::<bool, IoFault>(true),
            Some(_) => r matches Err(fault) && fault.kind == IoFaultKind::InvalidInput
                && fault.message@ == output_message(path@),
        },
{
    match existing {
        None => Ok(false),
        Some(EntryKind::File) => Ok(true),
        Some(_) => Err(output_fault(path)),
    }
}

/// How to write an output that may be there already, unchanged: `existing` is what stands at its
/// path, with its content where that is a file.
pub fn atomic_write_if_changed_with_cancel(
    existing: Option<EntryKind>,
    content: &[u8],
    bytes: &[u8],
    path: &str,
) -> (r: Result<WriteStep, IoFault>)
    ensures
        match existing {
            None => r == Ok::<WriteStep, IoFault>(WriteStep::Write { replaced: false }),
            Some(EntryKind::File) => r == Ok::<WriteStep, IoFault>(
                if content@ == bytes@ {
                    WriteStep::Reuse
                } else {
                    WriteStep::Write { replaced: true }
                },
            ),
            Some(_) => r matches Err(fault) && fault.kind == IoFaultKind::InvalidInput
                && fault.message@ == output_message(path@),
        },
{
    match existing {
        None => Ok(WriteStep::Write { replaced: false }),
        Some(EntryKind::File) => {
            if stage_edits::same_bytes(content, bytes) {
                Ok(WriteStep::Reuse)
            } else {
                Ok(WriteStep::Write { replaced: true })
            }
        },
        Some(_) => Err(output_fault(path)),
    }
}

/// The name of a temporary file beside an output.
pub open spec fn temporary_name(name: Seq<char>, process: u32, sequence: u64) -> Seq<char> {
    "."@ + name + ".sms-write-"@ + text::decimal(process as nat) + "-"@ + text::hex(
        sequence as nat,
        16,
    ) + ".tmp"@
}

/// The name of a temporary file beside an output.
pub fn temporary_path_candidate(name: &str, process: u32, sequence: u64) -> (r: String)
    ensures
        r@ == temporary_name(name@, process, sequence),
{
    let number = text::decimal_text(process as u128);
    let serial = text::hex_text(sequence, 16);
    ".".to_owned().concat(name).concat(".sms-write-").concat(number.as_str()).concat("-").concat(
        serial.as_str(),
    ).concat(".tmp")
}

/// What an attempt to create a temporary file came to.
#[derive(Debug, Clone, Copy, PartialEq, Eq, Structural)]
pub enum TemporaryOutcome {
    Created,
    AlreadyExists,
    Failed,
}

/// What a write does after such an attempt.
#[derive(Debug, Clone, Copy, PartialEq, Eq, Structural)]
pub enum TemporaryStep {
    /// Use the file.
    Use,
    /// Try the next name.
    Retry,
    /// Report the failure.
    Fail,
    /// Every name was taken.
    GiveUp,
}

/// What a write does after its attempt number `attempt`, counted from 0, to create a temporary
/// file.
pub fn create_temporary_file(attempt: u32, outcome: TemporaryOutcome) -> (r: TemporaryStep)
    ensures
        r == (match outcome {
            TemporaryOutcome::Created => TemporaryStep::Use,
            TemporaryOutcome::Failed => TemporaryStep::Fail,
            TemporaryOutcome::AlreadyExists => if attempt + 1 < MAX_TEMPORARY_ATTEMPTS {
                TemporaryStep::Retry
            } else {
                TemporaryStep::GiveUp
            },
        }),
{
    match outcome {
        TemporaryOutcome::Created => TemporaryStep::Use,
        TemporaryOutcome::Failed => TemporaryStep::Fail,
        TemporaryOutcome::AlreadyExists => {
            if attempt < MAX_TEMPORARY_ATTEMPTS - 1 {
                TemporaryStep::Retry
            } else {
                TemporaryStep::GiveUp
            }
        },
    }
}

/// The complaint when every temporary name was taken.
pub fn temporary_exhausted(destination: &str) -> (r: IoFault)
    ensures
        r.kind == IoFaultKind::AlreadyExists,
        r.message@ == "could not reserve a temporary output beside '"@ + destination@ + "'"@,
{
    IoFault {
        kind: IoFaultKind::AlreadyExists,
        message: "could not reserve a temporary output beside '".to_owned().concat(
            destination,
        ).concat("'"),
    }
}

/// The report of a write that failed: the cancellation itself, or what could not be done.
pub open spec fn output_report(action: Seq<char>, path: Seq<char>, error: Seq<char>) -> Seq<char> {
    if cancellation::MANAGED_BUILD_CANCELLED@.is_prefix_of(error) {
        error
    } else {
        action + " '"@ + path + "': "@ + error
    }
}

/// The report of a write that failed.
pub fn report_output_error(action: &str, path: &str, error: &str) -> (r: String)
    ensures
        r@ == output_report(action@, path@, error@),
{
    if cancellation::is_cancelled_error(error) {
        error.to_owned()
    } else {
        action.to_owned().concat(" '").concat(path).concat("': ").concat(error)
    }
}

/// A cancelled write reports the cancellation and nothing else.
pub proof fn law_cancelled_writes_report_the_cancellation(action: Seq<char>, path: Seq<char>)
    ensures
        output_report(action, path, cancellation::cancelled_report())
            == cancellation::cancelled_report(),
{
    cancellation::law_cancelled_report_is_recognised();
}

} // verus!
