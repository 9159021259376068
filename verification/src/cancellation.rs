//! Cancelling a managed build between two of its steps.
use vstd::prelude::*;

use crate::text;

use std::sync::atomic::AtomicBool;

verus! {

/// How every report of a cancelled build begins.
pub const MANAGED_BUILD_CANCELLED: &'static str = "Managed game build cancelled";

/// What a cancelled build reports.
pub open spec fn cancelled_report() -> Seq<char> {
    MANAGED_BUILD_CANCELLED@
        + "; partial files, if any, remain only in the editor-owned managed build directory and will be reconciled by the next build"@
}

/// The kinds of file-system faults that the library reports itself.
#[derive(Debug, Clone, Copy, PartialEq, Eq, Structural)]
pub enum IoFaultKind {
    Interrupted,
    AlreadyExists,
    InvalidInput,
}

/// A fault of a step that touches files.
#[derive(Debug)]
pub struct IoFault {
    pub kind: IoFaultKind,
    pub message: String,
}

/// What a step does when the cancel flag reads `is_set`.
pub fn cancellation_of(is_set: bool) -> (r: Result<(), String>)
    ensures
        r is Err <==> is_set,
        r matches Err(report) ==> report@ == cancelled_report(),
{
    if is_set {
        Err(
            MANAGED_BUILD_CANCELLED.to_owned().concat(
                "; partial files, if any, remain only in the editor-owned managed build directory and will be reconciled by the next build",
            ),
        )
    } else {
        Ok(())
    }
}

/// Stops a build whose cancel flag is set. The flag is shared with the user interface, so a call
/// promises only what an error says.
pub fn check_cancelled(cancelled: &AtomicBool) -> (r: Result<(), String>)
    ensures
        r matches Err(report) ==> report@ == cancelled_report(),
{
    let is_set: bool = cancelled.load(std::sync::atomic::Ordering::Acquire);
    cancellation_of(is_set)
}

/// Stops a file operation whose cancel flag is set.
pub fn check_cancelled_io(cancelled: &AtomicBool) -> (r: Result<(), IoFault>)
    ensures
        r matches Err(fault) ==> fault.kind == IoFaultKind::Interrupted && fault.message@
            == cancelled_report(),
{
    match check_cancelled(cancelled) {
        Ok(()) => Ok(()),
        Err(message) => Err(IoFault { kind: IoFaultKind::Interrupted, message }),
    }
}

/// Whether an error reports a cancelled build.
pub fn is_cancelled_error(error: &str) -> (r: bool)
    ensures
        r == MANAGED_BUILD_CANCELLED@.is_prefix_of(error@),
{
    text::starts_with(error, MANAGED_BUILD_CANCELLED)
}

/// Stops a model export whose cancel flag is set; an export without a flag never stops.
pub fn check_model_export_cancelled(cancelled: Option<&AtomicBool>) -> (r: Result<(), String>)
    ensures
        cancelled is None ==> r is Ok,
        r matches Err(report) ==> report@ == cancelled_report(),
{
    match cancelled {
        Some(cancelled) => check_cancelled(cancelled),
        None => Ok(()),
    }
}

/// Every report of a cancelled build is recognised as one.
pub proof fn law_cancelled_report_is_recognised()
    ensures
        MANAGED_BUILD_CANCELLED@.is_prefix_of(cancelled_report()),
{
    assert(cancelled_report().take(MANAGED_BUILD_CANCELLED@.len() as int)
        =~= MANAGED_BUILD_CANCELLED@);
}

} // verus!
