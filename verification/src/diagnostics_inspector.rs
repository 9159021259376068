//! What the inspector shows of the remarks on a model asset: those that its import left, and those
//! of the loader that it is meant for.
use vstd::prelude::*;

use crate::asset_edits;
use crate::instance_inspector;
use crate::model_instances::GxMaterialDiagnostic;
use crate::text;

verus! {

/// How serious a remark is.
#[derive(Debug, Clone, Copy, PartialEq, Eq, Structural)]
pub enum Severity {
    Info,
    Warning,
    Error,
}

impl Severity {
    /// The name of the severity.
    pub open spec fn name(self) -> Seq<char> {
        match self {
            Severity::Info => "Info"@,
            Severity::Warning => "Warning"@,
            Severity::Error => "Error"@,
        }
    }

    /// The name of the severity.
    pub fn label(self) -> (r: &'static str)
        ensures
            r@ == self.name(),
    {
        match self {
            Severity::Info => "Info",
            Severity::Warning => "Warning",
            Severity::Error => "Error",
        }
    }

    /// The colour of a remark: red, green and blue.
    pub fn color(self) -> (r: (u8, u8, u8))
        ensures
            r == (match self {
                Severity::Info => (150u8, 180u8, 220u8),
                Severity::Warning => (235u8, 190u8, 92u8),
                Severity::Error => (255u8, 116u8, 104u8),
            }),
    {
        match self {
            Severity::Info => (150, 180, 220),
            Severity::Warning => (235, 190, 92),
            Severity::Error => (255, 116, 104),
        }
    }
}

/// A remark that the import of an asset left.
#[derive(Debug)]
pub struct ImportDiagnostic {
    pub severity: Severity,
    pub code: u32,
    /// The code as it is shown.
    pub code_name: String,
    pub message: String,
    pub acknowledgement_required: bool,
}

/// A remark as it is shown.
#[derive(Debug)]
pub struct DiagnosticRow {
    pub severity: Severity,
    pub title: String,
    pub message: String,
    /// The state of its check box, where it has one.
    pub acknowledged: Option<bool>,
}

/// The row shows a remark.
pub open spec fn is_row_of(
    row: DiagnosticRow,
    remark: ImportDiagnostic,
    acknowledged: Seq<u32>,
) -> bool {
    &&& row.severity == remark.severity
    &&& row.title@ == remark.severity.name() + " ["@ + remark.code_name@ + "]"@
    &&& row.message@ == remark.message@
    &&& row.acknowledged == (if remark.acknowledgement_required {
        Some(acknowledged.contains(remark.code))
    } else {
        None
    })
}

/// What the inspector shows.
#[derive(Debug)]
pub struct DiagnosticsView {
    pub flags_line: String,
    pub rows: Vec<DiagnosticRow>,
    /// What stands in place of the rows where there are none.
    pub no_rows: Option<&'static str>,
    /// The lines about the loader.
    pub target: Vec<String>,
    /// What stands in place of those lines where there are none.
    pub no_target: Option<&'static str>,
}

fn is_acknowledged(acknowledged: &[u32], code: u32) -> (r: bool)
    ensures
        r == acknowledged@.contains(code),
{
    let mut i: usize = 0;
    while i < acknowledged.len()
        invariant
            i <= acknowledged.len(),
            forall|j: int| 0 <= j < i ==> acknowledged@[j] != code,
        decreases acknowledged.len() - i,
    {
        if acknowledged[i] == code {
            assert(acknowledged@[i as int] == code);
            return true;
        }
        i += 1;
    }
    false
}

/// The remarks on an asset, for a loader with these flags; `acknowledged` are the codes that the
/// user has accepted.
pub fn model_diagnostics_inspector(
    loader_flags: u32,
    remarks: &[ImportDiagnostic],
    acknowledged: &[u32],
    target: &[GxMaterialDiagnostic],
) -> (r: DiagnosticsView)
    ensures
        r.flags_line@ == "Loader flags: 0x"@ + text::hex(loader_flags as nat, 8),
        r.rows@.len() == remarks@.len(),
        forall|i: int|
            0 <= i < remarks@.len() ==> is_row_of(
                #[trigger] r.rows@[i],
                remarks@[i],
                acknowledged@,
            ),
        r.no_rows is Some <==> remarks@.len() == 0,
        r.no_rows matches Some(line) ==> line@ == "No import diagnostics"@,
        text::views(r.target@) == Seq::new(
            target@.len(),
            |i: int| asset_edits::diagnostic_line(target@[i]),
        ),
        r.no_target is Some <==> target@.len() == 0,
        r.no_target matches Some(line) ==> line@
            == "Selected loader consumes the authored GX state."@,
{
    let mut rows: Vec<DiagnosticRow> = Vec::new();
    let mut i: usize = 0;
    while i < remarks.len()
        invariant
            i <= remarks.len(),
            rows@.len() == i,
            forall|j: int|
                0 <= j < i ==> is_row_of(#[trigger] rows@[j], remarks@[j], acknowledged@),
        decreases remarks.len() - i,
    {
        let remark = &remarks[i];
        let row = DiagnosticRow {
            severity: remark.severity,
            title: remark.severity.label().to_owned().concat(" [").concat(
                remark.code_name.as_str(),
            ).concat("]"),
            message: remark.message.as_str().to_owned(),
            acknowledged: if remark.acknowledgement_required {
                Some(is_acknowledged(acknowledged, remark.code))
            } else {
                None
            },
        };
        rows.push(row);
        i += 1;
    }
    DiagnosticsView {
        flags_line: instance_inspector::loader_flags_line(loader_flags),
        rows,
        no_rows: if remarks.len() == 0 {
            Some("No import diagnostics")
        } else {
            None
        },
        target: asset_edits::model_target_diagnostics(target),
        no_target: if target.len() == 0 {
            Some("Selected loader consumes the authored GX state.")
        } else {
            None
        },
    }
}

} // verus!
