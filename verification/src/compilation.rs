//! The state one compilation run owns, threaded exclusively through every
//! pipeline stage and consumed at the very end to compute the exit status.

use vstd::prelude::*;

use crate::ast::{SliceFile, SliceFileView};
use crate::diagnostics::{has_error_diag, DiagnosticReporter, DiagnosticView};

verus! {

/// The loaded files (keyed by filename, in load order) plus the one
/// run-scoped diagnostic reporter. There is never more than one live
/// reference to this state: each stage takes it by value and returns it.
#[derive(Debug, PartialEq, Eq)]
pub struct CompilationData {
    pub files: Vec<SliceFile>,
    pub diagnostic_reporter: DiagnosticReporter,
}

/// Spec-level mirror of `CompilationData`.
#[verifier::ext_equal]
pub struct CompilationDataView {
    pub files: Seq<SliceFileView>,
    pub diagnostics: Seq<DiagnosticView>,
}

impl CompilationDataView {
    pub open spec fn has_errors(self) -> bool {
        has_error_diag(self.diagnostics)
    }
}

impl View for CompilationData {
    type V = CompilationDataView;

    open spec fn view(&self) -> CompilationDataView {
        CompilationDataView {
            files: self.files.deep_view(),
            diagnostics: self.diagnostic_reporter.view(),
        }
    }
}

impl DeepView for CompilationData {
    type V = CompilationDataView;

    open spec fn deep_view(&self) -> CompilationDataView {
        self.view()
    }
}

/// The process exit status a diagnostic history converts to: success exactly
/// when zero errors were ever reported; warnings never affect it.
pub open spec fn spec_exit_code(diags: Seq<DiagnosticView>) -> int {
    if has_error_diag(diags) {
        1
    } else {
        0
    }
}

impl CompilationData {
    /// Whether any error was ever reported during this run.
    pub fn has_errors(&self) -> (r: bool)
        ensures
            r == self@.has_errors(),
    {
        self.diagnostic_reporter.has_errors()
    }

    /// Converts the final diagnostic state into a process exit status.
    pub fn into_exit_code(self) -> (r: i32)
        ensures
            r == spec_exit_code(self@.diagnostics),
            r == 0 <==> !self@.has_errors(),
    {
        if self.diagnostic_reporter.has_errors() {
            1
        } else {
            0
        }
    }

    /// The pass-result shape: a pass that reported an error hands the same
    /// data back as a failure, which short-circuits the passes after it.
    pub fn into_result(self) -> (r: Result<CompilationData, CompilationData>)
        ensures
            (match r {
                Result::Ok(d) => d@ == self@ && !self@.has_errors(),
                Result::Err(d) => d@ == self@ && self@.has_errors(),
            }),
    {
        if self.diagnostic_reporter.has_errors() {
            Err(self)
        } else {
            Ok(self)
        }
    }
}

} // verus!
