//! The aggregated outcome of one validation run.

use vstd::prelude::*;

use crate::verror::ErrorModel;
use crate::verror::ValidationError;

verus! {

/// The result of a validation run: counts and the ordered findings.  Built
/// once per run and never changed afterwards; `ok` is the sole pass/fail
/// signal.
#[derive(Debug)]
pub struct ValidationReport {
    /// How many files were scanned.
    pub scanned_files: usize,
    /// How many findings there are.
    pub errors_count: usize,
    /// Whether the run passed: no findings at all.
    pub ok: bool,
    /// The findings, in input-file order and, per file, discovery order.
    pub errors: Vec<ValidationError>,
}

/// The mathematical content of a report.
pub struct ReportModel {
    pub scanned_files: int,
    pub errors_count: int,
    pub ok: bool,
    pub errors: Seq<ErrorModel>,
}

impl View for ValidationReport {
    type V = ReportModel;

    open spec fn view(&self) -> ReportModel {
        ReportModel {
            scanned_files: self.scanned_files as int,
            errors_count: self.errors_count as int,
            ok: self.ok,
            errors: self.errors.deep_view(),
        }
    }
}

/// The derived fields agree with the findings: the count is the list's
/// length, and the run is ok exactly when the list is empty.
pub open spec fn report_consistent(r: ReportModel) -> bool {
    &&& r.errors_count == r.errors.len()
    &&& r.ok <==> r.errors.len() == 0
}

impl ValidationReport {
    /// Builds the report over the given findings.
    pub fn new(scanned_files: usize, errors: Vec<ValidationError>) -> (r: ValidationReport)
        ensures
            r@.scanned_files == scanned_files as int,
            r@.errors == errors.deep_view(),
            report_consistent(r@),
    {
        let errors_count = errors.len();
        let ok = errors_count == 0;
        proof {
            assert(errors.deep_view().len() == errors@.len());
        }
        ValidationReport { scanned_files, errors_count, ok, errors }
    }
}

} // verus!
