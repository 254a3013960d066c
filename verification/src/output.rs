//! Rendering a validation report for a human reader.  The text is built by
//! verified code; terminal colours come from the `colored` crate behind
//! trusted wrappers and are applied only when asked for.

use vstd::prelude::*;

use crate::report::ReportModel;
use crate::report::ValidationReport;
use crate::text::dec_digits;
use crate::text::u64_to_string;
use crate::verror::ErrorKind;
use crate::verror::ErrorModel;
use crate::verror::human_line_model;

verus! {

broadcast use vstd::std_specs::vec::group_vec_axioms, vstd::seq::group_seq_axioms;

/// No escape character in `s`: colouring then only wraps, never rewrites.
pub open spec fn esc_free(s: Seq<char>) -> bool {
    forall|i: int| 0 <= i < s.len() ==> s[i] != '\u{1b}'
}

/// Relies on `colored::Colorize::bold` and the `ColoredString` display: when
/// the input holds no escape character, the painted text is the input with at
/// most a style prefix and a reset suffix around it (exactly the input when
/// colours are off).
#[verifier::external_body]
fn paint_bold(s: &str) -> (r: String)
    ensures
        esc_free(s@) ==> exists|p: Seq<char>, q: Seq<char>| r@ == p + s@ + q,
{
    colored::Colorize::bold(s).to_string()
}

/// Relies on `colored::Colorize::red`, as `paint_bold` on `bold`.
#[verifier::external_body]
fn paint_red(s: &str) -> (r: String)
    ensures
        esc_free(s@) ==> exists|p: Seq<char>, q: Seq<char>| r@ == p + s@ + q,
{
    colored::Colorize::red(s).to_string()
}

/// Relies on `colored::Colorize::green`, as `paint_bold` on `bold`.
#[verifier::external_body]
fn paint_green(s: &str) -> (r: String)
    ensures
        esc_free(s@) ==> exists|p: Seq<char>, q: Seq<char>| r@ == p + s@ + q,
{
    colored::Colorize::green(s).to_string()
}

/// One finding of the given kind is present.
pub open spec fn has_kind(errors: Seq<ErrorModel>, kind: ErrorKind) -> bool {
    exists|i: int| 0 <= i < errors.len() && (#[trigger] errors[i]).kind == kind
}

/// The rendered lines of the first `k` findings, one line each.
pub open spec fn error_lines_model(errors: Seq<ErrorModel>, k: int) -> Seq<char>
    decreases k,
{
    if k <= 0 || k > errors.len() {
        Seq::empty()
    } else {
        error_lines_model(errors, k - 1) + human_line_model(errors[k - 1]) + "\n"@
    }
}

/// The `To fix:` hints, one per kind of finding that is present.
pub open spec fn hints_model(errors: Seq<ErrorModel>) -> Seq<char> {
    (if has_kind(errors, ErrorKind::MalformedIdentifier) {
        "    - Schema IDs must end with ~ (e.g., gts.x.core.pkg.mytype.v1~)\n"@
            + "    - Each segment needs 5 parts: vendor.package.namespace.type.version\n"@
            + "    - No hyphens allowed, use underscores\n"@
    } else {
        Seq::empty()
    }) + (if has_kind(errors, ErrorKind::WildcardContext) {
        "    - Wildcards (*) only in filter/pattern contexts\n"@
    } else {
        Seq::empty()
    }) + (if has_kind(errors, ErrorKind::VendorMismatch) {
        "    - Ensure all GTS IDs use the expected vendor\n"@
    } else {
        Seq::empty()
    })
}

/// The heavy and the light separator line.
pub open spec fn sep_heavy() -> Seq<char> {
    "================================================================================\n"@
}

pub open spec fn sep_light() -> Seq<char> {
    "--------------------------------------------------------------------------------\n"@
}

/// The whole plain (uncoloured) human-readable report text.
pub open spec fn human_report_model(r: ReportModel) -> Seq<char> {
    "\n"@ + sep_heavy() + "  GTS DOCUMENTATION VALIDATOR\n"@ + sep_heavy() + "\n"@
        + "  Files scanned: "@ + dec_digits(r.scanned_files as nat) + "\n"@
        + "  Errors found:  "@ + dec_digits(r.errors_count as nat) + "\n"@ + "\n"@ + (
    if r.errors.len() > 0 {
        sep_light() + "  ERRORS\n"@ + sep_light() + error_lines_model(
            r.errors,
            r.errors.len() as int,
        ) + "\n"@
    } else {
        Seq::empty()
    }) + sep_heavy() + (if r.ok {
        "\u{2713} All "@ + dec_digits(r.scanned_files as nat) + " files passed validation"@ + "\n"@
    } else {
        "\u{2717} "@ + dec_digits(r.errors_count as nat) + " invalid GTS identifiers found"@
            + "\n"@ + "\n"@ + "  To fix:\n"@ + hints_model(r.errors)
    }) + sep_heavy()
}

fn has_kind_exec(report: &ValidationReport, kind: ErrorKind) -> (r: bool)
    ensures
        r == has_kind(report@.errors, kind),
{
    let n = report.errors.len();
    let mut i: usize = 0;
    while i < n
        invariant
            0 <= i <= n == report.errors@.len(),
            forall|j: int| 0 <= j < i ==> (#[trigger] report@.errors[j]).kind != kind,
        decreases n - i,
    {
        assert(report@.errors[i as int] == report.errors@[i as int].deep_view());
        if report.errors[i].kind == kind {
            return true;
        }
        i = i + 1;
    }
    false
}

/// Renders the report for a human.  Without colour the text is exactly the
/// plain report text; with colour the same lines are painted through the
/// `colored` crate, whose output depends on the terminal environment.
#[verifier::rlimit(50)]
pub fn write_human(report: &ValidationReport, use_color: bool) -> (out: String)
    ensures
        !use_color ==> out@ == human_report_model(report@),
{
    let mut out = "\n".to_owned();
    out.append("================================================================================\n");
    if use_color {
        out.append("  ");
        let painted = paint_bold("GTS DOCUMENTATION VALIDATOR");
        out.append(painted.as_str());
        out.append("\n");
    } else {
        out.append("  GTS DOCUMENTATION VALIDATOR\n");
    }
    out.append("================================================================================\n");
    out.append("\n");
    out.append("  Files scanned: ");
    let scanned = u64_to_string(report.scanned_files as u64);
    out.append(scanned.as_str());
    out.append("\n");
    out.append("  Errors found:  ");
    let count = u64_to_string(report.errors_count as u64);
    out.append(count.as_str());
    out.append("\n");
    out.append("\n");
    let ghost header = "\n"@ + sep_heavy() + "  GTS DOCUMENTATION VALIDATOR\n"@ + sep_heavy()
        + "\n"@ + "  Files scanned: "@ + dec_digits(report@.scanned_files as nat) + "\n"@
        + "  Errors found:  "@ + dec_digits(report@.errors_count as nat) + "\n"@ + "\n"@;
    proof {
        if !use_color {
            assert(out@ =~= header);
        }
    }
    let n = report.errors.len();
    if n > 0 {
        out.append("--------------------------------------------------------------------------------\n");
        if use_color {
            out.append("  ");
            let painted = paint_red("ERRORS");
            out.append(painted.as_str());
            out.append("\n");
        } else {
            out.append("  ERRORS\n");
        }
        out.append("--------------------------------------------------------------------------------\n");
        let ghost before_lines = out@;
        let mut i: usize = 0;
        while i < n
            invariant
                0 <= i <= n == report.errors@.len(),
                use_color ==> true,
                !use_color ==> out@ =~= before_lines + error_lines_model(
                    report@.errors,
                    i as int,
                ),
            decreases n - i,
        {
            assert(report@.errors[i as int] == report.errors@[i as int].deep_view());
            let line = report.errors[i].human_line();
            if use_color {
                let painted = paint_red(line.as_str());
                out.append(painted.as_str());
            } else {
                out.append(line.as_str());
            }
            out.append("\n");
            i = i + 1;
        }
        out.append("\n");
    }
    let ghost mid = header + (if report@.errors.len() > 0 {
        sep_light() + "  ERRORS\n"@ + sep_light() + error_lines_model(
            report@.errors,
            report@.errors.len() as int,
        ) + "\n"@
    } else {
        Seq::<char>::empty()
    }) + sep_heavy();
    out.append("================================================================================\n");
    proof {
        if !use_color {
            assert(out@ =~= mid);
        }
    }
    if report.ok {
        let mut msg = "\u{2713} All ".to_owned();
        msg.append(scanned.as_str());
        msg.append(" files passed validation");
        if use_color {
            let painted = paint_green(msg.as_str());
            out.append(painted.as_str());
            out.append("\n");
        } else {
            out.append(msg.as_str());
            out.append("\n");
        }
    } else {
        let mut msg = "\u{2717} ".to_owned();
        msg.append(count.as_str());
        msg.append(" invalid GTS identifiers found");
        if use_color {
            let painted = paint_red(msg.as_str());
            out.append(painted.as_str());
            out.append("\n");
        } else {
            out.append(msg.as_str());
            out.append("\n");
        }
        out.append("\n");
        out.append("  To fix:\n");
        if has_kind_exec(report, ErrorKind::MalformedIdentifier) {
            out.append("    - Schema IDs must end with ~ (e.g., gts.x.core.pkg.mytype.v1~)\n");
            out.append("    - Each segment needs 5 parts: vendor.package.namespace.type.version\n");
            out.append("    - No hyphens allowed, use underscores\n");
        }
        if has_kind_exec(report, ErrorKind::WildcardContext) {
            out.append("    - Wildcards (*) only in filter/pattern contexts\n");
        }
        if has_kind_exec(report, ErrorKind::VendorMismatch) {
            out.append("    - Ensure all GTS IDs use the expected vendor\n");
        }
    }
    let ghost tail = (if report@.ok {
        "\u{2713} All "@ + dec_digits(report@.scanned_files as nat)
            + " files passed validation"@ + "\n"@
    } else {
        "\u{2717} "@ + dec_digits(report@.errors_count as nat)
            + " invalid GTS identifiers found"@ + "\n"@ + "\n"@ + "  To fix:\n"@
            + hints_model(report@.errors)
    });
    proof {
        if !use_color {
            assert(out@ =~= mid + tail);
        }
    }
    out.append("================================================================================\n");
    proof {
        if !use_color {
            assert(out@ =~= mid + tail + sep_heavy());
            assert(out@ =~= human_report_model(report@));
        }
    }
    out
}

} // verus!
