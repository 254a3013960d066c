//! Laws of the engine, stated and proved over the same models that the
//! executable functions' contracts use.

use vstd::prelude::*;

use crate::candidate::judge_model;
use crate::candidate::vendor_errs;
use crate::config::ConfigModel;
use crate::config::PolicyModel;
use crate::grammar::DiscoveryMode;
use crate::markdown::line_scan_model;
use crate::markdown::md_lines_model;
use crate::markdown::scan_markdown_model;
use crate::node::NodeModel;
use crate::report::ReportModel;
use crate::report::report_consistent;
use crate::text::has_prefix;
use crate::validator::FileModel;
use crate::validator::validate_model;
use crate::verror::ErrorKind;
use crate::verror::ErrorModel;
use crate::verror::LocationModel;
use crate::walker::walk_model;

verus! {

/// Every finding in the sequence is a vendor mismatch.
pub open spec fn all_vendor_mismatch(errors: Seq<ErrorModel>) -> bool {
    forall|i: int| 0 <= i < errors.len() ==> (#[trigger] errors[i]).kind == ErrorKind::VendorMismatch
}

proof fn lemma_all_vendor_concat(a: Seq<ErrorModel>, b: Seq<ErrorModel>)
    requires
        all_vendor_mismatch(a),
        all_vendor_mismatch(b),
    ensures
        all_vendor_mismatch(a + b),
{
    assert forall|i: int| 0 <= i < (a + b).len() implies (#[trigger] (a + b)[i]).kind
        == ErrorKind::VendorMismatch by {
        if i < a.len() {
            assert((a + b)[i] == a[i]);
        } else {
            assert((a + b)[i] == b[i - a.len()]);
        }
    }
}

proof fn lemma_vendor_errs_kinds(
    cand: Seq<char>,
    fpath: Seq<char>,
    location: LocationModel,
    policy: PolicyModel,
)
    ensures
        all_vendor_mismatch(vendor_errs(cand, fpath, location, policy)),
{
}

/// Without malformed reporting, a judgement can only be a vendor mismatch.
proof fn lemma_judge_strict(
    cand: Seq<char>,
    fpath: Seq<char>,
    location: LocationModel,
    policy: PolicyModel,
)
    ensures
        all_vendor_mismatch(judge_model(cand, fpath, location, policy, false)),
{
    lemma_vendor_errs_kinds(cand, fpath, location, policy);
}

proof fn lemma_line_scan_strict(
    line: Seq<char>,
    pos: int,
    lineno: int,
    fpath: Seq<char>,
    policy: PolicyModel,
    tokens: Seq<Seq<char>>,
)
    ensures
        all_vendor_mismatch(line_scan_model(line, pos, lineno, fpath, policy, false, tokens)),
    decreases line.len() - pos,
{
    if pos < 0 || pos >= line.len() {
    } else if crate::markdown::cand_start_at(line, pos) {
        let e = crate::markdown::run_end(line, pos);
        let ce = crate::markdown::cand_end(line, pos, e);
        let next = if pos < e <= line.len() {
            e
        } else {
            pos + 1
        };
        lemma_judge_strict(line.subrange(pos, ce), fpath, LocationModel::Line(lineno), policy);
        lemma_line_scan_strict(line, next, lineno, fpath, policy, tokens);
        let errs = if crate::markdown::suppressed(line, pos, tokens) {
            Seq::<ErrorModel>::empty()
        } else {
            judge_model(
                line.subrange(pos, ce),
                fpath,
                LocationModel::Line(lineno),
                policy,
                false,
            )
        };
        lemma_all_vendor_concat(
            errs,
            line_scan_model(line, next, lineno, fpath, policy, false, tokens),
        );
    } else {
        lemma_line_scan_strict(line, pos + 1, lineno, fpath, policy, tokens);
    }
}

proof fn lemma_md_lines_strict(
    lines: Seq<Seq<char>>,
    k: int,
    fpath: Seq<char>,
    policy: PolicyModel,
    tokens: Seq<Seq<char>>,
)
    ensures
        all_vendor_mismatch(md_lines_model(lines, k, fpath, policy, false, tokens)),
    decreases k,
{
    if k > 0 {
        lemma_md_lines_strict(lines, k - 1, fpath, policy, tokens);
        lemma_line_scan_strict(lines[k - 1], 0, k, fpath, policy, tokens);
        lemma_all_vendor_concat(
            md_lines_model(lines, k - 1, fpath, policy, false, tokens),
            line_scan_model(lines[k - 1], 0, k, fpath, policy, false, tokens),
        );
    }
}

/// Under `StrictSpecOnly`, the Markdown scanner discovers only well-formed
/// identifiers, so a malformed token is never reported: every finding is a
/// vendor mismatch.  (Under `Heuristic` the same token is discovered and
/// reported; the tests exercise that side on concrete inputs.)
pub proof fn lemma_strict_reports_no_malformed(
    content: Seq<char>,
    fpath: Seq<char>,
    policy: PolicyModel,
    tokens: Seq<Seq<char>>,
)
    ensures
        all_vendor_mismatch(
            scan_markdown_model(content, fpath, DiscoveryMode::StrictSpecOnly, policy, tokens),
        ),
{
    let lines = crate::markdown::lines_of(content);
    lemma_md_lines_strict(lines, lines.len() as int, fpath, policy, tokens);
}

/// The finding at some index has this snippet and one of the two grammar
/// kinds.
pub open spec fn reports_malformed_snippet(errors: Seq<ErrorModel>, snippet: Seq<char>) -> bool {
    exists|i: int|
        0 <= i < errors.len() && (#[trigger] errors[i]).snippet == snippet && (errors[i].kind
            == ErrorKind::MalformedIdentifier || errors[i].kind == ErrorKind::WildcardContext)
}

proof fn lemma_reports_in_concat(a: Seq<ErrorModel>, b: Seq<ErrorModel>, snippet: Seq<char>)
    requires
        reports_malformed_snippet(b, snippet),
    ensures
        reports_malformed_snippet(a + b, snippet),
{
    let i = choose|i: int|
        0 <= i < b.len() && (#[trigger] b[i]).snippet == snippet && (b[i].kind
            == ErrorKind::MalformedIdentifier || b[i].kind == ErrorKind::WildcardContext);
    assert((a + b)[a.len() + i] == b[i]);
}

proof fn lemma_heuristic_line_scan_reports(
    line: Seq<char>,
    q: int,
    pos: int,
    lineno: int,
    fpath: Seq<char>,
    policy: PolicyModel,
    tokens: Seq<Seq<char>>,
)
    requires
        0 <= q <= pos,
        crate::markdown::cand_start_at(line, pos),
        pos < line.len(),
        !crate::markdown::suppressed(line, pos, tokens),
        !crate::grammar::is_star(
            line.subrange(
                pos,
                crate::markdown::cand_end(line, pos, crate::markdown::run_end(line, pos)),
            ),
        ),
        !crate::grammar::well_formed_chain_text(
            line.subrange(
                pos,
                crate::markdown::cand_end(line, pos, crate::markdown::run_end(line, pos)),
            ),
        ),
    ensures
        reports_malformed_snippet(
            line_scan_model(line, q, lineno, fpath, policy, true, tokens),
            line.subrange(
                pos,
                crate::markdown::cand_end(line, pos, crate::markdown::run_end(line, pos)),
            ),
        ),
    decreases pos - q,
{
    let e = crate::markdown::run_end(line, pos);
    let ce = crate::markdown::cand_end(line, pos, e);
    let cand = line.subrange(pos, ce);
    if q == pos {
        let errs = judge_model(cand, fpath, LocationModel::Line(lineno), policy, true);
        assert(errs.len() == 1 && errs[0].snippet == cand);
        let eq = crate::markdown::run_end(line, q);
        let next = if q < eq <= line.len() {
            eq
        } else {
            q + 1
        };
        let rest = line_scan_model(line, next, lineno, fpath, policy, true, tokens);
        assert(line_scan_model(line, q, lineno, fpath, policy, true, tokens) == errs + rest);
        assert((errs + rest)[0] == errs[0]);
    } else {
        // No candidate-character run that begins before `pos` can cross it:
        // the character right before `pos` is no candidate character.
        reveal_strlit("gts.");
        assert(line.subrange(pos, pos + 4)[0] == line[pos]);
        if crate::markdown::cand_start_at(line, q) {
            let eq = crate::markdown::run_end(line, q);
            lemma_run_end_at_most(line, q, pos);
            let next = if q < eq <= line.len() {
                eq
            } else {
                q + 1
            };
            assert(q < next <= pos);
            lemma_heuristic_line_scan_reports(line, next, pos, lineno, fpath, policy, tokens);
            let errs = if crate::markdown::suppressed(line, q, tokens) {
                Seq::<ErrorModel>::empty()
            } else {
                judge_model(
                    line.subrange(q, crate::markdown::cand_end(line, q, eq)),
                    fpath,
                    LocationModel::Line(lineno),
                    policy,
                    true,
                )
            };
            lemma_reports_in_concat(
                errs,
                line_scan_model(line, next, lineno, fpath, policy, true, tokens),
                cand,
            );
        } else {
            lemma_heuristic_line_scan_reports(line, q + 1, pos, lineno, fpath, policy, tokens);
        }
    }
}

/// A candidate-character run that starts at or before a later position whose
/// predecessor is no candidate character ends by that position.
proof fn lemma_run_end_at_most(line: Seq<char>, q: int, pos: int)
    requires
        0 <= q < pos < line.len(),
        pos == 0 || !crate::markdown::is_cand_char(line[pos - 1]),
    ensures
        crate::markdown::run_end(line, q) <= pos,
    decreases pos - q,
{
    if !crate::markdown::is_cand_char(line[q]) {
    } else if q + 1 == pos {
        assert(!crate::markdown::is_cand_char(line[pos - 1]));
        assert(false);
    } else {
        lemma_run_end_at_most(line, q + 1, pos);
    }
}

/// Under `Heuristic`, a discovered candidate that is malformed and not
/// suppressed is reported: some finding on its line carries it as snippet,
/// as a grammar violation or a misplaced wildcard.
pub proof fn lemma_heuristic_reports_malformed(
    line: Seq<char>,
    pos: int,
    lineno: int,
    fpath: Seq<char>,
    policy: PolicyModel,
    tokens: Seq<Seq<char>>,
)
    requires
        crate::markdown::cand_start_at(line, pos),
        pos < line.len(),
        !crate::markdown::suppressed(line, pos, tokens),
        !crate::grammar::is_star(
            line.subrange(
                pos,
                crate::markdown::cand_end(line, pos, crate::markdown::run_end(line, pos)),
            ),
        ),
        !crate::grammar::well_formed_chain_text(
            line.subrange(
                pos,
                crate::markdown::cand_end(line, pos, crate::markdown::run_end(line, pos)),
            ),
        ),
    ensures
        reports_malformed_snippet(
            line_scan_model(line, 0, lineno, fpath, policy, true, tokens),
            line.subrange(
                pos,
                crate::markdown::cand_end(line, pos, crate::markdown::run_end(line, pos)),
            ),
        ),
{
    lemma_heuristic_line_scan_reports(line, 0, pos, lineno, fpath, policy, tokens);
}

/// An `x-gts-ref` entry whose string value holds a `*` is a filter pattern:
/// walking it yields no finding, whatever the vendor policy and the
/// key-scanning toggle.  (The discovery mode does not reach the tree walkers
/// at all.)
pub proof fn lemma_wildcard_ref_exempt(
    s: Seq<char>,
    fpath: Seq<char>,
    ptr: Seq<char>,
    policy: PolicyModel,
    scan_keys: bool,
)
    requires
        s.contains('*'),
    ensures
        walk_model(
            NodeModel::Object(seq![("x-gts-ref"@, NodeModel::Text(s))]),
            fpath,
            ptr,
            policy,
            scan_keys,
        ) =~= Seq::<ErrorModel>::empty(),
{
    let fields = seq![("x-gts-ref"@, NodeModel::Text(s))];
    reveal_strlit("x-gts-ref");
    reveal_strlit("gts.");
    reveal_strlit("gts://");
    assert(!has_prefix("x-gts-ref"@, "gts."@)) by {
        assert("x-gts-ref"@[0] == 'x' && "gts."@[0] == 'g');
        if has_prefix("x-gts-ref"@, "gts."@) {
            assert("x-gts-ref"@.subrange(0, 4)[0] == 'x');
        }
    }
    assert(!has_prefix("x-gts-ref"@, "gts://"@)) by {
        if has_prefix("x-gts-ref"@, "gts://"@) {
            assert("x-gts-ref"@.subrange(0, 6)[0] == 'x');
        }
    }
    assert(crate::walker::exempt_entry(fields[0].0, fields[0].1));
    assert(crate::walker::obj_model(fields, 0, fpath, ptr, policy, scan_keys) =~= Seq::<
        ErrorModel,
    >::empty());
}

proof fn lemma_segments_walk_remove(
    segs: Seq<Seq<char>>,
    j: int,
    k: int,
    fpath: Seq<char>,
    policy: PolicyModel,
    scan_keys: bool,
)
    requires
        0 <= j < segs.len(),
        crate::yaml::yaml_doc_of(segs[j]) is None,
        0 <= k <= segs.len(),
    ensures
        k <= j ==> crate::yaml::segments_walk_model(segs, k, fpath, policy, scan_keys)
            =~= crate::yaml::segments_walk_model(segs.remove(j), k, fpath, policy, scan_keys),
        k > j ==> crate::yaml::segments_walk_model(segs, k, fpath, policy, scan_keys)
            =~= crate::yaml::segments_walk_model(segs.remove(j), k - 1, fpath, policy, scan_keys),
    decreases k,
{
    if k > 0 {
        lemma_segments_walk_remove(segs, j, k - 1, fpath, policy, scan_keys);
        if k - 1 < j {
            assert(segs.remove(j)[k - 1] == segs[k - 1]);
        } else if k - 1 > j {
            assert(segs.remove(j)[k - 2] == segs[k - 1]);
        }
    }
}

/// One malformed document inside a multi-document stream is isolated: the
/// fallback findings are exactly those of the stream with that document left
/// out, so a failing sibling never suppresses the others' validation.
pub proof fn lemma_failing_document_isolated(
    segs: Seq<Seq<char>>,
    j: int,
    fpath: Seq<char>,
    policy: PolicyModel,
    scan_keys: bool,
)
    requires
        0 <= j < segs.len(),
        crate::yaml::yaml_doc_of(segs[j]) is None,
    ensures
        crate::yaml::segments_walk_model(segs, segs.len() as int, fpath, policy, scan_keys)
            =~= crate::yaml::segments_walk_model(
            segs.remove(j),
            segs.len() - 1,
            fpath,
            policy,
            scan_keys,
        ),
{
    lemma_segments_walk_remove(segs, j, segs.len() as int, fpath, policy, scan_keys);
}

/// Running the engine twice on identical inputs and configuration yields
/// identical reports: the orchestrator's contract pins the whole report down
/// as a function of its inputs alone.
pub proof fn lemma_validation_deterministic(
    files: Seq<FileModel>,
    cfg: ConfigModel,
    r1: ReportModel,
    r2: ReportModel,
)
    requires
        r1.scanned_files == validate_model(files, cfg).0,
        r1.errors == validate_model(files, cfg).1,
        report_consistent(r1),
        r2.scanned_files == validate_model(files, cfg).0,
        r2.errors == validate_model(files, cfg).1,
        report_consistent(r2),
    ensures
        r1 == r2,
{
}

} // verus!
