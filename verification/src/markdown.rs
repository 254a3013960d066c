//! The Markdown scanner: a line-oriented scan for identifier candidates, with
//! skip-token suppression.
//!
//! A candidate starts where the literal `gts.` begins a token (no candidate
//! character right before it) and runs to the end of the token, cut back to
//! the last `~` inside it when there is one.  A candidate is suppressed when a
//! configured skip token occurs, case-insensitively, earlier on the same line.
//! Suppression is line-local: a skip token protects only later candidates of
//! its own line.

use vstd::prelude::*;

use crate::candidate::judge_candidate;
use crate::candidate::judge_model;
use crate::config::PolicyModel;
use crate::config::ValidationConfig;
use crate::config::VendorPolicy;
use crate::grammar::DiscoveryMode;
use crate::grammar::is_ident_char;
use crate::text::find_ci_before;
use crate::text::lemma_split_len;
use crate::text::occurs_ci_before;
use crate::text::split_seq;
use crate::text::split_str;
use crate::verror::ErrorLocation;
use crate::verror::ErrorModel;
use crate::verror::LocationModel;
use crate::verror::ValidationError;

verus! {

/// The characters a candidate token may consist of.  Hyphens and stars are
/// collected so that malformed tokens and wildcard patterns are seen whole.
pub open spec fn is_cand_char(c: char) -> bool {
    is_ident_char(c) || c == '.' || c == '~' || c == '-' || c == '*'
}

fn cand_char(c: char) -> (r: bool)
    ensures
        r == is_cand_char(c),
{
    ('a' <= c && c <= 'z') || ('A' <= c && c <= 'Z') || ('0' <= c && c <= '9') || c == '_' || c
        == '.' || c == '~' || c == '-' || c == '*'
}

/// A line without a trailing carriage return.
pub open spec fn strip_cr(s: Seq<char>) -> Seq<char> {
    if s.len() > 0 && s.last() == '\r' {
        s.drop_last()
    } else {
        s
    }
}

/// The lines of a text as Rust's `str::lines` yields them: split on `'\n'`,
/// one trailing empty piece dropped, a trailing `'\r'` stripped per line.
pub open spec fn lines_of(content: Seq<char>) -> Seq<Seq<char>> {
    let pieces = split_seq(content, '\n');
    let kept = if pieces.last().len() == 0 {
        pieces.drop_last()
    } else {
        pieces
    };
    kept.map_values(|p: Seq<char>| strip_cr(p))
}

/// Splits text into lines.
pub fn split_lines(content: &str) -> (lines: Vec<String>)
    ensures
        lines.deep_view() == lines_of(content@),
{
    let mut pieces = split_str(content, '\n');
    proof {
        lemma_split_len(content@, '\n');
    }
    let m = pieces.len();
    if pieces[m - 1].as_str().unicode_len() == 0 {
        pieces.pop();
    }
    let ghost kept = if split_seq(content@, '\n').last().len() == 0 {
        split_seq(content@, '\n').drop_last()
    } else {
        split_seq(content@, '\n')
    };
    proof {
        assert(pieces.deep_view() =~= kept);
    }
    let mut lines: Vec<String> = Vec::new();
    let k = pieces.len();
    let mut i: usize = 0;
    while i < k
        invariant
            0 <= i <= k == pieces@.len(),
            pieces.deep_view() == kept,
            lines.deep_view().len() == i as int,
            forall|j: int| 0 <= j < i ==> lines.deep_view()[j] == strip_cr(#[trigger] kept[j]),
        decreases k - i,
    {
        assert(pieces.deep_view()[i as int] == pieces@[i as int]@);
        let piece = pieces[i].as_str();
        let len = piece.unicode_len();
        let ghost old_lines = lines.deep_view();
        if len > 0 && piece.get_char(len - 1) == '\r' {
            let stripped = piece.substring_char(0, len - 1).to_owned();
            proof {
                assert(stripped@ =~= strip_cr(kept[i as int]));
            }
            lines.push(stripped);
        } else {
            proof {
                assert(piece@ =~= strip_cr(kept[i as int]));
            }
            lines.push(piece.to_owned());
        }
        proof {
            assert(lines.deep_view() =~= old_lines.push(strip_cr(kept[i as int])));
        }
        i = i + 1;
    }
    proof {
        assert(lines.deep_view() =~= kept.map_values(|p: Seq<char>| strip_cr(p)));
    }
    lines
}

/// The end of the candidate-character run that starts at `p`.
pub open spec fn run_end(line: Seq<char>, p: int) -> int
    decreases line.len() - p,
{
    if p < 0 || p >= line.len() {
        p
    } else if !is_cand_char(line[p]) {
        p
    } else {
        run_end(line, p + 1)
    }
}

/// The position just after the last `~` in `line[pos..e)`, or -1 when there
/// is none.
pub open spec fn last_tilde_end(line: Seq<char>, pos: int, e: int) -> int
    decreases e - pos,
{
    if e <= pos {
        -1
    } else if line[e - 1] == '~' {
        e
    } else {
        last_tilde_end(line, pos, e - 1)
    }
}

/// Where the candidate that starts at `pos` ends: at the last `~` of its
/// token when the token holds one, else at the token's end `e`.
pub open spec fn cand_end(line: Seq<char>, pos: int, e: int) -> int {
    let t = last_tilde_end(line, pos, e);
    if t < 0 {
        e
    } else {
        t
    }
}

/// A candidate starts at `p`: the token begins with the literal `gts.` and no
/// candidate character stands right before it.
pub open spec fn cand_start_at(line: Seq<char>, p: int) -> bool {
    &&& 0 <= p
    &&& p + 4 <= line.len()
    &&& line.subrange(p, p + 4) == "gts."@
    &&& (p == 0 || !is_cand_char(line[p - 1]))
}

/// Some configured skip token occurs, case-insensitively, wholly before
/// position `pos` of the line.
pub open spec fn suppressed(line: Seq<char>, pos: int, tokens: Seq<Seq<char>>) -> bool {
    exists|t: int| 0 <= t < tokens.len() && occurs_ci_before(line, #[trigger] tokens[t], pos)
}

/// The findings of scanning one line from position `pos` on.
pub open spec fn line_scan_model(
    line: Seq<char>,
    pos: int,
    lineno: int,
    fpath: Seq<char>,
    policy: PolicyModel,
    report_malformed: bool,
    tokens: Seq<Seq<char>>,
) -> Seq<ErrorModel>
    decreases line.len() - pos,
{
    if pos < 0 || pos >= line.len() {
        Seq::empty()
    } else if cand_start_at(line, pos) {
        let e = run_end(line, pos);
        let ce = cand_end(line, pos, e);
        let errs = if suppressed(line, pos, tokens) {
            Seq::empty()
        } else {
            judge_model(
                line.subrange(pos, ce),
                fpath,
                LocationModel::Line(lineno),
                policy,
                report_malformed,
            )
        };
        let next = if pos < e <= line.len() {
            e
        } else {
            pos + 1
        };
        errs + line_scan_model(line, next, lineno, fpath, policy, report_malformed, tokens)
    } else {
        line_scan_model(line, pos + 1, lineno, fpath, policy, report_malformed, tokens)
    }
}

/// The findings of the first `k` lines, in line order, lines numbered from 1.
pub open spec fn md_lines_model(
    lines: Seq<Seq<char>>,
    k: int,
    fpath: Seq<char>,
    policy: PolicyModel,
    report_malformed: bool,
    tokens: Seq<Seq<char>>,
) -> Seq<ErrorModel>
    decreases k,
{
    if k <= 0 {
        Seq::empty()
    } else {
        md_lines_model(lines, k - 1, fpath, policy, report_malformed, tokens) + line_scan_model(
            lines[k - 1],
            0,
            k,
            fpath,
            policy,
            report_malformed,
            tokens,
        )
    }
}

/// The findings of the Markdown scan: every line scanned in order, candidates
/// judged under the discovery mode, skip tokens suppressing same-line
/// candidates after them.
pub open spec fn scan_markdown_model(
    content: Seq<char>,
    fpath: Seq<char>,
    mode: DiscoveryMode,
    policy: PolicyModel,
    tokens: Seq<Seq<char>>,
) -> Seq<ErrorModel> {
    md_lines_model(
        lines_of(content),
        lines_of(content).len() as int,
        fpath,
        policy,
        mode == DiscoveryMode::Heuristic,
        tokens,
    )
}

/// Whether one of the skip tokens occurs before `pos` on the line.
fn is_suppressed(line: &str, pos: usize, tokens: &Vec<String>) -> (r: bool)
    requires
        pos <= line@.len(),
    ensures
        r == suppressed(line@, pos as int, tokens.deep_view()),
{
    let n = tokens.len();
    let mut t: usize = 0;
    while t < n
        invariant
            0 <= t <= n == tokens@.len(),
            pos <= line@.len(),
            forall|j: int|
                0 <= j < t ==> !occurs_ci_before(line@, #[trigger] tokens.deep_view()[j], pos as int),
        decreases n - t,
    {
        assert(tokens.deep_view()[t as int] == tokens@[t as int]@);
        if find_ci_before(line, tokens[t].as_str(), pos) {
            return true;
        }
        t = t + 1;
    }
    false
}

/// Scans one line for candidates and appends their findings.
fn scan_line(
    line: &str,
    lineno: usize,
    fpath: &str,
    policy: &VendorPolicy,
    report_malformed: bool,
    tokens: &Vec<String>,
    errors: &mut Vec<ValidationError>,
)
    ensures
        final(errors).deep_view() =~= old(errors).deep_view() + line_scan_model(
            line@,
            0,
            lineno as int,
            fpath@,
            policy@,
            report_malformed,
            tokens.deep_view(),
        ),
{
    let n = line.unicode_len();
    let ghost pol = policy@;
    let ghost toks = tokens.deep_view();
    let mut pos: usize = 0;
    proof {
        assert(line@.subrange(0, n as int) =~= line@);
    }
    while pos < n
        invariant
            0 <= pos <= n == line@.len(),
            pol == policy@,
            toks == tokens.deep_view(),
            old(errors).deep_view() + line_scan_model(
                line@,
                0,
                lineno as int,
                fpath@,
                pol,
                report_malformed,
                toks,
            ) =~= errors.deep_view() + line_scan_model(
                line@,
                pos as int,
                lineno as int,
                fpath@,
                pol,
                report_malformed,
                toks,
            ),
        decreases n - pos,
    {
        let mut is_start = false;
        if n - pos >= 4 {
            if line.get_char(pos) == 'g' && line.get_char(pos + 1) == 't' && line.get_char(pos + 2)
                == 's' && line.get_char(pos + 3) == '.' {
                if pos == 0 {
                    is_start = true;
                } else {
                    is_start = !cand_char(line.get_char(pos - 1));
                }
            }
        }
        proof {
            reveal_strlit("gts.");
            if is_start {
                assert(line@.subrange(pos as int, pos + 4) =~= "gts."@);
                assert(cand_start_at(line@, pos as int));
            } else {
                if pos + 4 <= n && line@.subrange(pos as int, pos + 4) == "gts."@ {
                    assert(line@[pos as int] == 'g' && line@[pos + 1] == 't' && line@[pos + 2]
                        == 's' && line@[pos + 3] == '.') by {
                        assert(line@.subrange(pos as int, pos + 4)[0] == line@[pos as int]);
                        assert(line@.subrange(pos as int, pos + 4)[1] == line@[pos + 1]);
                        assert(line@.subrange(pos as int, pos + 4)[2] == line@[pos + 2]);
                        assert(line@.subrange(pos as int, pos + 4)[3] == line@[pos + 3]);
                    }
                }
                assert(!cand_start_at(line@, pos as int));
            }
        }
        if is_start {
            // The token's extent.
            let mut e = pos;
            while e < n && cand_char(line.get_char(e))
                invariant
                    pos <= e <= n == line@.len(),
                    run_end(line@, pos as int) == run_end(line@, e as int),
                decreases n - e,
            {
                e = e + 1;
            }
            assert(run_end(line@, pos as int) == e);
            // Cut back to the last '~' inside the token, if any.
            let mut k = e;
            while k > pos && line.get_char(k - 1) != '~'
                invariant
                    pos <= k <= e <= n == line@.len(),
                    last_tilde_end(line@, pos as int, e as int) == last_tilde_end(
                        line@,
                        pos as int,
                        k as int,
                    ),
                decreases k,
            {
                k = k - 1;
            }
            proof {
                if k == pos {
                    assert(last_tilde_end(line@, pos as int, k as int) == -1);
                } else {
                    assert(line@[k - 1] == '~');
                    assert(last_tilde_end(line@, pos as int, k as int) == k);
                }
            }
            let cand_to = if k == pos {
                e
            } else {
                k
            };
            assert(cand_to == cand_end(line@, pos as int, e as int));
            let cand = line.substring_char(pos, cand_to);
            assert(cand@ == line@.subrange(pos as int, cand_to as int));
            if !is_suppressed(line, pos, tokens) {
                judge_candidate(
                    cand,
                    fpath,
                    ErrorLocation::Line(lineno),
                    policy,
                    report_malformed,
                    errors,
                );
            }
            proof {
                // 'g' is a candidate character, so the token is non-empty.
                assert(is_cand_char(line@[pos as int]));
                assert(e > pos);
            }
            pos = e;
        } else {
            pos = pos + 1;
        }
    }
    proof {
        assert(line_scan_model(
            line@,
            pos as int,
            lineno as int,
            fpath@,
            pol,
            report_malformed,
            toks,
        ) =~= Seq::<ErrorModel>::empty());
    }
}

/// Scans Markdown content line by line (1-indexed) for GTS identifier
/// candidates and returns the findings in discovery order.
pub fn scan_markdown_content(content: &str, path: &str, config: &ValidationConfig) -> (errors: Vec<
    ValidationError,
>)
    ensures
        errors.deep_view() == scan_markdown_model(
            content@,
            path@,
            config.discovery_mode,
            config.vendor_policy@,
            config.skip_tokens.deep_view(),
        ),
{
    let report_malformed = config.discovery_mode == DiscoveryMode::Heuristic;
    let lines = split_lines(content);
    let ghost slines = lines_of(content@);
    let ghost pol = config.vendor_policy@;
    let ghost toks = config.skip_tokens.deep_view();
    let mut errors: Vec<ValidationError> = Vec::new();
    let n = lines.len();
    let mut li: usize = 0;
    while li < n
        invariant
            0 <= li <= n == lines@.len(),
            lines.deep_view() == slines,
            pol == config.vendor_policy@,
            toks == config.skip_tokens.deep_view(),
            report_malformed == (config.discovery_mode == DiscoveryMode::Heuristic),
            errors.deep_view() =~= md_lines_model(
                slines,
                li as int,
                path@,
                pol,
                report_malformed,
                toks,
            ),
        decreases n - li,
    {
        assert(lines.deep_view()[li as int] == lines@[li as int]@);
        scan_line(
            lines[li].as_str(),
            li + 1,
            path,
            &config.vendor_policy,
            report_malformed,
            &config.skip_tokens,
            &mut errors,
        );
        li = li + 1;
    }
    errors
}

} // verus!
