//! The YAML scanner: decode a (possibly multi-document) stream into the
//! generic value tree and walk every document from path `$`.
//!
//! When the stream parser fails as a whole, the raw text is split into
//! documents on `---` lines and each piece is parsed on its own: a piece that
//! fails to parse is skipped silently, so one malformed document never
//! suppresses the findings of its siblings.

use vstd::prelude::*;

use crate::config::PolicyModel;
use crate::config::VendorPolicy;
use crate::json::node_of;
use crate::json::to_node;
use crate::markdown::lines_of;
use crate::markdown::split_lines;
use crate::node::NodeModel;
use crate::verror::ErrorModel;
use crate::verror::ValidationError;
use crate::walker::walk_model;
use crate::walker::walk_tree;

verus! {

broadcast use vstd::std_specs::vec::group_vec_axioms, vstd::seq::group_seq_axioms;

/// ASCII whitespace, as trimmed around document separators and blank pieces.
pub open spec fn is_space(c: char) -> bool {
    c == ' ' || c == '\t' || c == '\r' || c == '\n'
}

/// `s` without leading and trailing whitespace.
pub open spec fn trim_spec(s: Seq<char>) -> Seq<char>
    decreases s.len(),
{
    if s.len() == 0 {
        s
    } else if is_space(s[0]) {
        trim_spec(s.subrange(1, s.len() as int))
    } else if is_space(s[s.len() - 1]) {
        trim_spec(s.subrange(0, s.len() - 1))
    } else {
        s
    }
}

fn space_char(c: char) -> (r: bool)
    ensures
        r == is_space(c),
{
    c == ' ' || c == '\t' || c == '\r' || c == '\n'
}

/// Trims leading and trailing whitespace.
pub fn trim_str(s: &str) -> (r: String)
    ensures
        r@ == trim_spec(s@),
{
    let n = s.unicode_len();
    let mut a: usize = 0;
    proof {
        assert(s@.subrange(0, n as int) =~= s@);
    }
    while a < n && space_char(s.get_char(a))
        invariant
            0 <= a <= n == s@.len(),
            trim_spec(s@) == trim_spec(s@.subrange(a as int, n as int)),
        decreases n - a,
    {
        proof {
            let t = s@.subrange(a as int, n as int);
            assert(t[0] == s@[a as int]);
            assert(t.subrange(1, t.len() as int) =~= s@.subrange(a + 1, n as int));
        }
        a = a + 1;
    }
    let mut b: usize = n;
    while b > a && space_char(s.get_char(b - 1))
        invariant
            0 <= a <= b <= n == s@.len(),
            a < n ==> !is_space(s@[a as int]),
            trim_spec(s@) == trim_spec(s@.subrange(a as int, b as int)),
        decreases b,
    {
        proof {
            let t = s@.subrange(a as int, b as int);
            assert(t[t.len() - 1] == s@[b - 1]);
            assert(t[0] == s@[a as int]);
            assert(t.subrange(0, t.len() - 1) =~= s@.subrange(a as int, b - 1));
        }
        b = b - 1;
    }
    proof {
        let t = s@.subrange(a as int, b as int);
        if t.len() > 0 {
            assert(t[0] == s@[a as int]);
            assert(t[t.len() - 1] == s@[b - 1]);
        }
        assert(trim_spec(t) == t);
    }
    s.substring_char(a, b).to_owned()
}

/// A document separator: a line that is `---` after trimming.
pub open spec fn is_sep_line(line: Seq<char>) -> bool {
    trim_spec(line) == "---"@
}

/// Nothing but whitespace.
pub open spec fn is_blank(s: Seq<char>) -> bool {
    trim_spec(s).len() == 0
}

/// What one flushed document piece contributes: its joined text when any line
/// was collected and the text is not blank.
pub open spec fn flush_doc(cur: Option<Seq<char>>) -> Seq<Seq<char>> {
    match cur {
        Option::Some(t) => if !is_blank(t) {
            seq![t]
        } else {
            Seq::empty()
        },
        Option::None => Seq::empty(),
    }
}

/// One more line collected into the current piece, lines joined with `'\n'`.
pub open spec fn collect_line(cur: Option<Seq<char>>, line: Seq<char>) -> Option<Seq<char>> {
    match cur {
        Option::Some(t) => Option::Some(t + "\n"@ + line),
        Option::None => Option::Some(line),
    }
}

/// Splitting the lines from `i` on into `---`-separated document pieces,
/// with `cur` the piece collected so far.
pub open spec fn split_docs_rec(
    ls: Seq<Seq<char>>,
    i: int,
    cur: Option<Seq<char>>,
) -> Seq<Seq<char>>
    decreases ls.len() - i,
{
    if i < 0 || i >= ls.len() {
        flush_doc(cur)
    } else if is_sep_line(ls[i]) {
        flush_doc(cur) + split_docs_rec(ls, i + 1, Option::None)
    } else {
        split_docs_rec(ls, i + 1, collect_line(cur, ls[i]))
    }
}

/// The fallback split of a YAML stream: pieces between `---` lines, blank
/// pieces dropped.
pub open spec fn yaml_documents_model(content: Seq<char>) -> Seq<Seq<char>> {
    split_docs_rec(lines_of(content), 0, Option::None)
}

/// Splits a YAML stream's raw text into its documents on `---` lines,
/// dropping blank pieces.
pub fn split_yaml_documents(content: &str) -> (docs: Vec<String>)
    ensures
        docs.deep_view() == yaml_documents_model(content@),
{
    let lines = split_lines(content);
    let ghost ls = lines_of(content@);
    let mut docs: Vec<String> = Vec::new();
    let mut cur: String = String::new();
    let mut has_lines: bool = false;
    let n = lines.len();
    let mut i: usize = 0;
    while i < n
        invariant
            0 <= i <= n == lines@.len(),
            lines.deep_view() == ls,
            yaml_documents_model(content@) =~= docs.deep_view() + split_docs_rec(
                ls,
                i as int,
                if has_lines {
                    Option::Some(cur@)
                } else {
                    Option::None
                },
            ),
        decreases n - i,
    {
        assert(lines.deep_view()[i as int] == lines@[i as int]@);
        let line = lines[i].as_str();
        let trimmed = trim_str(line);
        if trimmed.as_str().unicode_len() == 3 && trimmed.as_str().get_char(0) == '-'
            && trimmed.as_str().get_char(1) == '-' && trimmed.as_str().get_char(2) == '-' {
            proof {
                reveal_strlit("---");
                assert(trimmed@ =~= "---"@);
                assert(is_sep_line(ls[i as int]));
            }
            let ghost gcur = if has_lines {
                Option::Some(cur@)
            } else {
                Option::<Seq<char>>::None
            };
            if has_lines {
                let flushed = cur.clone();
                cur = String::new();
                let ft = trim_str(flushed.as_str());
                if ft.as_str().unicode_len() != 0 {
                    let ghost old_docs = docs.deep_view();
                    docs.push(flushed);
                    proof {
                        assert(docs.deep_view() =~= old_docs + flush_doc(gcur));
                    }
                } else {
                    proof {
                        assert(flush_doc(gcur) =~= Seq::<Seq<char>>::empty());
                    }
                }
            }
            has_lines = false;
        } else {
            proof {
                reveal_strlit("---");
                if trim_spec(ls[i as int]) == "---"@ {
                    assert(trimmed@.len() == 3);
                    assert(trimmed@[0] == '-' && trimmed@[1] == '-' && trimmed@[2] == '-');
                }
                assert(!is_sep_line(ls[i as int]));
            }
            if has_lines {
                cur.append("\n");
                cur.append(line);
            } else {
                cur = line.to_owned();
                has_lines = true;
            }
        }
        i = i + 1;
    }
    let ghost gcur = if has_lines {
        Option::Some(cur@)
    } else {
        Option::<Seq<char>>::None
    };
    if has_lines {
        let ft = trim_str(cur.as_str());
        if ft.as_str().unicode_len() != 0 {
            let ghost old_docs = docs.deep_view();
            docs.push(cur);
            proof {
                assert(docs.deep_view() =~= old_docs + flush_doc(gcur));
            }
        }
    }
    docs
}

/// Whether a stream parses as a sequence of YAML documents, and into which
/// trees; the result of `serde_saphyr::from_multiple` depends on the text
/// alone.
pub uninterp spec fn yaml_docs_of(s: Seq<char>) -> Option<Seq<NodeModel>>;

/// Whether a text parses as one YAML document, and into which tree; the
/// result of `serde_saphyr::from_str` depends on the text alone.
pub uninterp spec fn yaml_doc_of(s: Seq<char>) -> Option<NodeModel>;

/// Relies on `serde_saphyr::from_multiple::<serde_json::Value>`:
/// deterministic in the input text; `Ok` exactly when the whole stream
/// parses, with one value per non-empty document.
#[verifier::external_body]
fn parse_yaml_stream(s: &str) -> (r: Option<Vec<serde_json::Value>>)
    ensures
        r is Some <==> yaml_docs_of(s@) is Some,
        r matches Some(docs) ==> (yaml_docs_of(s@) matches Some(models) && models.len()
            == docs@.len() && forall|i: int|
            0 <= i < docs@.len() ==> models[i] == node_of(#[trigger] docs@[i])),
{
    serde_saphyr::from_multiple::<serde_json::Value>(s).ok()
}

/// Relies on `serde_saphyr::from_str::<serde_json::Value>`: deterministic in
/// the input text; `Ok` exactly when the text parses as one document.
#[verifier::external_body]
fn parse_yaml_doc(s: &str) -> (r: Option<serde_json::Value>)
    ensures
        r is Some <==> yaml_doc_of(s@) is Some,
        r matches Some(v) ==> yaml_doc_of(s@) == Some(node_of(v)),
{
    serde_saphyr::from_str::<serde_json::Value>(s).ok()
}

/// The findings of walking the first `k` decoded documents, each from `$`.
pub open spec fn docs_walk_model(
    docs: Seq<NodeModel>,
    k: int,
    fpath: Seq<char>,
    policy: PolicyModel,
    scan_keys: bool,
) -> Seq<ErrorModel>
    decreases k,
{
    if k <= 0 || k > docs.len() {
        Seq::empty()
    } else {
        docs_walk_model(docs, k - 1, fpath, policy, scan_keys) + walk_model(
            docs[k - 1],
            fpath,
            "$"@,
            policy,
            scan_keys,
        )
    }
}

/// The findings of the fallback path on the first `k` raw pieces: a piece
/// that parses is walked, one that does not is skipped silently.
pub open spec fn segments_walk_model(
    segs: Seq<Seq<char>>,
    k: int,
    fpath: Seq<char>,
    policy: PolicyModel,
    scan_keys: bool,
) -> Seq<ErrorModel>
    decreases k,
{
    if k <= 0 || k > segs.len() {
        Seq::empty()
    } else {
        segments_walk_model(segs, k - 1, fpath, policy, scan_keys) + (match yaml_doc_of(
            segs[k - 1],
        ) {
            Option::Some(doc) => walk_model(doc, fpath, "$"@, policy, scan_keys),
            Option::None => Seq::empty(),
        })
    }
}

/// The findings of the YAML scan: every document of the stream walked when
/// the stream parses; otherwise every `---`-separated piece that parses on
/// its own.
pub open spec fn scan_yaml_model(
    content: Seq<char>,
    fpath: Seq<char>,
    policy: PolicyModel,
    scan_keys: bool,
) -> Seq<ErrorModel> {
    match yaml_docs_of(content) {
        Option::Some(docs) => docs_walk_model(docs, docs.len() as int, fpath, policy, scan_keys),
        Option::None => {
            let segs = yaml_documents_model(content);
            segments_walk_model(segs, segs.len() as int, fpath, policy, scan_keys)
        },
    }
}

/// Scans YAML content for identifier candidates.  A stream-level parse
/// failure falls back to per-document parsing, so a malformed document never
/// aborts its siblings' validation.
pub fn scan_yaml_content(content: &str, path: &str, policy: &VendorPolicy, scan_keys: bool) -> (errors:
    Vec<ValidationError>)
    ensures
        errors.deep_view() == scan_yaml_model(content@, path@, policy@, scan_keys),
{
    let mut errors: Vec<ValidationError> = Vec::new();
    match parse_yaml_stream(content) {
        Option::Some(docs) => {
            let ghost models = yaml_docs_of(content@)->0;
            let n = docs.len();
            let mut i: usize = 0;
            while i < n
                invariant
                    0 <= i <= n == docs@.len(),
                    yaml_docs_of(content@) matches Some(ms) && ms == models,
                    models.len() == n,
                    forall|j: int| 0 <= j < n ==> models[j] == node_of(#[trigger] docs@[j]),
                    errors.deep_view() =~= docs_walk_model(
                        models,
                        i as int,
                        path@,
                        policy@,
                        scan_keys,
                    ),
                decreases n - i,
            {
                let node = to_node(&docs[i]);
                walk_tree(&node, path, "$", policy, scan_keys, &mut errors);
                i = i + 1;
            }
        },
        Option::None => {
            let segs = split_yaml_documents(content);
            let ghost smodels = yaml_documents_model(content@);
            let n = segs.len();
            let mut i: usize = 0;
            while i < n
                invariant
                    0 <= i <= n == segs@.len(),
                    segs.deep_view() == smodels,
                    yaml_docs_of(content@) is None,
                    errors.deep_view() =~= segments_walk_model(
                        smodels,
                        i as int,
                        path@,
                        policy@,
                        scan_keys,
                    ),
                decreases n - i,
            {
                assert(segs.deep_view()[i as int] == segs@[i as int]@);
                match parse_yaml_doc(segs[i].as_str()) {
                    Option::Some(v) => {
                        let node = to_node(&v);
                        walk_tree(&node, path, "$", policy, scan_keys, &mut errors);
                    },
                    Option::None => {},
                }
                i = i + 1;
            }
        },
    }
    errors
}

} // verus!
