//! The GTS identifier grammar: what a well-formed identifier chain is, and the
//! classifier that judges one candidate string under a discovery mode.
//!
//! A chain is one or more `~`-terminated segments written back to back; each
//! segment is five dot-separated fields `vendor.package.namespace.type.version`;
//! the first segment carries the literal prefix `gts.`; the whole chain may be
//! written in URI form behind `gts://`.  A field holds ASCII letters, digits
//! and underscores; a version is `v` followed by digits, optionally `.` and
//! more digits.

use vstd::prelude::*;

use crate::text::has_prefix;
use crate::text::lemma_split_len;
use crate::text::split_seq;
use crate::text::split_str;
use crate::text::str_has_prefix;

verus! {

/// Characters permitted in a field: ASCII alphanumerics and the underscore.
/// Hyphens are deliberately not permitted.
pub open spec fn is_ident_char(c: char) -> bool {
    ('a' <= c && c <= 'z') || ('A' <= c && c <= 'Z') || ('0' <= c && c <= '9') || c == '_'
}

pub open spec fn is_digit_char(c: char) -> bool {
    '0' <= c && c <= '9'
}

pub open spec fn all_ident(s: Seq<char>) -> bool {
    forall|i: int| 0 <= i < s.len() ==> is_ident_char(#[trigger] s[i])
}

pub open spec fn all_digits(s: Seq<char>) -> bool {
    forall|i: int| 0 <= i < s.len() ==> is_digit_char(#[trigger] s[i])
}

/// A field is a non-empty run of identifier characters.
pub open spec fn valid_field(s: Seq<char>) -> bool {
    s.len() > 0 && all_ident(s)
}

/// The major part of a version: `v` followed by at least one digit.
pub open spec fn valid_version_head(s: Seq<char>) -> bool {
    s.len() >= 2 && s[0] == 'v' && all_digits(s.subrange(1, s.len() as int))
}

/// The dot-separated parts of one segment: four fields, then `v<digits>`,
/// optionally followed by a minor-version part of digits.
pub open spec fn valid_piece_parts(parts: Seq<Seq<char>>) -> bool {
    &&& (parts.len() == 5 || parts.len() == 6)
    &&& valid_field(parts[0])
    &&& valid_field(parts[1])
    &&& valid_field(parts[2])
    &&& valid_field(parts[3])
    &&& valid_version_head(parts[4])
    &&& (parts.len() == 6 ==> parts[5].len() > 0 && all_digits(parts[5]))
}

/// One segment's text, without its terminating `~` and without the `gts.`
/// prefix of a first segment.
pub open spec fn valid_segment_text(s: Seq<char>) -> bool {
    valid_piece_parts(split_seq(s, '.'))
}

/// The first `~`-piece of a chain: `gts.` and then a segment.
pub open spec fn valid_first_piece(p: Seq<char>) -> bool {
    has_prefix(p, "gts."@) && valid_segment_text(p.subrange("gts."@.len() as int, p.len() as int))
}

/// Strips the optional URI form prefix `gts://`.
pub open spec fn strip_uri(s: Seq<char>) -> Seq<char> {
    if has_prefix(s, "gts://"@) {
        s.subrange("gts://"@.len() as int, s.len() as int)
    } else {
        s
    }
}

/// The `~`-pieces of a chain body; a well-formed body ends with `~`, so the
/// last piece is empty and is not a segment.
pub open spec fn chain_pieces(t: Seq<char>) -> Seq<Seq<char>> {
    split_seq(t, '~')
}

/// A well-formed chain body: at least one `~`-terminated segment, nothing
/// after the final `~`, the first segment behind `gts.`, every further one a
/// bare segment.
pub open spec fn wf_chain_body(t: Seq<char>) -> bool {
    let pieces = chain_pieces(t);
    &&& pieces.len() >= 2
    &&& pieces.last().len() == 0
    &&& valid_first_piece(pieces[0])
    &&& forall|i: int| 1 <= i < pieces.len() - 1 ==> valid_segment_text(#[trigger] pieces[i])
}

/// A well-formed chain text, in plain or URI form.
pub open spec fn well_formed_chain_text(s: Seq<char>) -> bool {
    wf_chain_body(strip_uri(s))
}

/// The mathematical content of one segment.
pub struct SegmentModel {
    pub vendor: Seq<char>,
    pub package: Seq<char>,
    pub namespace: Seq<char>,
    pub typ: Seq<char>,
    pub version: Seq<char>,
}

pub open spec fn segment_of_parts(parts: Seq<Seq<char>>) -> SegmentModel {
    SegmentModel {
        vendor: parts[0],
        package: parts[1],
        namespace: parts[2],
        typ: parts[3],
        version: if parts.len() == 6 {
            parts[4] + seq!['.'] + parts[5]
        } else {
            parts[4]
        },
    }
}

pub open spec fn segment_of_piece(p: Seq<char>) -> SegmentModel {
    segment_of_parts(split_seq(p, '.'))
}

/// The segments of a well-formed chain body.
pub open spec fn chain_body_model(t: Seq<char>) -> Seq<SegmentModel> {
    let pieces = chain_pieces(t);
    Seq::new(
        (pieces.len() - 1) as nat,
        |i: int|
            if i == 0 {
                segment_of_piece(pieces[0].subrange("gts."@.len() as int, pieces[0].len() as int))
            } else {
                segment_of_piece(pieces[i])
            },
    )
}

/// The segments of a well-formed chain text, URI prefix stripped.
pub open spec fn chain_model(s: Seq<char>) -> Seq<SegmentModel> {
    chain_body_model(strip_uri(s))
}

/// A well-formed chain has at least one segment.
pub proof fn lemma_chain_nonempty(s: Seq<char>)
    requires
        well_formed_chain_text(s),
    ensures
        chain_model(s).len() >= 1,
{
}

/// A candidate consisting of the single character `*`: never judged by the
/// grammar; whether it is allowed at all is the caller's context decision.
pub open spec fn is_star(s: Seq<char>) -> bool {
    s.len() == 1 && s[0] == '*'
}

/// One segment of a parsed identifier chain.
#[derive(Debug, Clone)]
pub struct Segment {
    pub vendor: String,
    pub package: String,
    pub namespace: String,
    pub typ: String,
    pub version: String,
}

impl View for Segment {
    type V = SegmentModel;

    open spec fn view(&self) -> SegmentModel {
        SegmentModel {
            vendor: self.vendor@,
            package: self.package@,
            namespace: self.namespace@,
            typ: self.typ@,
            version: self.version@,
        }
    }
}

impl DeepView for Segment {
    type V = SegmentModel;

    open spec fn deep_view(&self) -> SegmentModel {
        self.view()
    }
}

/// A parsed identifier: the chain of its segments, root first.
#[derive(Debug, Clone)]
pub struct ParsedIdentifier {
    pub segments: Vec<Segment>,
}

impl View for ParsedIdentifier {
    type V = Seq<SegmentModel>;

    open spec fn view(&self) -> Seq<SegmentModel> {
        self.segments.deep_view()
    }
}

/// How candidates are discovered.  `StrictSpecOnly` surfaces only well-formed
/// identifiers, so malformed text is silently not discovered; `Heuristic`
/// surfaces every `gts.`-prefixed token so that malformed ones are reported.
#[derive(Debug, Clone, Copy, PartialEq, Eq, Structural)]
pub enum DiscoveryMode {
    StrictSpecOnly,
    Heuristic,
}

/// The grammar's judgement on a discovered candidate.
#[derive(Debug, Clone)]
pub enum Classification {
    WellFormed(ParsedIdentifier),
    Malformed,
}

fn check_field(s: &str) -> (r: bool)
    ensures
        r == valid_field(s@),
{
    let n = s.unicode_len();
    if n == 0 {
        return false;
    }
    let mut i: usize = 0;
    while i < n
        invariant
            0 <= i <= n == s@.len(),
            forall|j: int| 0 <= j < i ==> is_ident_char(#[trigger] s@[j]),
        decreases n - i,
    {
        let c = s.get_char(i);
        let ok = ('a' <= c && c <= 'z') || ('A' <= c && c <= 'Z') || ('0' <= c && c <= '9') || c
            == '_';
        if !ok {
            assert(!is_ident_char(s@[i as int]));
            return false;
        }
        i = i + 1;
    }
    true
}

fn check_digits(s: &str, from: usize) -> (r: bool)
    requires
        from <= s@.len(),
    ensures
        r == all_digits(s@.subrange(from as int, s@.len() as int)),
{
    let n = s.unicode_len();
    let ghost sub = s@.subrange(from as int, s@.len() as int);
    let mut i: usize = from;
    while i < n
        invariant
            from <= i <= n == s@.len(),
            sub == s@.subrange(from as int, s@.len() as int),
            forall|j: int| 0 <= j < i - from ==> is_digit_char(#[trigger] sub[j]),
        decreases n - i,
    {
        let c = s.get_char(i);
        if !('0' <= c && c <= '9') {
            assert(sub[i - from as int] == s@[i as int]);
            assert(!is_digit_char(sub[i - from as int]));
            return false;
        }
        assert(sub[i - from as int] == s@[i as int]);
        i = i + 1;
    }
    true
}

/// `v` plus at least one digit.
fn check_version_head(s: &str) -> (r: bool)
    ensures
        r == valid_version_head(s@),
{
    let n = s.unicode_len();
    if n < 2 {
        return false;
    }
    if s.get_char(0) != 'v' {
        return false;
    }
    check_digits(s, 1)
}

/// Parses one segment's text (no `~`, no `gts.`).
fn parse_segment(text: &str) -> (r: Option<Segment>)
    ensures
        r is Some <==> valid_segment_text(text@),
        r matches Some(seg) ==> seg@ == segment_of_piece(text@),
{
    let parts = split_str(text, '.');
    let ghost sparts = split_seq(text@, '.');
    proof {
        lemma_split_len(text@, '.');
    }
    if !(parts.len() == 5 || parts.len() == 6) {
        return None;
    }
    assert(parts.deep_view()[0] == parts@[0]@);
    assert(parts.deep_view()[1] == parts@[1]@);
    assert(parts.deep_view()[2] == parts@[2]@);
    assert(parts.deep_view()[3] == parts@[3]@);
    assert(parts.deep_view()[4] == parts@[4]@);
    if !check_field(parts[0].as_str()) {
        return None;
    }
    if !check_field(parts[1].as_str()) {
        return None;
    }
    if !check_field(parts[2].as_str()) {
        return None;
    }
    if !check_field(parts[3].as_str()) {
        return None;
    }
    if !check_version_head(parts[4].as_str()) {
        return None;
    }
    let version: String;
    if parts.len() == 6 {
        assert(parts.deep_view()[5] == parts@[5]@);
        let p5 = parts[5].as_str();
        if p5.unicode_len() == 0 {
            return None;
        }
        if !check_digits(p5, 0) {
            proof {
                assert(p5@.subrange(0, p5@.len() as int) =~= p5@);
            }
            return None;
        }
        proof {
            assert(p5@.subrange(0, p5@.len() as int) =~= p5@);
        }
        let mut v = parts[4].clone();
        v.append(".");
        v.append(p5);
        proof {
            reveal_strlit(".");
            assert("."@ =~= seq!['.']);
            assert(v@ =~= sparts[4] + seq!['.'] + sparts[5]);
        }
        version = v;
    } else {
        version = parts[4].clone();
    }
    let seg = Segment {
        vendor: parts[0].clone(),
        package: parts[1].clone(),
        namespace: parts[2].clone(),
        typ: parts[3].clone(),
        version,
    };
    assert(valid_piece_parts(sparts));
    assert(seg@ == segment_of_piece(text@));
    Some(seg)
}

/// Parses a chain body (URI prefix already stripped).
fn parse_chain_body(body: &str) -> (r: Option<ParsedIdentifier>)
    ensures
        r is Some <==> wf_chain_body(body@),
        r matches Some(p) ==> p@ == chain_body_model(body@),
{
    let pieces = split_str(body, '~');
    let ghost spieces = split_seq(body@, '~');
    proof {
        lemma_split_len(body@, '~');
    }
    let n = pieces.len();
    if n < 2 {
        return None;
    }
    assert(pieces.deep_view()[n - 1] == pieces@[n - 1]@);
    if pieces[n - 1].as_str().unicode_len() != 0 {
        assert(spieces.last().len() != 0);
        return None;
    }
    let mut segments: Vec<Segment> = Vec::new();
    let mut i: usize = 0;
    while i < n - 1
        invariant
            0 <= i <= n - 1,
            n == spieces.len(),
            n == pieces@.len(),
            pieces.deep_view() == spieces,
            spieces == split_seq(body@, '~'),
            segments.deep_view().len() == i as int,
            i >= 1 ==> valid_first_piece(spieces[0]),
            forall|j: int| 1 <= j < i ==> valid_segment_text(#[trigger] spieces[j]),
            forall|j: int|
                0 <= j < i ==> segments.deep_view()[j] == chain_body_model(body@)[j],
        decreases n - 1 - i,
    {
        assert(pieces.deep_view()[i as int] == pieces@[i as int]@);
        let piece = pieces[i].as_str();
        let seg_opt: Option<Segment>;
        if i == 0 {
            if !str_has_prefix(piece, "gts.") {
                assert(!valid_first_piece(spieces[0]));
                return None;
            }
            proof {
                reveal_strlit("gts.");
            }
            let rest = piece.substring_char(4, piece.unicode_len());
            assert(rest@ == spieces[0].subrange("gts."@.len() as int, spieces[0].len() as int));
            seg_opt = parse_segment(rest);
            proof {
                if seg_opt is None {
                    assert(!valid_first_piece(spieces[0]));
                }
            }
        } else {
            seg_opt = parse_segment(piece);
        }
        match seg_opt {
            Some(seg) => {
                let ghost old_sv = segments.deep_view();
                segments.push(seg);
                proof {
                    assert(segments.deep_view() =~= old_sv.push(seg.deep_view()));
                }
            },
            None => {
                return None;
            },
        }
        i = i + 1;
    }
    assert(wf_chain_body(body@));
    let p = ParsedIdentifier { segments };
    proof {
        assert(p@ =~= chain_body_model(body@));
    }
    Some(p)
}

/// Judges one candidate string under the given discovery mode.
///
/// A bare `*` is never judged.  A well-formed candidate is parsed into its
/// segments.  A malformed one is surfaced only under `Heuristic`; under
/// `StrictSpecOnly` it is simply not discovered.
pub fn classify(candidate: &str, mode: DiscoveryMode) -> (r: Option<Classification>)
    ensures
        is_star(candidate@) ==> r is None,
        !is_star(candidate@) && well_formed_chain_text(candidate@) ==> (r matches Some(c) && (
        c matches Classification::WellFormed(p) && p@ == chain_model(candidate@))),
        !is_star(candidate@) && !well_formed_chain_text(candidate@) ==> (if mode
            == DiscoveryMode::Heuristic {
            r matches Some(c) && c is Malformed
        } else {
            r is None
        }),
{
    let n = candidate.unicode_len();
    if n == 1 && candidate.get_char(0) == '*' {
        return None;
    }
    let parsed: Option<ParsedIdentifier>;
    if str_has_prefix(candidate, "gts://") {
        proof {
            reveal_strlit("gts://");
        }
        let body = candidate.substring_char(6, n);
        assert(body@ == strip_uri(candidate@));
        parsed = parse_chain_body(body);
    } else {
        assert(candidate@ == strip_uri(candidate@));
        parsed = parse_chain_body(candidate);
    }
    match parsed {
        Some(p) => Some(Classification::WellFormed(p)),
        None => {
            if mode == DiscoveryMode::Heuristic {
                Some(Classification::Malformed)
            } else {
                None
            }
        },
    }
}

} // verus!
