//! Working with identifier chains as values: rendering a parsed chain back to
//! its text, the `gts://` URI form, the base chain of a derived type, and
//! instance identifiers.

use vstd::prelude::*;

use crate::grammar::Classification;
use crate::grammar::DiscoveryMode;
use crate::grammar::ParsedIdentifier;
use crate::grammar::SegmentModel;
use crate::grammar::chain_model;
use crate::grammar::classify;
use crate::grammar::is_star;
use crate::grammar::well_formed_chain_text;

verus! {

broadcast use vstd::std_specs::vec::group_vec_axioms, vstd::seq::group_seq_axioms;

/// One segment's text: its five fields joined with dots.
pub open spec fn segment_text(m: SegmentModel) -> Seq<char> {
    m.vendor + "."@ + m.package + "."@ + m.namespace + "."@ + m.typ + "."@ + m.version
}

/// The text of the first `k` segments, each terminated by `~`.
pub open spec fn segs_text(chain: Seq<SegmentModel>, k: int) -> Seq<char>
    decreases k,
{
    if k <= 0 || k > chain.len() {
        Seq::empty()
    } else {
        segs_text(chain, k - 1) + segment_text(chain[k - 1]) + "~"@
    }
}

/// A chain's canonical text: `gts.` and then every segment `~`-terminated.
pub open spec fn chain_text(chain: Seq<SegmentModel>) -> Seq<char> {
    "gts."@ + segs_text(chain, chain.len() as int)
}

/// Rendering a segment parsed from a valid piece reproduces the piece.
proof fn lemma_segment_round_trip(p: Seq<char>)
    requires
        crate::grammar::valid_segment_text(p),
    ensures
        segment_text(crate::grammar::segment_of_piece(p)) =~= p,
{
    let parts = crate::text::split_seq(p, '.');
    crate::text::lemma_join_split(p, '.');
    reveal_strlit(".");
    assert("."@ =~= seq!['.']);
    if parts.len() == 5 {
        let t1 = parts.subrange(1, 5);
        let t2 = parts.subrange(2, 5);
        let t3 = parts.subrange(3, 5);
        let t4 = parts.subrange(4, 5);
        assert(t1.subrange(1, 4) =~= t2);
        assert(t2.subrange(1, 3) =~= t3);
        assert(t3.subrange(1, 2) =~= t4);
        assert(crate::text::join_seq(t4, '.') == t4[0]);
        assert(crate::text::join_seq(t3, '.') =~= t3[0] + seq!['.'] + crate::text::join_seq(
            t4,
            '.',
        ));
        assert(crate::text::join_seq(t2, '.') =~= t2[0] + seq!['.'] + crate::text::join_seq(
            t3,
            '.',
        ));
        assert(crate::text::join_seq(t1, '.') =~= t1[0] + seq!['.'] + crate::text::join_seq(
            t2,
            '.',
        ));
        assert(crate::text::join_seq(parts, '.') =~= parts[0] + seq!['.']
            + crate::text::join_seq(t1, '.'));
        assert(t1[0] == parts[1] && t2[0] == parts[2] && t3[0] == parts[3] && t4[0] == parts[4]);
    } else {
        let t1 = parts.subrange(1, 6);
        let t2 = parts.subrange(2, 6);
        let t3 = parts.subrange(3, 6);
        let t4 = parts.subrange(4, 6);
        let t5 = parts.subrange(5, 6);
        assert(t1.subrange(1, 5) =~= t2);
        assert(t2.subrange(1, 4) =~= t3);
        assert(t3.subrange(1, 3) =~= t4);
        assert(t4.subrange(1, 2) =~= t5);
        assert(crate::text::join_seq(t5, '.') == t5[0]);
        assert(crate::text::join_seq(t4, '.') =~= t4[0] + seq!['.'] + crate::text::join_seq(
            t5,
            '.',
        ));
        assert(crate::text::join_seq(t3, '.') =~= t3[0] + seq!['.'] + crate::text::join_seq(
            t4,
            '.',
        ));
        assert(crate::text::join_seq(t2, '.') =~= t2[0] + seq!['.'] + crate::text::join_seq(
            t3,
            '.',
        ));
        assert(crate::text::join_seq(t1, '.') =~= t1[0] + seq!['.'] + crate::text::join_seq(
            t2,
            '.',
        ));
        assert(crate::text::join_seq(parts, '.') =~= parts[0] + seq!['.']
            + crate::text::join_seq(t1, '.'));
        assert(t1[0] == parts[1] && t2[0] == parts[2] && t3[0] == parts[3] && t4[0] == parts[4]
            && t5[0] == parts[5]);
    }
}

/// The text of the first `k` pieces, each followed by `~`.
spec fn pieces_text(pieces: Seq<Seq<char>>, k: int) -> Seq<char>
    decreases k,
{
    if k <= 0 || k > pieces.len() {
        Seq::empty()
    } else {
        pieces_text(pieces, k - 1) + pieces[k - 1] + seq!['~']
    }
}

proof fn lemma_pieces_text_shift(pieces: Seq<Seq<char>>, k: int)
    requires
        1 <= k <= pieces.len(),
    ensures
        pieces_text(pieces, k) =~= pieces[0] + seq!['~'] + pieces_text(
            pieces.subrange(1, pieces.len() as int),
            k - 1,
        ),
    decreases k,
{
    let rest = pieces.subrange(1, pieces.len() as int);
    if k == 1 {
        assert(pieces_text(pieces, 0) =~= Seq::<char>::empty());
        assert(pieces_text(pieces, 1) =~= pieces[0] + seq!['~']);
        assert(pieces_text(rest, 0) =~= Seq::<char>::empty());
    } else {
        lemma_pieces_text_shift(pieces, k - 1);
        assert(rest[k - 2] == pieces[k - 1]);
    }
}

/// Joining with `~` is writing each piece but the last `~`-terminated, then
/// the last piece bare.
proof fn lemma_join_as_prefix(pieces: Seq<Seq<char>>)
    requires
        pieces.len() >= 1,
    ensures
        crate::text::join_seq(pieces, '~') =~= pieces_text(pieces, pieces.len() - 1)
            + pieces.last(),
    decreases pieces.len(),
{
    if pieces.len() == 1 {
    } else {
        let rest = pieces.subrange(1, pieces.len() as int);
        lemma_join_as_prefix(rest);
        lemma_pieces_text_shift(pieces, pieces.len() - 1);
        assert(rest.last() == pieces.last());
    }
}

proof fn lemma_segs_text_as_pieces(t: Seq<char>, k: int)
    requires
        crate::grammar::wf_chain_body(t),
        1 <= k <= crate::grammar::chain_pieces(t).len() - 1,
    ensures
        "gts."@ + segs_text(crate::grammar::chain_body_model(t), k) =~= pieces_text(
            crate::grammar::chain_pieces(t),
            k,
        ),
    decreases k,
{
    let pieces = crate::grammar::chain_pieces(t);
    let chain = crate::grammar::chain_body_model(t);
    reveal_strlit("~");
    assert("~"@ =~= seq!['~']);
    assert(chain.len() == pieces.len() - 1);
    assert(segs_text(chain, k) =~= segs_text(chain, k - 1) + segment_text(chain[k - 1]) + "~"@);
    assert(pieces_text(pieces, k) =~= pieces_text(pieces, k - 1) + pieces[k - 1] + seq!['~']);
    if k == 1 {
        let p0 = pieces[0];
        let body = p0.subrange("gts."@.len() as int, p0.len() as int);
        lemma_segment_round_trip(body);
        assert(chain[0] == crate::grammar::segment_of_piece(body));
        assert("gts."@ + body =~= p0);
        assert(segs_text(chain, 0) =~= Seq::<char>::empty());
        assert(pieces_text(pieces, 0) =~= Seq::<char>::empty());
    } else {
        lemma_segs_text_as_pieces(t, k - 1);
        lemma_segment_round_trip(pieces[k - 1]);
        assert(chain[k - 1] == crate::grammar::segment_of_piece(pieces[k - 1]));
    }
}

/// Rendering a parsed chain reproduces its text: for a well-formed candidate,
/// parsing and rendering is the identity (after stripping the URI prefix).
pub proof fn lemma_chain_round_trip(s: Seq<char>)
    requires
        well_formed_chain_text(s),
    ensures
        chain_text(chain_model(s)) =~= crate::grammar::strip_uri(s),
{
    let t = crate::grammar::strip_uri(s);
    let pieces = crate::grammar::chain_pieces(t);
    let chain = crate::grammar::chain_body_model(t);
    crate::text::lemma_join_split(t, '~');
    lemma_join_as_prefix(pieces);
    assert(pieces.last() =~= Seq::<char>::empty());
    assert(t =~= pieces_text(pieces, pieces.len() - 1));
    lemma_segs_text_as_pieces(t, pieces.len() - 1);
    assert(chain.len() == pieces.len() - 1);
}

fn append_segment_text(out: &mut String, seg: &crate::grammar::Segment)
    ensures
        final(out)@ == old(out)@ + segment_text(seg@),
{
    out.append(seg.vendor.as_str());
    out.append(".");
    out.append(seg.package.as_str());
    out.append(".");
    out.append(seg.namespace.as_str());
    out.append(".");
    out.append(seg.typ.as_str());
    out.append(".");
    out.append(seg.version.as_str());
    proof {
        assert(out@ =~= old(out)@ + segment_text(seg@));
    }
}

impl ParsedIdentifier {
    /// Parses a candidate as a well-formed chain; `None` for anything else.
    pub fn parse(text: &str) -> (r: Option<ParsedIdentifier>)
        ensures
            r is Some <==> (!is_star(text@) && well_formed_chain_text(text@)),
            r matches Some(p) ==> p@ == chain_model(text@),
    {
        match classify(text, DiscoveryMode::StrictSpecOnly) {
            Option::Some(Classification::WellFormed(p)) => Option::Some(p),
            _ => Option::None,
        }
    }

    /// How many segments the chain holds.
    pub fn segment_count(&self) -> (r: usize)
        ensures
            r == self@.len(),
    {
        proof {
            assert(self@.len() == self.segments@.len());
        }
        self.segments.len()
    }

    /// The chain's canonical text, `gts.`-prefixed and `~`-terminated.
    pub fn to_text(&self) -> (r: String)
        ensures
            r@ == chain_text(self@),
    {
        let mut out = "gts.".to_owned();
        let n = self.segments.len();
        let mut i: usize = 0;
        while i < n
            invariant
                0 <= i <= n == self.segments@.len(),
                self@.len() == n,
                out@ =~= "gts."@ + segs_text(self@, i as int),
            decreases n - i,
        {
            assert(self@[i as int] == self.segments@[i as int].deep_view());
            append_segment_text(&mut out, &self.segments[i]);
            out.append("~");
            i = i + 1;
        }
        out
    }

    /// The chain's fully qualified URI form, behind `gts://`.
    pub fn uri(&self) -> (r: String)
        ensures
            r@ == "gts://"@ + chain_text(self@),
    {
        let mut out = "gts://".to_owned();
        let text = self.to_text();
        out.append(text.as_str());
        out
    }

    /// The text of the base chain: everything but the most-derived segment, or
    /// `None` for a root chain of at most one segment.
    pub fn base_text(&self) -> (r: Option<String>)
        ensures
            self@.len() <= 1 ==> r is None,
            self@.len() > 1 ==> (r matches Some(t) && t@ == chain_text(
                self@.subrange(0, self@.len() - 1),
            )),
    {
        let n = self.segments.len();
        proof {
            assert(self@.len() == self.segments@.len());
        }
        if n <= 1 {
            return Option::None;
        }
        let ghost base = self@.subrange(0, self@.len() - 1);
        let mut out = "gts.".to_owned();
        let mut i: usize = 0;
        while i < n - 1
            invariant
                0 <= i <= n - 1,
                n == self.segments@.len(),
                self@.len() == n,
                1 <= n,
                base == self@.subrange(0, self@.len() - 1),
                out@ =~= "gts."@ + segs_text(base, i as int),
            decreases n - 1 - i,
        {
            assert(base[i as int] == self@[i as int]);
            assert(self@[i as int] == self.segments@[i as int].deep_view());
            append_segment_text(&mut out, &self.segments[i]);
            out.append("~");
            i = i + 1;
        }
        Option::Some(out)
    }

    /// An instance identifier: the chain's text followed by the instance's
    /// own suffix.
    pub fn instance_id(&self, instance: &str) -> (r: String)
        ensures
            r@ == chain_text(self@) + instance@,
    {
        let mut out = self.to_text();
        out.append(instance);
        out
    }
}

} // verus!
