//! Error-type identity built on identifier chains: a root error type is one
//! `gts.`-prefixed segment; a derived error type extends its base's chain by
//! one segment.  Each carries an HTTP status code and a human-readable title,
//! and an error value's metadata is collected from named fields, with
//! sensitive fields skipped and violation lists placed under the `errors` key.

use vstd::prelude::*;

use crate::chain::chain_text;
use crate::grammar::ParsedIdentifier;
use crate::grammar::SegmentModel;
use crate::grammar::chain_model;
use crate::grammar::is_star;
use crate::grammar::well_formed_chain_text;
use crate::node::Node;
use crate::node::NodeModel;
use crate::node::node_model;

verus! {

broadcast use vstd::std_specs::vec::group_vec_axioms, vstd::seq::group_seq_axioms;

/// One error type: its identifier chain, HTTP status and title.
#[derive(Debug)]
pub struct GtsErrorType {
    /// The chain from the root error type to this one.
    pub chain: ParsedIdentifier,
    /// The HTTP status code, between 100 and 599.
    pub status: u16,
    /// The static human-readable title.
    pub title: String,
}

/// The mathematical content of an error type.
pub struct ErrorTypeModel {
    pub chain: Seq<SegmentModel>,
    pub status: int,
    pub title: Seq<char>,
}

impl View for GtsErrorType {
    type V = ErrorTypeModel;

    open spec fn view(&self) -> ErrorTypeModel {
        ErrorTypeModel { chain: self.chain@, status: self.status as int, title: self.title@ }
    }
}

/// A valid HTTP status code for an error type.
pub open spec fn valid_status(status: int) -> bool {
    100 <= status <= 599
}

/// A valid root error type declaration: the `~`-terminated type text is a
/// well-formed chain.
pub open spec fn valid_root_type(typ: Seq<char>, status: int) -> bool {
    &&& valid_status(status)
    &&& well_formed_chain_text(typ + "~"@)
}

/// A valid derived error type declaration: the base's chain text followed by
/// the `~`-terminated type text is a well-formed chain.
pub open spec fn valid_child_type(
    base: Seq<SegmentModel>,
    typ: Seq<char>,
    status: int,
) -> bool {
    &&& valid_status(status)
    &&& well_formed_chain_text(chain_text(base) + typ + "~"@)
}

impl GtsErrorType {
    /// Declares a root error type from its type text (written without the
    /// final `~`), status and title; `None` when the text is no well-formed
    /// identifier or the status is out of range.
    pub fn root(typ: &str, status: u16, title: &str) -> (r: Option<GtsErrorType>)
        ensures
            r is Some <==> valid_root_type(typ@, status as int),
            r matches Some(e) ==> (e@.chain == chain_model(typ@ + "~"@) && e@.status
                == status as int && e@.title == title@),
    {
        if status < 100 || status > 599 {
            return Option::None;
        }
        let mut text = typ.to_owned();
        text.append("~");
        proof {
            reveal_strlit("~");
            assert(text@.len() >= 1 && text@[text@.len() - 1] == '~');
            assert(!is_star(text@));
        }
        match ParsedIdentifier::parse(text.as_str()) {
            Option::Some(chain) => Option::Some(
                GtsErrorType { chain, status, title: title.to_owned() },
            ),
            Option::None => Option::None,
        }
    }

    /// Declares an error type derived from `base` by one more segment
    /// (written without the final `~`); `None` when the extended chain is no
    /// well-formed identifier or the status is out of range.
    pub fn child(base: &GtsErrorType, typ: &str, status: u16, title: &str) -> (r: Option<
        GtsErrorType,
    >)
        ensures
            r is Some <==> valid_child_type(base@.chain, typ@, status as int),
            r matches Some(e) ==> (e@.chain == chain_model(chain_text(base@.chain) + typ@ + "~"@)
                && e@.status == status as int && e@.title == title@),
    {
        if status < 100 || status > 599 {
            return Option::None;
        }
        let mut text = base.chain.to_text();
        text.append(typ);
        text.append("~");
        proof {
            reveal_strlit("~");
            assert(text@.len() >= 1 && text@[text@.len() - 1] == '~');
            assert(!is_star(text@));
        }
        match ParsedIdentifier::parse(text.as_str()) {
            Option::Some(chain) => Option::Some(
                GtsErrorType { chain, status, title: title.to_owned() },
            ),
            Option::None => Option::None,
        }
    }

    /// The full GTS type URI of this error type.
    pub fn gts_id(&self) -> (r: String)
        ensures
            r@ == "gts://"@ + chain_text(self@.chain),
    {
        self.chain.uri()
    }

    /// The error type rendered for display: its title, then its URI.
    pub fn display_string(&self) -> (r: String)
        ensures
            r@ == self@.title + ": "@ + "gts://"@ + chain_text(self@.chain),
    {
        let mut out = self.title.clone();
        out.append(": ");
        let id = self.gts_id();
        out.append(id.as_str());
        proof {
            assert(out@ =~= self@.title + ": "@ + ("gts://"@ + chain_text(self@.chain)));
        }
        out
    }
}

/// How one field takes part in an error value's metadata.
#[derive(Debug, Clone, Copy, PartialEq, Eq, Structural)]
pub enum MetaRole {
    /// Included under the field's own name.
    Plain,
    /// Excluded from the metadata.
    Skip,
    /// Included under the `errors` key.
    AsErrors,
}

/// One named field of an error value.
#[derive(Debug)]
pub struct MetaField {
    pub name: String,
    pub value: Node,
    pub role: MetaRole,
}

/// The mathematical content of one field.
pub struct MetaFieldModel {
    pub name: Seq<char>,
    pub value: NodeModel,
    pub role: MetaRole,
}

impl View for MetaField {
    type V = MetaFieldModel;

    open spec fn view(&self) -> MetaFieldModel {
        MetaFieldModel { name: self.name@, value: node_model(self.value), role: self.role }
    }
}

impl DeepView for MetaField {
    type V = MetaFieldModel;

    open spec fn deep_view(&self) -> MetaFieldModel {
        self.view()
    }
}

/// The metadata pairs of the first `k` fields: skipped fields contribute
/// nothing, plain fields their own name, as-errors fields the `errors` key.
pub open spec fn meta_pairs(fields: Seq<MetaFieldModel>, k: int) -> Seq<(Seq<char>, NodeModel)>
    decreases k,
{
    if k <= 0 || k > fields.len() {
        Seq::empty()
    } else {
        meta_pairs(fields, k - 1) + (match fields[k - 1].role {
            MetaRole::Skip => Seq::empty(),
            MetaRole::Plain => seq![(fields[k - 1].name, fields[k - 1].value)],
            MetaRole::AsErrors => seq![("errors"@, fields[k - 1].value)],
        })
    }
}

/// The collected metadata: `None` when no field is eligible.
pub open spec fn metadata_model(fields: Seq<MetaFieldModel>) -> Option<
    Seq<(Seq<char>, NodeModel)>,
> {
    let pairs = meta_pairs(fields, fields.len() as int);
    if pairs.len() == 0 {
        Option::None
    } else {
        Option::Some(pairs)
    }
}

/// Collects an error value's sanitized metadata from its fields: skipped
/// fields are excluded, as-errors fields are placed under the `errors` key,
/// every other field under its own name; `None` when nothing is eligible.
pub fn error_metadata(fields: &Vec<MetaField>) -> (r: Option<Vec<(String, Node)>>)
    ensures
        r is Some <==> metadata_model(fields.deep_view()) is Some,
        r matches Some(pairs) ==> Some(pairs.deep_view()) == metadata_model(fields.deep_view()),
{
    let ghost fmodels = fields.deep_view();
    let mut pairs: Vec<(String, Node)> = Vec::new();
    let n = fields.len();
    let mut i: usize = 0;
    while i < n
        invariant
            0 <= i <= n == fields@.len(),
            fmodels == fields.deep_view(),
            pairs.deep_view() =~= meta_pairs(fmodels, i as int),
        decreases n - i,
    {
        assert(fields.deep_view()[i as int] == fields@[i as int].deep_view());
        let ghost before = pairs.deep_view();
        match fields[i].role {
            MetaRole::Skip => {},
            MetaRole::Plain => {
                let name = fields[i].name.clone();
                let value = fields[i].value.duplicate();
                pairs.push((name, value));
                proof {
                    assert(pairs.deep_view() =~= before.push(
                        (fmodels[i as int].name, fmodels[i as int].value),
                    ));
                }
            },
            MetaRole::AsErrors => {
                let value = fields[i].value.duplicate();
                pairs.push(("errors".to_owned(), value));
                proof {
                    assert(pairs.deep_view() =~= before.push(
                        ("errors"@, fmodels[i as int].value),
                    ));
                }
            },
        }
        i = i + 1;
    }
    if pairs.len() == 0 {
        proof {
            assert(meta_pairs(fmodels, n as int).len() == 0);
        }
        Option::None
    } else {
        Option::Some(pairs)
    }
}

} // verus!
