//! The JSON scanner: decode content into the generic value tree, then walk it
//! from path `$`.  Decoding is `serde_json`'s work, behind trusted wrappers;
//! the walk is verified.

use vstd::prelude::*;

use crate::config::PolicyModel;
use crate::config::VendorPolicy;
use crate::node::Node;
use crate::node::NodeModel;
use crate::verror::ErrorModel;
use crate::verror::ValidationError;
use crate::walker::walk_model;
use crate::walker::walk_tree;

verus! {

/// Declares `serde_json::Value`, the decoded document value of both parsers,
/// so that it can stand in signatures; it stays opaque to the verifier.
#[verifier::external_type_specification]
#[verifier::external_body]
pub struct ExSerdeJsonValue(serde_json::Value);

/// The tree content of one `serde_json::Value`.
pub uninterp spec fn node_of(v: serde_json::Value) -> NodeModel;

/// Whether a text parses as one JSON document, and into which tree; the
/// result of `serde_json::from_str` depends on the text alone.
pub uninterp spec fn json_doc_of(s: Seq<char>) -> Option<NodeModel>;

/// Relies on `serde_json::from_str::<serde_json::Value>`: deterministic in
/// the input text; `Ok` exactly when the text is one well-formed JSON
/// document.
#[verifier::external_body]
fn parse_json_value(s: &str) -> (r: Option<serde_json::Value>)
    ensures
        r is Some <==> json_doc_of(s@) is Some,
        r matches Some(v) ==> json_doc_of(s@) == Some(node_of(v)),
{
    serde_json::from_str::<serde_json::Value>(s).ok()
}

/// Relies on reading a `serde_json::Value`: each variant is moved to the
/// matching tree node, a number to its decimal text.
#[verifier::external_body]
pub(crate) fn to_node(v: &serde_json::Value) -> (n: Node)
    ensures
        n.deep_view() == node_of(*v),
{
    match v {
        serde_json::Value::Null => Node::Null,
        serde_json::Value::Bool(b) => Node::Bool(*b),
        serde_json::Value::Number(x) => Node::Number(x.to_string()),
        serde_json::Value::String(s) => Node::Text(s.clone()),
        serde_json::Value::Array(a) => Node::Array(a.iter().map(to_node).collect()),
        serde_json::Value::Object(m) => Node::Object(
            m.iter().map(|(k, x)| (k.clone(), to_node(x))).collect(),
        ),
    }
}

/// The findings of the JSON scan: the decoded tree walked from `$`, or
/// nothing when the content does not decode.
pub open spec fn scan_json_model(
    content: Seq<char>,
    fpath: Seq<char>,
    policy: PolicyModel,
    scan_keys: bool,
) -> Option<Seq<ErrorModel>> {
    match json_doc_of(content) {
        Option::Some(doc) => Option::Some(walk_model(doc, fpath, "$"@, policy, scan_keys)),
        Option::None => Option::None,
    }
}

/// Scans JSON content for identifier candidates.  Returns `None` when the
/// content fails to decode as JSON; such a file is skipped silently and not
/// counted as scanned.
pub fn scan_json_content(content: &str, path: &str, policy: &VendorPolicy, scan_keys: bool) -> (r:
    Option<Vec<ValidationError>>)
    ensures
        r is Some <==> json_doc_of(content@) is Some,
        r matches Some(errors) ==> Some(errors.deep_view()) == scan_json_model(
            content@,
            path@,
            policy@,
            scan_keys,
        ),
{
    match parse_json_value(content) {
        Option::None => Option::None,
        Option::Some(v) => {
            let node = to_node(&v);
            let mut errors: Vec<ValidationError> = Vec::new();
            walk_tree(&node, path, "$", policy, scan_keys, &mut errors);
            Option::Some(errors)
        },
    }
}

} // verus!
