//! The generic tree walker shared by the JSON and YAML scanners.
//!
//! Walking is a pre-order visit.  String values that begin with `gts.` or
//! `gts://` are judged; object keys are judged too when key scanning is on;
//! array elements are visited positionally.  The one exception: a key
//! literally named `x-gts-ref` whose string value holds a `*` is a filter
//! pattern and is exempt from checking.  Findings carry a JSON-Pointer-like
//! path built during the walk.

use vstd::prelude::*;

use crate::candidate::judge_candidate;
use crate::candidate::judge_model;
use crate::config::PolicyModel;
use crate::config::VendorPolicy;
use crate::node::Node;
use crate::node::NodeModel;
use crate::node::lemma_entries_model;
use crate::node::lemma_nodes_model;
use crate::text::dec_digits;
use crate::text::has_prefix;
use crate::text::str_contains_char;
use crate::text::str_eq;
use crate::text::str_has_prefix;
use crate::text::u64_to_string;
use crate::verror::ErrorLocation;
use crate::verror::ErrorModel;
use crate::verror::LocationModel;
use crate::verror::ValidationError;

verus! {

broadcast use vstd::std_specs::vec::group_vec_axioms, vstd::seq::group_seq_axioms;

/// A string value the walker judges: one that looks like an identifier.
pub open spec fn is_tree_candidate(s: Seq<char>) -> bool {
    has_prefix(s, "gts."@) || has_prefix(s, "gts://"@)
}

/// The pointer of an array element.
pub open spec fn elem_ptr(ptr: Seq<char>, i: int) -> Seq<char> {
    ptr + "["@ + dec_digits(i as nat) + "]"@
}

/// The pointer of an object entry.
pub open spec fn key_ptr(ptr: Seq<char>, key: Seq<char>) -> Seq<char> {
    ptr + "."@ + key
}

/// A filter-pattern entry that is exempt from checking: the key `x-gts-ref`
/// with a string value holding a `*` (a bare `*` or a pattern such as
/// `gts.x.core.*`).
pub open spec fn exempt_entry(key: Seq<char>, v: NodeModel) -> bool {
    &&& key == "x-gts-ref"@
    &&& v matches NodeModel::Text(s) && s.contains('*')
}

/// The findings on one string value.
pub open spec fn value_errs(
    s: Seq<char>,
    fpath: Seq<char>,
    ptr: Seq<char>,
    policy: PolicyModel,
) -> Seq<ErrorModel> {
    if is_tree_candidate(s) {
        judge_model(s, fpath, LocationModel::Pointer(ptr), policy, true)
    } else {
        Seq::empty()
    }
}

/// The findings on one object key.
pub open spec fn key_errs(
    key: Seq<char>,
    fpath: Seq<char>,
    ptr: Seq<char>,
    policy: PolicyModel,
    scan_keys: bool,
) -> Seq<ErrorModel> {
    if scan_keys && is_tree_candidate(key) {
        judge_model(key, fpath, LocationModel::Pointer(key_ptr(ptr, key)), policy, true)
    } else {
        Seq::empty()
    }
}

/// The findings of walking one value, in pre-order.
pub open spec fn walk_model(
    n: NodeModel,
    fpath: Seq<char>,
    ptr: Seq<char>,
    policy: PolicyModel,
    scan_keys: bool,
) -> Seq<ErrorModel>
    decreases n, 0int,
{
    match n {
        NodeModel::Text(s) => value_errs(s, fpath, ptr, policy),
        NodeModel::Array(items) => arr_model(
            items,
            items.len() as int,
            fpath,
            ptr,
            policy,
            scan_keys,
        ),
        NodeModel::Object(fields) => obj_model(
            fields,
            fields.len() as int,
            fpath,
            ptr,
            policy,
            scan_keys,
        ),
        _ => Seq::empty(),
    }
}

/// The findings of walking the first `k` elements of an array.
pub open spec fn arr_model(
    items: Seq<NodeModel>,
    k: int,
    fpath: Seq<char>,
    ptr: Seq<char>,
    policy: PolicyModel,
    scan_keys: bool,
) -> Seq<ErrorModel>
    decreases items, 1int, k,
{
    if k <= 0 || k > items.len() {
        Seq::empty()
    } else {
        arr_model(items, k - 1, fpath, ptr, policy, scan_keys) + walk_model(
            items[k - 1],
            fpath,
            elem_ptr(ptr, k - 1),
            policy,
            scan_keys,
        )
    }
}

/// The findings of walking the first `k` entries of an object: each key when
/// key scanning is on, then the entry's value unless the entry is exempt.
pub open spec fn obj_model(
    fields: Seq<(Seq<char>, NodeModel)>,
    k: int,
    fpath: Seq<char>,
    ptr: Seq<char>,
    policy: PolicyModel,
    scan_keys: bool,
) -> Seq<ErrorModel>
    decreases fields, 1int, k,
{
    if k <= 0 || k > fields.len() {
        Seq::empty()
    } else {
        obj_model(fields, k - 1, fpath, ptr, policy, scan_keys) + key_errs(
            fields[k - 1].0,
            fpath,
            ptr,
            policy,
            scan_keys,
        ) + (if exempt_entry(fields[k - 1].0, fields[k - 1].1) {
            Seq::empty()
        } else {
            walk_model(
                fields[k - 1].1,
                fpath,
                key_ptr(ptr, fields[k - 1].0),
                policy,
                scan_keys,
            )
        })
    }
}

/// Builds the pointer of array element `i`.
fn elem_ptr_str(ptr: &str, i: usize) -> (r: String)
    ensures
        r@ == elem_ptr(ptr@, i as int),
{
    let mut r = ptr.to_owned();
    r.append("[");
    let d = u64_to_string(i as u64);
    r.append(d.as_str());
    r.append("]");
    proof {
        assert(r@ =~= elem_ptr(ptr@, i as int));
    }
    r
}

/// Builds the pointer of the entry under `key`.
fn key_ptr_str(ptr: &str, key: &str) -> (r: String)
    ensures
        r@ == key_ptr(ptr@, key@),
{
    let mut r = ptr.to_owned();
    r.append(".");
    r.append(key);
    proof {
        assert(r@ =~= key_ptr(ptr@, key@));
    }
    r
}

/// Walks one decoded value and appends the findings in pre-order.
pub fn walk_tree(
    n: &Node,
    fpath: &str,
    ptr: &str,
    policy: &VendorPolicy,
    scan_keys: bool,
    errors: &mut Vec<ValidationError>,
)
    ensures
        final(errors).deep_view() =~= old(errors).deep_view() + walk_model(
            n.deep_view(),
            fpath@,
            ptr@,
            policy@,
            scan_keys,
        ),
    decreases n,
{
    match n {
        Node::Text(s) => {
            if str_has_prefix(s.as_str(), "gts.") || str_has_prefix(s.as_str(), "gts://") {
                judge_candidate(
                    s.as_str(),
                    fpath,
                    ErrorLocation::Pointer(ptr.to_owned()),
                    policy,
                    true,
                    errors,
                );
            }
        },
        Node::Array(items) => {
            let ghost models = nodes_model_of(items);
            proof {
                lemma_nodes_model(items@, items@.len() as int);
            }
            let m = items.len();
            let mut i: usize = 0;
            while i < m
                invariant
                    0 <= i <= m == items@.len(),
                    *n == Node::Array(*items),
                    models == nodes_model_of(items),
                    models.len() == m,
                    forall|j: int|
                        0 <= j < m ==> models[j] == crate::node::node_model(#[trigger] items@[j]),
                    errors.deep_view() =~= old(errors).deep_view() + arr_model(
                        models,
                        i as int,
                        fpath@,
                        ptr@,
                        policy@,
                        scan_keys,
                    ),
                decreases m - i,
            {
                let child_ptr = elem_ptr_str(ptr, i);
                proof {
                    assert(decreases_to!(*n => n->Array_0));
                    assert(n->Array_0 == *items);
                    assert(decreases_to!(*items => items@));
                    assert(decreases_to!(items@ => items@[i as int]));
                }
                walk_tree(&items[i], fpath, child_ptr.as_str(), policy, scan_keys, errors);
                i = i + 1;
            }
        },
        Node::Object(fields) => {
            let ghost models = entries_model_of(fields);
            proof {
                lemma_entries_model(fields@, fields@.len() as int);
            }
            let m = fields.len();
            let mut i: usize = 0;
            while i < m
                invariant
                    0 <= i <= m == fields@.len(),
                    *n == Node::Object(*fields),
                    models == entries_model_of(fields),
                    models.len() == m,
                    forall|j: int|
                        0 <= j < m ==> models[j] == (
                            (#[trigger] fields@[j]).0@,
                            crate::node::node_model(fields@[j].1),
                        ),
                    errors.deep_view() =~= old(errors).deep_view() + obj_model(
                        models,
                        i as int,
                        fpath@,
                        ptr@,
                        policy@,
                        scan_keys,
                    ),
                decreases m - i,
            {
                let key = fields[i].0.as_str();
                let value = &fields[i].1;
                if scan_keys && (str_has_prefix(key, "gts.") || str_has_prefix(key, "gts://")) {
                    let kp = key_ptr_str(ptr, key);
                    judge_candidate(
                        key,
                        fpath,
                        ErrorLocation::Pointer(kp),
                        policy,
                        true,
                        errors,
                    );
                }
                let exempt: bool;
                if str_eq(key, "x-gts-ref") {
                    match value.as_text() {
                        Some(t) => {
                            exempt = str_contains_char(t.as_str(), '*');
                        },
                        None => {
                            exempt = false;
                        },
                    }
                } else {
                    exempt = false;
                }
                assert(exempt == exempt_entry(models[i as int].0, models[i as int].1));
                if !exempt {
                    let vp = key_ptr_str(ptr, key);
                    proof {
                        assert(decreases_to!(*n => n->Object_0));
                        assert(n->Object_0 == *fields);
                        assert(decreases_to!(*fields => fields@));
                        assert(decreases_to!(fields@ => fields@[i as int]));
                        assert(decreases_to!(fields@[i as int] => fields@[i as int].1));
                    }
                    walk_tree(value, fpath, vp.as_str(), policy, scan_keys, errors);
                }
                i = i + 1;
            }
        },
        _ => {},
    }
}

/// The models of a node vector's elements.
pub open spec fn nodes_model_of(items: &Vec<Node>) -> Seq<NodeModel> {
    crate::node::nodes_model(items@, items@.len() as int)
}

/// The models of an entry vector's elements.
pub open spec fn entries_model_of(fields: &Vec<(String, Node)>) -> Seq<(Seq<char>, NodeModel)> {
    crate::node::entries_model(fields@, fields@.len() as int)
}

} // verus!
