//! The generic decoded value tree shared by the JSON and YAML walkers:
//! null, booleans, numbers, text, ordered arrays and ordered-key objects.

use vstd::prelude::*;

use crate::text::dec_digits;
use crate::text::str_eq;
use crate::text::u64_to_string;

verus! {

broadcast use vstd::std_specs::vec::group_vec_axioms, vstd::seq::group_seq_axioms;

/// One decoded document value.  Numbers are kept as their decimal text; the
/// walkers never judge them.
#[derive(Debug)]
pub enum Node {
    Null,
    Bool(bool),
    Number(String),
    Text(String),
    Array(Vec<Node>),
    Object(Vec<(String, Node)>),
}

/// The mathematical content of a decoded value.
pub enum NodeModel {
    Null,
    Bool(bool),
    Number(Seq<char>),
    Text(Seq<char>),
    Array(Seq<NodeModel>),
    Object(Seq<(Seq<char>, NodeModel)>),
}

/// The mathematical content of one node.
pub open spec fn node_model(n: Node) -> NodeModel
    decreases n, 0int,
{
    match n {
        Node::Null => NodeModel::Null,
        Node::Bool(b) => NodeModel::Bool(b),
        Node::Number(s) => NodeModel::Number(s@),
        Node::Text(s) => NodeModel::Text(s@),
        Node::Array(items) => NodeModel::Array(nodes_model(items@, items@.len() as int)),
        Node::Object(fields) => NodeModel::Object(entries_model(fields@, fields@.len() as int)),
    }
}

/// The models of the first `k` nodes of a sequence.
pub open spec fn nodes_model(items: Seq<Node>, k: int) -> Seq<NodeModel>
    decreases items, 1int, k,
{
    if k <= 0 || k > items.len() {
        Seq::empty()
    } else {
        nodes_model(items, k - 1).push(node_model(items[k - 1]))
    }
}

/// The models of the first `k` object entries.
pub open spec fn entries_model(fields: Seq<(String, Node)>, k: int) -> Seq<(Seq<char>, NodeModel)>
    decreases fields, 1int, k,
{
    if k <= 0 || k > fields.len() {
        Seq::empty()
    } else {
        entries_model(fields, k - 1).push((fields[k - 1].0@, node_model(fields[k - 1].1)))
    }
}

pub proof fn lemma_nodes_model(items: Seq<Node>, k: int)
    requires
        0 <= k <= items.len(),
    ensures
        nodes_model(items, k).len() == k,
        forall|j: int| 0 <= j < k ==> nodes_model(items, k)[j] == node_model(items[j]),
    decreases k,
{
    if k > 0 {
        lemma_nodes_model(items, k - 1);
    }
}

pub proof fn lemma_entries_model(fields: Seq<(String, Node)>, k: int)
    requires
        0 <= k <= fields.len(),
    ensures
        entries_model(fields, k).len() == k,
        forall|j: int|
            0 <= j < k ==> entries_model(fields, k)[j] == (fields[j].0@, node_model(fields[j].1)),
    decreases k,
{
    if k > 0 {
        lemma_entries_model(fields, k - 1);
    }
}

impl DeepView for Node {
    type V = NodeModel;

    open spec fn deep_view(&self) -> NodeModel {
        node_model(*self)
    }
}

/// A node's model agrees with the element-wise deep view of its children.
pub proof fn lemma_node_children_view(items: Vec<Node>)
    ensures
        nodes_model(items@, items@.len() as int) =~= items.deep_view(),
{
    lemma_nodes_model(items@, items@.len() as int);
}

pub proof fn lemma_node_entries_view(fields: Vec<(String, Node)>)
    ensures
        entries_model(fields@, fields@.len() as int) =~= fields.deep_view(),
{
    lemma_entries_model(fields@, fields@.len() as int);
}

impl Node {
    /// A text value.
    pub fn text(s: &str) -> (n: Node)
        ensures
            n.deep_view() == NodeModel::Text(s@),
    {
        Node::Text(s.to_owned())
    }

    /// A number value holding the decimal text of `v`.
    pub fn number_u64(v: u64) -> (n: Node)
        ensures
            n.deep_view() == NodeModel::Number(dec_digits(v as nat)),
    {
        Node::Number(u64_to_string(v))
    }

    /// A structural copy of the value.
    pub fn duplicate(&self) -> (r: Node)
        ensures
            r.deep_view() == self.deep_view(),
        decreases self,
    {
        match self {
            Node::Null => Node::Null,
            Node::Bool(b) => Node::Bool(*b),
            Node::Number(s) => Node::Number(s.clone()),
            Node::Text(s) => Node::Text(s.clone()),
            Node::Array(items) => {
                let n = items.len();
                let mut out: Vec<Node> = Vec::new();
                let mut i: usize = 0;
                while i < n
                    invariant
                        0 <= i <= n == items@.len(),
                        *self == Node::Array(*items),
                        out@.len() == i,
                        forall|j: int|
                            0 <= j < i ==> node_model(#[trigger] out@[j]) == node_model(
                                items@[j],
                            ),
                    decreases n - i,
                {
                    proof {
                        assert(decreases_to!(*self => self->Array_0));
                        assert(self->Array_0 == *items);
                        assert(decreases_to!(*items => items@));
                        assert(decreases_to!(items@ => items@[i as int]));
                    }
                    let copy = items[i].duplicate();
                    out.push(copy);
                    i = i + 1;
                }
                proof {
                    lemma_nodes_model(out@, out@.len() as int);
                    lemma_nodes_model(items@, items@.len() as int);
                    assert(nodes_model(out@, out@.len() as int) =~= nodes_model(
                        items@,
                        items@.len() as int,
                    ));
                }
                Node::Array(out)
            },
            Node::Object(fields) => {
                let n = fields.len();
                let mut out: Vec<(String, Node)> = Vec::new();
                let mut i: usize = 0;
                while i < n
                    invariant
                        0 <= i <= n == fields@.len(),
                        *self == Node::Object(*fields),
                        out@.len() == i,
                        forall|j: int|
                            0 <= j < i ==> (#[trigger] out@[j]).0@ == fields@[j].0@ && node_model(
                                out@[j].1,
                            ) == node_model(fields@[j].1),
                    decreases n - i,
                {
                    proof {
                        assert(decreases_to!(*self => self->Object_0));
                        assert(self->Object_0 == *fields);
                        assert(decreases_to!(*fields => fields@));
                        assert(decreases_to!(fields@ => fields@[i as int]));
                        assert(decreases_to!(fields@[i as int] => fields@[i as int].1));
                    }
                    let name = fields[i].0.clone();
                    let copy = fields[i].1.duplicate();
                    out.push((name, copy));
                    i = i + 1;
                }
                proof {
                    lemma_entries_model(out@, out@.len() as int);
                    lemma_entries_model(fields@, fields@.len() as int);
                    assert(entries_model(out@, out@.len() as int) =~= entries_model(
                        fields@,
                        fields@.len() as int,
                    ));
                }
                Node::Object(out)
            },
        }
    }

    /// The text of a text value.
    pub fn as_text(&self) -> (r: Option<&String>)
        ensures
            r matches Some(s) ==> self.deep_view() == NodeModel::Text(s@),
            r is None ==> !(self.deep_view() is Text),
    {
        match self {
            Node::Text(s) => Some(s),
            _ => None,
        }
    }

    /// The decimal text of a number value.
    pub fn as_number(&self) -> (r: Option<&String>)
        ensures
            r matches Some(s) ==> self.deep_view() == NodeModel::Number(s@),
            r is None ==> !(self.deep_view() is Number),
    {
        match self {
            Node::Number(s) => Some(s),
            _ => None,
        }
    }

    /// The items of an array value.
    pub fn as_array(&self) -> (r: Option<&Vec<Node>>)
        ensures
            r matches Some(items) ==> self.deep_view() == NodeModel::Array(items.deep_view()),
            r is None ==> !(self.deep_view() is Array),
    {
        match self {
            Node::Array(items) => {
                proof {
                    lemma_nodes_model(items@, items@.len() as int);
                    assert(nodes_model(items@, items@.len() as int) =~= items.deep_view());
                }
                Some(items)
            },
            _ => None,
        }
    }

    /// The fields of an object value.
    pub fn as_object(&self) -> (r: Option<&Vec<(String, Node)>>)
        ensures
            r matches Some(fields) ==> self.deep_view() == NodeModel::Object(fields.deep_view()),
            r is None ==> !(self.deep_view() is Object),
    {
        match self {
            Node::Object(fields) => {
                proof {
                    lemma_entries_model(fields@, fields@.len() as int);
                    assert(entries_model(fields@, fields@.len() as int) =~= fields.deep_view());
                }
                Some(fields)
            },
            _ => None,
        }
    }
}

/// The value under the first binding of `key`, if any.
pub open spec fn fields_lookup(
    fields: Seq<(Seq<char>, NodeModel)>,
    key: Seq<char>,
) -> Option<NodeModel>
    decreases fields.len(),
{
    if fields.len() == 0 {
        Option::None
    } else if fields[0].0 == key {
        Option::Some(fields[0].1)
    } else {
        fields_lookup(fields.drop_first(), key)
    }
}

/// The value under the first binding of `key` in an object's fields.
pub fn fields_get<'a>(fields: &'a Vec<(String, Node)>, key: &str) -> (r: Option<&'a Node>)
    ensures
        r matches Some(v) ==> fields_lookup(fields.deep_view(), key@) == Some(v.deep_view()),
        r is None ==> fields_lookup(fields.deep_view(), key@) is None,
{
    let n = fields.len();
    let mut i: usize = 0;
    proof {
        assert(fields.deep_view().len() == fields@.len());
        assert(fields.deep_view().subrange(0, n as int) =~= fields.deep_view());
    }
    while i < n
        invariant
            0 <= i <= n == fields@.len(),
            fields_lookup(fields.deep_view(), key@) == fields_lookup(
                fields.deep_view().subrange(i as int, n as int),
                key@,
            ),
        decreases n - i,
    {
        assert(fields.deep_view()[i as int] == (
            fields@[i as int].0@,
            fields@[i as int].1.deep_view(),
        ));
        let ghost rest = fields.deep_view().subrange(i as int, n as int);
        assert(rest[0] == fields.deep_view()[i as int]);
        if str_eq(fields[i].0.as_str(), key) {
            return Some(&fields[i].1);
        }
        proof {
            assert(rest.drop_first() =~= fields.deep_view().subrange(i + 1, n as int));
        }
        i = i + 1;
    }
    proof {
        assert(fields.deep_view().subrange(i as int, n as int).len() == 0);
    }
    None
}

} // verus!
