//! A parsed YAML document as a tree of plain values.
//!
//! The engine never reads template text itself: the trusted [`parse_yaml`]
//! hands it a [`YamlNode`] tree of plain strings, booleans, lists and
//! ordered mappings, and everything that interprets the tree — version
//! guard, document model, rule payloads — is verified code over that tree.

use vstd::prelude::*;
use vstd::string::*;

use crate::text::str_eq;

verus! {

broadcast use vstd::std_specs::vec::axiom_vec_index_decreases;

/// One node of a parsed YAML document: a null, a boolean, a scalar (string
/// or number, carried as its text), a list, or a mapping with string keys
/// in document order.
#[derive(Debug)]
pub enum YamlNode {
    Null,
    Bool(bool),
    Scalar(String),
    List(Vec<YamlNode>),
    Mapping(Vec<(String, YamlNode)>),
}

/// The mathematical image of a [`YamlNode`].
pub enum NodeV {
    Null,
    Bool(bool),
    Scalar(Seq<char>),
    List(Seq<NodeV>),
    Mapping(Seq<(Seq<char>, NodeV)>),
}

/// The image of `n`: every string becomes its character sequence.
pub open spec fn node_view(n: YamlNode) -> NodeV
    decreases n,
{
    match n {
        YamlNode::Null => NodeV::Null,
        YamlNode::Bool(b) => NodeV::Bool(b),
        YamlNode::Scalar(s) => NodeV::Scalar(s@),
        YamlNode::List(v) => NodeV::List(nodes_view(v@)),
        YamlNode::Mapping(v) => NodeV::Mapping(entries_view(v@)),
    }
}

/// The images of a sequence of nodes, in order.
pub open spec fn nodes_view(s: Seq<YamlNode>) -> Seq<NodeV>
    decreases s,
{
    if s.len() == 0 {
        Seq::<NodeV>::empty()
    } else {
        seq![node_view(s[0])] + nodes_view(s.drop_first())
    }
}

/// The images of a sequence of mapping entries, in order.
pub open spec fn entries_view(s: Seq<(String, YamlNode)>) -> Seq<(Seq<char>, NodeV)>
    decreases s,
{
    if s.len() == 0 {
        Seq::<(Seq<char>, NodeV)>::empty()
    } else {
        seq![(s[0].0@, node_view(s[0].1))] + entries_view(s.drop_first())
    }
}

/// The image of a node sequence is as long as the sequence and is its
/// pointwise image.
pub proof fn lemma_nodes_view(s: Seq<YamlNode>)
    ensures
        nodes_view(s).len() == s.len(),
        forall|i: int| 0 <= i < s.len() ==> nodes_view(s)[i] == node_view(#[trigger] s[i]),
    decreases s.len(),
{
    if s.len() > 0 {
        lemma_nodes_view(s.drop_first());
        assert forall|i: int| 0 <= i < s.len() implies nodes_view(s)[i] == node_view(
            #[trigger] s[i],
        ) by {
            if i > 0 {
                assert(s.drop_first()[i - 1] == s[i]);
                assert(nodes_view(s)[i] == nodes_view(s.drop_first())[i - 1]);
            }
        }
    }
}

/// The image of an entry sequence is as long as the sequence and is its
/// pointwise image.
pub proof fn lemma_entries_view(s: Seq<(String, YamlNode)>)
    ensures
        entries_view(s).len() == s.len(),
        forall|i: int|
            0 <= i < s.len() ==> entries_view(s)[i] == ((#[trigger] s[i]).0@, node_view(s[i].1)),
    decreases s.len(),
{
    if s.len() > 0 {
        lemma_entries_view(s.drop_first());
        assert forall|i: int| 0 <= i < s.len() implies entries_view(s)[i] == (
            (#[trigger] s[i]).0@,
            node_view(s[i].1),
        ) by {
            if i > 0 {
                assert(s.drop_first()[i - 1] == s[i]);
                assert(entries_view(s)[i] == entries_view(s.drop_first())[i - 1]);
            }
        }
    }
}

impl View for YamlNode {
    type V = NodeV;

    open spec fn view(&self) -> NodeV {
        node_view(*self)
    }
}

impl DeepView for YamlNode {
    type V = NodeV;

    open spec fn deep_view(&self) -> NodeV {
        node_view(*self)
    }
}

/// What the YAML parser yields on given bytes: the parsed tree, or nothing
/// when the text is rejected. A name only — the grammar belongs to the
/// outside parser — so all that is claimed of it is that the same bytes
/// always yield the same tree.
pub uninterp spec fn yaml_tree_of(data: Seq<u8>) -> Option<NodeV>;

/// The outside parser's generic value type, declared so that the trusted
/// conversions below may take it; the engine never looks inside one.
#[verifier::external_type_specification]
#[verifier::external_body]
pub struct ExYamlValue(serde_yaml::Value);

/// Relies on serde_yaml's `Value`: carries one mapping key over, one arm
/// per variant; a non-string key is rendered as its text.
#[verifier::external_body]
fn key_from_value(k: &serde_yaml::Value) -> String {
    match k {
        serde_yaml::Value::String(s) => s.clone(),
        serde_yaml::Value::Bool(b) => b.to_string(),
        serde_yaml::Value::Number(n) => n.to_string(),
        _ => String::new(),
    }
}

/// Relies on serde_yaml's `Value`: carries each variant over to
/// [`YamlNode`], one arm per variant, children in order.
#[verifier::external_body]
fn node_from_value(v: &serde_yaml::Value) -> YamlNode {
    match v {
        serde_yaml::Value::Null => YamlNode::Null,
        serde_yaml::Value::Bool(b) => YamlNode::Bool(*b),
        serde_yaml::Value::Number(n) => YamlNode::Scalar(n.to_string()),
        serde_yaml::Value::String(s) => YamlNode::Scalar(s.clone()),
        serde_yaml::Value::Sequence(s) => YamlNode::List(s.iter().map(node_from_value).collect()),
        serde_yaml::Value::Mapping(m) => YamlNode::Mapping(
            m.iter().map(|(k, val)| (key_from_value(k), node_from_value(val))).collect(),
        ),
    }
}

/// Relies on `serde_yaml::from_slice`: parses YAML text into a tree, or
/// reports the parser's message. The same bytes always yield the same
/// tree, named by [`yaml_tree_of`].
#[verifier::external_body]
pub fn parse_yaml(data: &[u8]) -> (r: Result<YamlNode, String>)
    ensures
        r matches Ok(n) ==> yaml_tree_of(data@) == Some(n@),
        r is Ok <==> yaml_tree_of(data@) is Some,
{
    match serde_yaml::from_slice::<serde_yaml::Value>(data) {
        Ok(v) => Ok(node_from_value(&v)),
        Err(e) => Err(e.to_string()),
    }
}

/// The value under `key` in a mapping's entries: the first entry with that
/// key, or nothing.
pub open spec fn spec_map_get(entries: Seq<(Seq<char>, NodeV)>, key: Seq<char>) -> Option<NodeV>
    decreases entries.len(),
{
    if entries.len() == 0 {
        None
    } else if entries[0].0 == key {
        Some(entries[0].1)
    } else {
        spec_map_get(entries.drop_first(), key)
    }
}

pub proof fn lemma_map_get_skip(entries: Seq<(Seq<char>, NodeV)>, key: Seq<char>, i: int)
    requires
        0 <= i <= entries.len(),
        forall|j: int| 0 <= j < i ==> (#[trigger] entries[j]).0 != key,
    ensures
        spec_map_get(entries, key) == spec_map_get(entries.skip(i), key),
    decreases i,
{
    if i > 0 {
        let t = entries.drop_first();
        assert(forall|j: int| 0 <= j < i - 1 ==> #[trigger] t[j] == entries[j + 1]);
        lemma_map_get_skip(t, key, i - 1);
        assert(t.skip(i - 1) =~= entries.skip(i));
    } else {
        assert(entries.skip(0) =~= entries);
    }
}

impl YamlNode {
    /// The mapping entries of this node, when it is a mapping.
    pub fn as_map(&self) -> (r: Option<&Vec<(String, YamlNode)>>)
        ensures
            match r {
                Some(v) => self@ matches NodeV::Mapping(es) && es == entries_view(v@),
                None => !(self@ is Mapping),
            },
    {
        match self {
            YamlNode::Mapping(v) => Some(v),
            _ => None,
        }
    }

    /// The list elements of this node, when it is a list.
    pub fn as_list(&self) -> (r: Option<&Vec<YamlNode>>)
        ensures
            match r {
                Some(v) => self@ matches NodeV::List(es) && es == nodes_view(v@),
                None => !(self@ is List),
            },
    {
        match self {
            YamlNode::List(v) => Some(v),
            _ => None,
        }
    }

    /// The text of this node, when it is a scalar.
    pub fn as_scalar(&self) -> (r: Option<&String>)
        ensures
            match r {
                Some(s) => self@ == NodeV::Scalar(s@),
                None => !(self@ is Scalar),
            },
    {
        match self {
            YamlNode::Scalar(s) => Some(s),
            _ => None,
        }
    }

    /// The truth value of this node, when it is a boolean.
    pub fn as_bool(&self) -> (r: Option<bool>)
        ensures
            match r {
                Some(b) => self@ == NodeV::Bool(b),
                None => !(self@ is Bool),
            },
    {
        match self {
            YamlNode::Bool(b) => Some(*b),
            _ => None,
        }
    }

    /// The value under `key`, when this node is a mapping that has one.
    pub fn get<'a>(&'a self, key: &str) -> (r: Option<&'a YamlNode>)
        ensures
            match r {
                Some(n) => self@ matches NodeV::Mapping(es) && spec_map_get(es, key@) == Some(n@),
                None => self@ matches NodeV::Mapping(es) ==> spec_map_get(es, key@) is None,
            },
            r is Some ==> self@ is Mapping,
    {
        let entries = match self.as_map() {
            Some(v) => v,
            None => {
                return None;
            },
        };
        let ghost es = self@->Mapping_0;
        proof {
            lemma_entries_view(entries@);
        }
        let mut i: usize = 0;
        while i < entries.len()
            invariant
                i <= entries.len(),
                self@ == NodeV::Mapping(es),
                es == entries_view(entries@),
                es.len() == entries@.len(),
                forall|j: int| 0 <= j < i ==> (#[trigger] es[j]).0 != key@,
            decreases entries.len() - i,
        {
            proof {
                lemma_entries_view(entries@);
            }
            if str_eq(entries[i].0.as_str(), key) {
                proof {
                    lemma_map_get_skip(es, key@, i as int);
                    assert(es.skip(i as int)[0] == es[i as int]);
                }
                return Some(&entries[i].1);
            }
            i += 1;
        }
        proof {
            lemma_map_get_skip(es, key@, es.len() as int);
            assert(es.skip(es.len() as int) =~= Seq::<(Seq<char>, NodeV)>::empty());
        }
        None
    }
}

} // verus!
