//! YAML documents as plain values: the documents that `yaml_rust` reads from
//! a text, and the lookups that the build reads them with.
use vstd::prelude::*;
use yaml_rust::{ScanError, Yaml, YamlLoader};

verus! {

/// The error `yaml_rust` reports for a text it cannot read.
#[verifier::external_type_specification]
#[verifier::external_body]
pub struct ExScanError(ScanError);

/// A node of a document read by `yaml_rust`.
#[verifier::external_type_specification]
#[verifier::external_body]
pub struct ExYaml(Yaml);

/// A YAML node, as `yaml_rust` reads it; a hash keeps its entries in order.
pub enum YamlNode {
    Real(String),
    Integer(i64),
    String(String),
    Boolean(bool),
    Array(Vec<YamlNode>),
    Hash(Vec<(YamlNode, YamlNode)>),
    Alias(usize),
    Null,
    BadValue,
}

/// The mathematical value of a YAML node.
pub enum YamlValue {
    Real(Seq<char>),
    Integer(i64),
    String(Seq<char>),
    Boolean(bool),
    Array(Seq<YamlValue>),
    Hash(Seq<(YamlValue, YamlValue)>),
    Alias(usize),
    Null,
    BadValue,
}

/// The value of a node.
pub open spec fn node_value(n: YamlNode) -> YamlValue
    decreases n,
{
    match n {
        YamlNode::Real(s) => YamlValue::Real(s@),
        YamlNode::Integer(i) => YamlValue::Integer(i),
        YamlNode::String(s) => YamlValue::String(s@),
        YamlNode::Boolean(b) => YamlValue::Boolean(b),
        YamlNode::Array(v) => YamlValue::Array(nodes_value(v@)),
        YamlNode::Hash(v) => YamlValue::Hash(pairs_value(v@)),
        YamlNode::Alias(a) => YamlValue::Alias(a),
        YamlNode::Null => YamlValue::Null,
        YamlNode::BadValue => YamlValue::BadValue,
    }
}

/// The values of a sequence of nodes.
pub open spec fn nodes_value(s: Seq<YamlNode>) -> Seq<YamlValue>
    decreases s,
{
    if s.len() == 0 {
        Seq::empty()
    } else {
        nodes_value(s.drop_last()).push(node_value(s.last()))
    }
}

/// The values of a sequence of hash entries.
pub open spec fn pairs_value(s: Seq<(YamlNode, YamlNode)>) -> Seq<(YamlValue, YamlValue)>
    decreases s,
{
    if s.len() == 0 {
        Seq::empty()
    } else {
        pairs_value(s.drop_last()).push((node_value(s.last().0), node_value(s.last().1)))
    }
}

/// The documents that `yaml_rust` reads from `text`, or `None` when it
/// reports an error.
pub uninterp spec fn yaml_documents(text: Seq<char>) -> Option<Seq<YamlValue>>;

/// A `yaml_rust` node as a plain value; used by `load_yaml` alone.
#[verifier::external_body]
fn yaml_node(y: &Yaml) -> YamlNode {
    match y {
        Yaml::Real(s) => YamlNode::Real(s.clone()),
        Yaml::Integer(i) => YamlNode::Integer(*i),
        Yaml::String(s) => YamlNode::String(s.clone()),
        Yaml::Boolean(b) => YamlNode::Boolean(*b),
        Yaml::Array(a) => YamlNode::Array(a.iter().map(yaml_node).collect()),
        Yaml::Hash(h) => YamlNode::Hash(h.iter().map(|(k, v)| (yaml_node(k), yaml_node(v))).collect()),
        Yaml::Alias(a) => YamlNode::Alias(*a),
        Yaml::Null => YamlNode::Null,
        Yaml::BadValue => YamlNode::BadValue,
    }
}

/// The documents of a YAML text (`YamlLoader::load_from_str`), as plain
/// values.
///
/// Claimed of `YamlLoader::load_from_str`: what it returns for a text depends
/// on the text alone; it is named `yaml_documents`. Nothing more is claimed of
/// the parser.
#[verifier::external_body]
pub(crate) fn load_yaml(text: &str) -> (r: Result<Vec<YamlNode>, ScanError>)
    ensures
        match r {
            Ok(docs) => yaml_documents(text@) == Some(nodes_value(docs@)),
            Err(_) => yaml_documents(text@) is None,
        },
{
    match YamlLoader::load_from_str(text) {
        Ok(docs) => Ok(docs.iter().map(yaml_node).collect()),
        Err(e) => Err(e),
    }
}

/// The values of a sequence of nodes: one per node, in order.
pub proof fn lemma_nodes_value(s: Seq<YamlNode>)
    ensures
        nodes_value(s).len() == s.len(),
        forall|i: int| 0 <= i < s.len() ==> #[trigger] nodes_value(s)[i] == node_value(s[i]),
    decreases s.len(),
{
    if s.len() > 0 {
        lemma_nodes_value(s.drop_last());
    }
}

/// The values of a sequence of hash entries: one per entry, in order.
pub proof fn lemma_pairs_value(s: Seq<(YamlNode, YamlNode)>)
    ensures
        pairs_value(s).len() == s.len(),
        forall|i: int|
            0 <= i < s.len() ==> #[trigger] pairs_value(s)[i] == (node_value(s[i].0), node_value(s[i].1)),
    decreases s.len(),
{
    if s.len() > 0 {
        lemma_pairs_value(s.drop_last());
    }
}

/// The value of the first entry whose key is the string `key`.
pub open spec fn hash_get(h: Seq<(YamlValue, YamlValue)>, key: Seq<char>) -> Option<YamlValue>
    decreases h.len(),
{
    if h.len() == 0 {
        None
    } else if h[0].0 == YamlValue::String(key) {
        Some(h[0].1)
    } else {
        hash_get(h.drop_first(), key)
    }
}

/// `v[key]`: the value under the string `key` when `v` is a hash that has
/// it, otherwise `BadValue`.
pub open spec fn value_index(v: YamlValue, key: Seq<char>) -> YamlValue {
    match v {
        YamlValue::Hash(h) => match hash_get(h, key) {
            Some(x) => x,
            None => YamlValue::BadValue,
        },
        _ => YamlValue::BadValue,
    }
}

/// The entry of `pairs` under the string `key`, if any.
pub fn hash_entry<'a>(pairs: &'a Vec<(YamlNode, YamlNode)>, key: &str) -> (r: Option<&'a YamlNode>)
    ensures
        match r {
            Some(n) => hash_get(pairs_value(pairs@), key@) == Some(node_value(*n)),
            None => hash_get(pairs_value(pairs@), key@) is None,
        },
{
    let wanted = key.to_owned();
    let ghost h = pairs_value(pairs@);
    proof {
        lemma_pairs_value(pairs@);
    }
    let mut i: usize = 0;
    assert(h.skip(0) =~= h);
    while i < pairs.len()
        invariant
            0 <= i <= pairs@.len(),
            h == pairs_value(pairs@),
            wanted@ == key@,
            h.len() == pairs@.len(),
            forall|j: int| 0 <= j < pairs@.len() ==> #[trigger] h[j] == (node_value(pairs@[j].0), node_value(pairs@[j].1)),
            hash_get(h, key@) == hash_get(h.skip(i as int), key@),
        decreases pairs@.len() - i,
    {
        let ghost rest = h.skip(i as int);
        proof {
            assert(rest[0] == h[i as int]);
            assert(rest.drop_first() =~= h.skip(i + 1));
        }
        match &pairs[i].0 {
            YamlNode::String(s) => {
                if *s == wanted {
                    proof {
                        assert(node_value(pairs@[i as int].0) == YamlValue::String(key@));
                        assert(rest[0].0 == YamlValue::String(key@));
                        assert(hash_get(rest, key@) == Some(rest[0].1));
                        assert(rest[0].1 == node_value(pairs@[i as int].1));
                    }
                    return Some(&pairs[i].1);
                }
            },
            _ => {},
        }
        i = i + 1;
    }
    None
}

/// `node[key]` (the `Index<&str>` of `yaml_rust`): the entry under `key` when
/// the node is a hash that has it, otherwise `None` (`BadValue`).
pub fn index<'a>(node: &'a YamlNode, key: &str) -> (r: Option<&'a YamlNode>)
    ensures
        match r {
            Some(n) => value_index(node_value(*node), key@) == node_value(*n),
            None => value_index(node_value(*node), key@) == YamlValue::BadValue,
        },
{
    match node {
        YamlNode::Hash(pairs) => {
            let r = hash_entry(pairs, key);
            match r {
                Some(n) => Some(n),
                None => None,
            }
        },
        _ => None,
    }
}

} // verus!
