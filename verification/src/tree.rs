//! The document tree: a manifest as a generic document of scalars, lists
//! and tables, before any meaning is given to its fields.
use vstd::prelude::*;

verus! {

/// A node of a document.
#[derive(Debug)]
pub enum Node {
    /// Nothing: an empty value.
    Null,
    /// A truth value.
    Bool(bool),
    /// A number, as the text that denotes it.
    Number(String),
    /// A text.
    Text(String),
    /// A list of nodes.
    List(Vec<Node>),
    /// A table: pairs of a key and a value, in the order of the document.
    Table(Vec<(Node, Node)>),
}

/// `serde_yaml::Value`: a document as `serde_yaml` reads it. It is turned
/// into a `Node` at once and never looked into by verified code.
#[verifier::external_type_specification]
#[verifier::external_body]
pub struct ExYamlValue(serde_yaml::Value);

/// `serde_yaml::Error`: why a text is no document. It is passed on and
/// never looked into.
#[verifier::external_type_specification]
#[verifier::external_body]
pub struct ExYamlError(serde_yaml::Error);

/// The tree of the document that `text` is, or none where `text` is no
/// document.
pub uninterp spec fn document_tree(text: Seq<char>) -> Option<Node>;

/// Turns a value of `serde_yaml` into a tree, variant by variant. A number
/// becomes the text that `serde_yaml` prints for it; a tagged value becomes
/// the value under the tag.
#[verifier::external_body]
fn tree_of(value: &serde_yaml::Value) -> Node {
    match value {
        serde_yaml::Value::Null => Node::Null,
        serde_yaml::Value::Bool(b) => Node::Bool(*b),
        serde_yaml::Value::Number(n) => Node::Number(n.to_string()),
        serde_yaml::Value::String(s) => Node::Text(s.clone()),
        serde_yaml::Value::Sequence(items) => Node::List(items.iter().map(tree_of).collect()),
        serde_yaml::Value::Mapping(pairs) => Node::Table(
            pairs.iter().map(|(k, v)| (tree_of(k), tree_of(v))).collect(),
        ),
        serde_yaml::Value::Tagged(tagged) => tree_of(&tagged.value),
    }
}

/// `serde_yaml::from_str`, for a `serde_yaml::Value`: the tree of the
/// document, or the error that tells why `text` is no document. The outcome
/// depends on `text` alone.
#[verifier::external_body]
pub(crate) fn read_document(text: &str) -> (r: Result<Node, serde_yaml::Error>)
    ensures
        match r {
            Ok(node) => document_tree(text@) == Some(node),
            Err(_) => document_tree(text@) is None,
        },
{
    match serde_yaml::from_str::<serde_yaml::Value>(text) {
        Ok(value) => Ok(tree_of(&value)),
        Err(e) => Err(e),
    }
}

/// The text that a node gives where a text is asked for: a text itself, or
/// the text of a number.
pub open spec fn text_of(node: Node) -> Option<Seq<char>> {
    match node {
        Node::Text(s) => Some(s@),
        Node::Number(s) => Some(s@),
        _ => None,
    }
}

/// Whether these pairs can stand for a table with texts as keys: each key
/// gives a text, and no two keys give the same.
pub open spec fn keyed(pairs: Seq<(Node, Node)>) -> bool {
    &&& forall|i: int| 0 <= i < pairs.len() ==> text_of(#[trigger] pairs[i].0) is Some
    &&& forall|i: int, j: int|
        0 <= i < j < pairs.len() ==> text_of(#[trigger] pairs[i].0) != text_of(
            #[trigger] pairs[j].0,
        )
}

/// The pairs of a node that is a table with texts as keys.
pub open spec fn table_of(node: Node) -> Option<Seq<(Node, Node)>> {
    match node {
        Node::Table(pairs) => if keyed(pairs@) {
            Some(pairs@)
        } else {
            None
        },
        _ => None,
    }
}

/// The value of the first pair whose key gives the text `key`.
pub open spec fn field(pairs: Seq<(Node, Node)>, key: Seq<char>) -> Option<Node>
    decreases pairs.len(),
{
    if pairs.len() == 0 {
        None
    } else if text_of(pairs[0].0) == Some(key) {
        Some(pairs[0].1)
    } else {
        field(pairs.skip(1), key)
    }
}

/// The value that is given under `key`: as `field`, but an empty value
/// counts as not given.
pub open spec fn given(pairs: Seq<(Node, Node)>, key: Seq<char>) -> Option<Node> {
    match field(pairs, key) {
        Some(Node::Null) => None,
        other => other,
    }
}

/// The text that `node` gives, if it gives one.
pub fn node_text(node: &Node) -> (r: Option<&String>)
    ensures
        match r {
            Some(s) => text_of(*node) == Some(s@),
            None => text_of(*node) is None,
        },
{
    match node {
        Node::Text(s) => Some(s),
        Node::Number(s) => Some(s),
        _ => None,
    }
}

/// The pairs of `node`, if it is a table with texts as keys.
pub fn node_table(node: &Node) -> (r: Option<&Vec<(Node, Node)>>)
    ensures
        match r {
            Some(pairs) => table_of(*node) == Some(pairs@),
            None => table_of(*node) is None,
        },
{
    match node {
        Node::Table(pairs) => {
            let mut j: usize = 0;
            while j < pairs.len()
                invariant
                    j <= pairs.len(),
                    *node == Node::Table(*pairs),
                    forall|b: int| 0 <= b < j ==> text_of(#[trigger] pairs[b].0) is Some,
                    forall|a: int, b: int|
                        0 <= a < b < j ==> text_of(#[trigger] pairs[a].0) != text_of(
                            #[trigger] pairs[b].0,
                        ),
                decreases pairs.len() - j,
            {
                match node_text(&pairs[j].0) {
                    None => {
                        return None;
                    },
                    Some(key) => {
                        let mut i: usize = 0;
                        while i < j
                            invariant
                                i <= j < pairs.len(),
                                *node == Node::Table(*pairs),
                                text_of(pairs[j as int].0) == Some(key@),
                                forall|b: int| 0 <= b < j ==> text_of(#[trigger] pairs[b].0) is Some,
                                forall|a: int|
                                    0 <= a < i ==> text_of(#[trigger] pairs[a].0) != Some(key@),
                            decreases j - i,
                        {
                            match node_text(&pairs[i].0) {
                                Some(other) => {
                                    if *other == *key {
                                        return None;
                                    }
                                },
                                None => {},
                            }
                            i = i + 1;
                        }
                    },
                }
                j = j + 1;
            }
            Some(pairs)
        },
        _ => None,
    }
}

/// The value that `pairs` hold under `key`.
pub fn find<'a>(pairs: &'a Vec<(Node, Node)>, key: &str) -> (r: Option<&'a Node>)
    ensures
        match r {
            Some(node) => field(pairs@, key@) == Some(*node),
            None => field(pairs@, key@) is None,
        },
{
    let wanted = String::from_str(key);
    let mut at: usize = 0;
    assert(pairs@.skip(0) =~= pairs@);
    while at < pairs.len()
        invariant
            at <= pairs.len(),
            wanted@ == key@,
            field(pairs@.skip(at as int), key@) == field(pairs@, key@),
        decreases pairs.len() - at,
    {
        let ghost rest = pairs@.skip(at as int);
        match node_text(&pairs[at].0) {
            Some(text) => {
                if *text == wanted {
                    return Some(&pairs[at].1);
                }
            },
            None => {},
        }
        assert(rest.skip(1) =~= pairs@.skip(at as int + 1));
        at = at + 1;
    }
    None
}

/// The value that `pairs` give under `key`, an empty value counting as
/// not given.
pub fn find_given<'a>(pairs: &'a Vec<(Node, Node)>, key: &str) -> (r: Option<&'a Node>)
    ensures
        match r {
            Some(node) => given(pairs@, key@) == Some(*node),
            None => given(pairs@, key@) is None,
        },
{
    match find(pairs, key) {
        Some(Node::Null) => None,
        other => other,
    }
}

} // verus!
