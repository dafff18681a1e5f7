//! JSON text read into the library's value tree, and a tree written back as
//! JSON text, through `serde_json`.
use vstd::prelude::*;

use crate::yaml::{Yaml, YamlNode};
use serde_json::Value;

verus! {

/// Name for what `serde_json::from_str::<serde_json::Value>` makes of
/// `text`: the value as a tree, or the text of the parse error.
pub uninterp spec fn json_tree_of(text: Seq<char>) -> Result<Yaml, Seq<char>>;

/// Name for the JSON text of a value (`serde_json::Value`'s `to_string`).
pub uninterp spec fn json_text_of(v: Yaml) -> Seq<char>;

#[verifier::external_type_specification]
#[verifier::external_body]
pub struct ExJsonValue(Value);

/// `serde_json::from_str::<serde_json::Value>`, the value as a tree, or the
/// error's text.
#[verifier::external_body]
pub(crate) fn parse_json_tree(text: &str) -> (r: Result<YamlNode, String>)
    ensures
        match r {
            Ok(n) => json_tree_of(text@) == Ok::<Yaml, Seq<char>>(n@),
            Err(e) => json_tree_of(text@) == Err::<Yaml, Seq<char>>(e@),
        },
{
    match serde_json::from_str::<Value>(text) {
        Ok(v) => Ok(node_of_json(&v)),
        Err(e) => Err(e.to_string()),
    }
}

/// `serde_json::Value::to_string` of a value given as a tree.
#[verifier::external_body]
pub(crate) fn json_text(v: &YamlNode) -> (r: String)
    ensures
        r@ == json_text_of(v@),
{
    json_of_node(v).to_string()
}

/// A JSON value as a tree, variant for variant (a number by the variant it
/// fits: `u64`, `i64`, else its decimal text; an object as a mapping with
/// string keys, in the object's order).
#[verifier::external_body]
pub(crate) fn node_of_json(v: &Value) -> YamlNode {
    match v {
        Value::Null => YamlNode::Null,
        Value::Bool(b) => YamlNode::Bool(*b),
        Value::Number(n) => match (n.as_u64(), n.as_i64()) {
            (Some(u), _) => YamlNode::PosInt(u),
            (None, Some(i)) => YamlNode::NegInt(i),
            _ => YamlNode::Float(n.to_string()),
        },
        Value::String(t) => YamlNode::Str(t.clone()),
        Value::Array(a) => YamlNode::List(a.iter().map(node_of_json).collect()),
        Value::Object(m) => YamlNode::Mapping(m.iter().map(|(k, x)| (YamlNode::Str(k.clone()), node_of_json(x))).collect()),
    }
}

/// A tree as a JSON value, variant for variant: the inverse of
/// [`node_of_json`] on the trees it gives (a decimal number is read back
/// from its text; a key that is not a string is taken by its JSON text).
#[verifier::external_body]
fn json_of_node(n: &YamlNode) -> Value {
    match n {
        YamlNode::Null => Value::Null,
        YamlNode::Bool(b) => Value::Bool(*b),
        YamlNode::PosInt(u) => Value::from(*u),
        YamlNode::NegInt(i) => Value::from(*i),
        YamlNode::Float(t) => serde_json::from_str::<Value>(t).unwrap_or_default(),
        YamlNode::Str(t) => Value::String(t.clone()),
        YamlNode::List(l) => Value::Array(l.iter().map(json_of_node).collect()),
        YamlNode::Mapping(m) => Value::Object(m.iter().map(|(k, x)| (match k { YamlNode::Str(t) => t.clone(), other => json_of_node(other).to_string() }, json_of_node(x))).collect()),
    }
}

} // verus!
