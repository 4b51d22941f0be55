//! What this library takes on trust from `serde_json` and `serde_yaml`.
//!
//! Nothing here is proved: each contract restates what the named function of
//! the outside crate does.

use crate::value::{distinct_keys, Tree};
use vstd::prelude::*;

verus! {

#[verifier::external_type_specification]
#[verifier::external_body]
pub struct ExJsonValue(serde_json::Value);

/// The tree that a `serde_json::Value` holds. The contracts below say which
/// tree that is for the values that this module builds.
pub uninterp spec fn json_tree(json: serde_json::Value) -> Tree;

/// What `serde_json::to_string_pretty` returns for a value that holds `tree`:
/// the text that it writes, or else the message of its error.
pub uninterp spec fn json_pretty_text(tree: Tree) -> Result<Seq<char>, Seq<char>>;

/// What `serde_yaml::to_string` returns for a value that holds `tree`: the
/// text that it writes, or else the message of its error.
pub uninterp spec fn yaml_text(tree: Tree) -> Result<Seq<char>, Seq<char>>;

/// The tree held by the number that `serde_json::Number::from_str` reads from
/// `numeral`; none where it reads no number.
pub uninterp spec fn json_number_tree(numeral: Seq<char>) -> Option<Tree>;

/// Whether `tree` is a number, be it an integer or not.
pub open spec fn is_number(tree: Tree) -> bool {
    tree is Int || tree is Real
}

/// The characters of what a writer returned: of its text, or of its message.
pub open spec fn outcome_text(outcome: Result<String, String>) -> Result<Seq<char>, Seq<char>> {
    match outcome {
        Ok(text) => Ok(text@),
        Err(message) => Err(message@),
    }
}

/// What a sequence of keyed JSON values holds, in the same order.
pub open spec fn json_entries(entries: Seq<(String, serde_json::Value)>) -> Seq<(Seq<char>, Tree)> {
    Seq::new(entries.len(), |i: int| (entries[i].0@, json_tree(entries[i].1)))
}

/// What a sequence of JSON values holds, in the same order.
pub open spec fn json_items(items: Seq<serde_json::Value>) -> Seq<Tree> {
    Seq::new(items.len(), |i: int| json_tree(items[i]))
}

/// The variant `serde_json::Value::Null`, which holds the null tree.
#[verifier::external_body]
pub(crate) fn json_null() -> (json: serde_json::Value)
    ensures
        json_tree(json) == Tree::Null,
{
    serde_json::Value::Null
}

/// The variant `serde_json::Value::Bool`, which holds the given truth value.
#[verifier::external_body]
pub(crate) fn json_bool(b: bool) -> (json: serde_json::Value)
    ensures
        json_tree(json) == Tree::Bool(b),
{
    serde_json::Value::Bool(b)
}

/// `serde_json::Value::from` on an `i64`: a number that holds exactly that
/// integer.
#[verifier::external_body]
pub(crate) fn json_int(i: i64) -> (json: serde_json::Value)
    ensures
        json_tree(json) == Tree::Int(i as int),
{
    serde_json::Value::from(i)
}

/// The variant `serde_json::Value::String`, which holds the given characters.
#[verifier::external_body]
pub(crate) fn json_string(s: String) -> (json: serde_json::Value)
    ensures
        json_tree(json) == Tree::Str(s@),
{
    serde_json::Value::String(s)
}

/// The variant `serde_json::Value::Array`, which holds the given items in
/// their order.
#[verifier::external_body]
pub(crate) fn json_array(items: Vec<serde_json::Value>) -> (json: serde_json::Value)
    ensures
        json_tree(json) == Tree::Array(json_items(items@)),
{
    serde_json::Value::Array(items)
}

/// `serde_json::Value::from_iter` on keyed values: an object into which the
/// entries are inserted one after another. With the crate's `preserve_order`
/// feature an object keeps its keys in the order of their insertion, so for
/// distinct keys it holds the entries as given.
#[verifier::external_body]
pub(crate) fn json_object(entries: Vec<(String, serde_json::Value)>) -> (json: serde_json::Value)
    requires
        distinct_keys(json_entries(entries@)),
    ensures
        json_tree(json) == Tree::Dict(json_entries(entries@)),
{
    serde_json::Value::from_iter(entries)
}

/// `serde_json::Number::from_str`, and the variant `serde_json::Value::Number`
/// around the number read: whether the numeral is read as a number, and as
/// which, depends on the numeral alone. What is read is a number.
#[verifier::external_body]
pub(crate) fn json_number(numeral: &str) -> (json: Option<serde_json::Value>)
    ensures
        match json_number_tree(numeral@) {
            Some(tree) => json matches Some(number) && json_tree(number) == tree && is_number(
                tree,
            ),
            None => json is None,
        },
{
    numeral.parse::<serde_json::Number>().ok().map(serde_json::Value::Number)
}

/// `serde_json::to_string_pretty`, its error handed back as the error's
/// `Display` text: the indented JSON text of a value, or the message of the
/// failure. Either depends on nothing but the tree that the value holds.
#[verifier::external_body]
pub(crate) fn json_pretty(json: &serde_json::Value) -> (text: Result<String, String>)
    ensures
        outcome_text(text) == json_pretty_text(json_tree(*json)),
{
    serde_json::to_string_pretty(json).map_err(|error| error.to_string())
}

/// `serde_yaml::to_string`, its error handed back as the error's `Display`
/// text: the block-style YAML text of a value, or the message of the failure.
/// Either depends on nothing but the tree that the value holds.
#[verifier::external_body]
pub(crate) fn yaml_block(json: &serde_json::Value) -> (text: Result<String, String>)
    ensures
        outcome_text(text) == yaml_text(json_tree(*json)),
{
    serde_yaml::to_string(json).map_err(|error| error.to_string())
}

} // verus!
