//! Retrieving content from a compiled document and writing it out.

use crate::content::{content_trees, Content};
use crate::diag::DiagnosticFormat;
use crate::encode::to_json;
use crate::json::{
    json_array, json_items, json_pretty, json_pretty_text, json_tree, outcome_text, yaml_block,
    yaml_text,
};
use crate::metadata::{lemma_record_has_no_empty_key, provided_under, Document};
use crate::text::{decimal, decimal_text};
use crate::value::{trees, AnyValue, Tree};
use vstd::prelude::*;

verus! {

/// The text format of a query's result.
#[derive(Debug, Clone, Copy, PartialEq, Eq, Structural)]
pub enum OutputFormat {
    Json,
    Yaml,
}

/// What a query was asked to do.
#[derive(Debug)]
pub struct QueryCommand {
    /// The selector, as text of the document language.
    pub selector: String,
    /// Whether exactly one match is expected.
    pub one: bool,
    /// The format of the result.
    pub format: OutputFormat,
    /// The layout of the diagnostics.
    pub diagnostic_format: DiagnosticFormat,
}

/// Why a query gave no result.
#[derive(Debug, PartialEq, Eq)]
pub enum QueryError {
    /// The selector text did not evaluate.
    Evaluation,
    /// The selector text evaluated to a value that is no selector.
    Type { found: String },
    /// One match was expected and `count` were there.
    Cardinality { count: usize },
    /// The result could not be written in the format asked for.
    Serialization { message: String },
}

/// The message of an error.
pub open spec fn error_text(error: QueryError) -> Seq<char> {
    match error {
        QueryError::Evaluation => "error evaluating the selector string"@,
        QueryError::Type { found } => "expected selector, found "@ + found@,
        QueryError::Cardinality { count } => "one piece of metadata expected, but "@ + decimal(
            count as nat,
        ) + " found"@,
        QueryError::Serialization { message } => message@,
    }
}

impl QueryError {
    /// The message of this error, as shown to the user.
    pub fn message(&self) -> (text: String)
        ensures
            text@ == error_text(*self),
    {
        match self {
            QueryError::Evaluation => String::from_str("error evaluating the selector string"),
            QueryError::Type { found } => {
                let mut text = String::from_str("expected selector, found ");
                text.append(found.as_str());
                text
            },
            QueryError::Cardinality { count } => {
                let mut text = String::from_str("one piece of metadata expected, but ");
                let numeral = decimal_text(*count);
                text.append(numeral.as_str());
                text.append(" found");
                text
            },
            QueryError::Serialization { message } => message.clone(),
        }
    }
}

/// What the evaluator and the introspector made of a selector text.
#[derive(Debug)]
pub enum Evaluation {
    /// The text did not evaluate: a syntax error, an unknown name.
    Rejected,
    /// The text evaluated to a value of the type named `found`, which is no
    /// selector.
    Mistyped { found: String },
    /// The text evaluated to a selector, which matched these nodes. They
    /// stand in document order, one for each match.
    Matched { nodes: Vec<AnyValue> },
    /// The text evaluated to a selector, which matched `count` nodes, and one
    /// of them could not be read as a value, for the reason given.
    Unreadable { count: usize, reason: String },
}

/// What a query retrieves, given what became of its selector.
pub open spec fn retrieved(evaluation: Evaluation) -> Result<Seq<Tree>, QueryError> {
    match evaluation {
        Evaluation::Rejected => Err(QueryError::Evaluation),
        Evaluation::Mistyped { found } => Err(QueryError::Type { found }),
        Evaluation::Matched { nodes } => Ok(trees(nodes@)),
        Evaluation::Unreadable { count, reason } => Err(
            QueryError::Serialization { message: reason },
        ),
    }
}

/// The content that a query matched: a snapshot of every matched node, in
/// document order, none dropped and none merged. A selector that did not
/// evaluate, a value that is no selector, or a node that could not be read
/// is an error.
pub fn retrieve(evaluation: &Evaluation) -> (found: Result<Vec<Content>, QueryError>)
    ensures
        match retrieved(*evaluation) {
            Ok(trees) => found matches Ok(items) && content_trees(items@) == trees,
            Err(error) => found == Err::<Vec<Content>, QueryError>(error),
        },
{
    match evaluation {
        Evaluation::Rejected => Err(QueryError::Evaluation),
        Evaluation::Mistyped { found } => Err(QueryError::Type { found: found.clone() }),
        Evaluation::Unreadable { count: _, reason } => Err(
            QueryError::Serialization { message: reason.clone() },
        ),
        Evaluation::Matched { nodes } => {
            let mut items: Vec<Content> = Vec::new();
            let mut i: usize = 0;
            while i < nodes.len()
                invariant
                    i <= nodes.len(),
                    items.len() == i,
                    forall|j: int| 0 <= j < i ==> (#[trigger] items[j])@ == nodes[j]@,
                decreases nodes.len() - i,
            {
                items.push(Content::snapshot(&nodes[i]));
                i += 1;
            }
            assert(content_trees(items@) =~= trees(nodes@));
            Ok(items)
        },
    }
}

/// What of a query's matches is written out.
#[derive(Debug)]
pub enum Selection<'a> {
    /// The one match, by itself.
    Single(&'a Content),
    /// All matches, as a list.
    List(&'a [Content]),
}

/// The tree that is written for `items`: the one item itself where one was
/// asked for, the list of all items otherwise.
pub open spec fn chosen(items: Seq<Tree>, one: bool) -> Tree {
    if one {
        items[0]
    } else {
        Tree::Array(items)
    }
}

/// Whether the number of matches breaks what was asked for.
pub open spec fn miscounted(len: nat, one: bool) -> bool {
    one && len != 1
}

/// What is handed to the writer for `items`: the chosen tree, or the error of
/// a wrong count.
pub open spec fn selected(items: Seq<Tree>, one: bool) -> Result<Tree, QueryError> {
    if miscounted(items.len(), one) {
        Err(QueryError::Cardinality { count: items.len() as usize })
    } else {
        Ok(chosen(items, one))
    }
}

/// Cardinality contract: where exactly one match is asked for, one match is
/// handed to the writer by itself, not as a list of one, and any other number
/// of matches is an error whose message names that number.
pub proof fn lemma_one_expects_exactly_one(items: Seq<Tree>)
    requires
        items.len() <= usize::MAX,
    ensures
        items.len() == 1 ==> selected(items, true) == Ok::<Tree, QueryError>(items[0]),
        items.len() != 1 ==> selected(items, true) == Err::<Tree, QueryError>(
            QueryError::Cardinality { count: items.len() as usize },
        ),
        error_text(QueryError::Cardinality { count: items.len() as usize })
            == "one piece of metadata expected, but "@ + decimal(items.len()) + " found"@,
{
}

/// Holds the matches to what was asked for. Where exactly one was expected,
/// any other number of matches is an error that carries the number found; one
/// match is handed on by itself, not as a list of one.
pub fn select<'a>(data: &'a [Content], one: bool) -> (selection: Result<Selection<'a>, QueryError>)
    ensures
        miscounted(data@.len(), one) ==> selection == Err::<Selection<'a>, QueryError>(
            QueryError::Cardinality { count: data.len() },
        ),
        one && data@.len() == 1 ==> selection == Ok::<Selection<'a>, QueryError>(
            Selection::Single(&data[0]),
        ),
        !one ==> selection == Ok::<Selection<'a>, QueryError>(Selection::List(data)),
{
    if one {
        if data.len() == 1 {
            Ok(Selection::Single(&data[0]))
        } else {
            Err(QueryError::Cardinality { count: data.len() })
        }
    } else {
        Ok(Selection::List(data))
    }
}

/// What the writer of `format` returns for `tree`: its text, or else the
/// message of its error.
pub open spec fn written(format: OutputFormat, tree: Tree) -> Result<Seq<char>, Seq<char>> {
    match format {
        OutputFormat::Json => json_pretty_text(tree),
        OutputFormat::Yaml => yaml_text(tree),
    }
}

/// Both formats are written from one value: the tree that is chosen for the
/// matches does not depend on the format, and each format's text is that of
/// this one tree.
pub proof fn lemma_formats_share_one_tree(items: Seq<Tree>, one: bool)
    ensures
        selected(items, one) matches Ok(tree) ==> written(OutputFormat::Json, tree)
            == json_pretty_text(chosen(items, one)) && written(OutputFormat::Yaml, tree)
            == yaml_text(chosen(items, one)),
{
}

/// Whether `text` is what a query makes of what the writer returned: the
/// writer's text is the result, and the writer's failure is a serialization
/// error with the writer's message.
pub open spec fn settles(
    outcome: Result<Seq<char>, Seq<char>>,
    text: Result<String, QueryError>,
) -> bool {
    match outcome {
        Ok(written) => text matches Ok(s) && s@ == written,
        Err(refused) => text matches Err(QueryError::Serialization { message }) && message@
            == refused,
    }
}

/// Takes what a writer returned: its text is the result of the query, and
/// its failure is a serialization error that carries the writer's message.
pub fn settle_written(outcome: Result<String, String>) -> (text: Result<String, QueryError>)
    ensures
        outcome matches Ok(s) ==> text == Ok::<String, QueryError>(s),
        outcome matches Err(message) ==> text == Err::<String, QueryError>(
            QueryError::Serialization { message },
        ),
        settles(outcome_text(outcome), text),
{
    match outcome {
        Ok(s) => Ok(s),
        Err(message) => Err(QueryError::Serialization { message }),
    }
}

/// The JSON value that holds what `selection` selects.
fn selected_json(selection: &Selection<'_>) -> (json: serde_json::Value)
    ensures
        selection matches Selection::Single(item) ==> json_tree(json) == item@,
        selection matches Selection::List(items) ==> json_tree(json) == Tree::Array(
            content_trees(items@),
        ),
{
    match selection {
        Selection::Single(item) => to_json(item.body()),
        Selection::List(items) => {
            let mut built: Vec<serde_json::Value> = Vec::new();
            let mut i: usize = 0;
            while i < items.len()
                invariant
                    i <= items.len(),
                    built.len() == i,
                    forall|j: int| 0 <= j < i ==> json_tree(#[trigger] built[j]) == items[j]@,
                decreases items.len() - i,
            {
                built.push(to_json(items[i].body()));
                i += 1;
            }
            assert(json_items(built@) =~= content_trees(items@));
            json_array(built)
        },
    }
}

/// The result of a query as text: the one match where one was asked for, the
/// list of all matches otherwise, in the format of the command. The text is
/// written from one in-memory value whatever the format.
///
/// The count is held to account first: where one match was asked for and
/// another number was found, nothing is written and the error carries that
/// number. Otherwise the result is the writer's: its text where it wrote
/// one, and a serialization error with its message where it failed.
pub fn format(data: &[Content], command: &QueryCommand) -> (text: Result<String, QueryError>)
    ensures
        match selected(content_trees(data@), command.one) {
            Err(error) => text == Err::<String, QueryError>(error),
            Ok(tree) => settles(written(command.format, tree), text),
        },
{
    match select(data, command.one) {
        Err(error) => Err(error),
        Ok(selection) => {
            let json = selected_json(&selection);
            match command.format {
                OutputFormat::Json => settle_written(json_pretty(&json)),
                OutputFormat::Yaml => settle_written(yaml_block(&json)),
            }
        },
    }
}

/// What is handed to the writer for a query whose selector has been
/// evaluated, or the error of the query. Where a matched node could not be
/// read, the count is still held to account first.
pub open spec fn answered(evaluation: Evaluation, one: bool) -> Result<Tree, QueryError> {
    match evaluation {
        Evaluation::Unreadable { count, reason } => Err(
            if miscounted(count as nat, one) {
                QueryError::Cardinality { count }
            } else {
                QueryError::Serialization { message: reason }
            },
        ),
        _ => match retrieved(evaluation) {
            Err(error) => Err(error),
            Ok(trees) => selected(trees, one),
        },
    }
}

/// Answers a query whose selector has been evaluated: retrieves what it
/// matched and writes that out as the command asks.
pub fn answer(evaluation: &Evaluation, command: &QueryCommand) -> (text: Result<String, QueryError>)
    ensures
        match answered(*evaluation, command.one) {
            Err(error) => text == Err::<String, QueryError>(error),
            Ok(tree) => settles(written(command.format, tree), text),
        },
{
    match evaluation {
        Evaluation::Unreadable { count, reason } => {
            if command.one && *count != 1 {
                Err(QueryError::Cardinality { count: *count })
            } else {
                Err(QueryError::Serialization { message: reason.clone() })
            }
        },
        _ => match retrieve(evaluation) {
            Err(error) => Err(error),
            Ok(items) => format(items.as_slice(), command),
        },
    }
}

/// Answers a query for the metadata tags with the key `key`: the values
/// that the document recorded under the key, in document order, written out
/// as the command asks. For a key that is not empty this is the query whose
/// selector matches the tags with that key. A tag whose key is empty is never
/// recorded, so for the empty key nothing is found, whatever tags the
/// document had.
pub fn answer_for_key(document: &Document, key: &str, command: &QueryCommand) -> (text: Result<
    String,
    QueryError,
>)
    ensures
        match selected(provided_under(document@, key@), command.one) {
            Err(error) => text == Err::<String, QueryError>(error),
            Ok(tree) => settles(written(command.format, tree), text),
        },
        key@.len() == 0 ==> provided_under(document@, key@) == Seq::<Tree>::empty(),
{
    let found = document.provided(key);
    proof {
        if key@.len() == 0 {
            lemma_record_has_no_empty_key(document@, key@);
        }
    }
    format(found.as_slice(), command)
}

} // verus!
