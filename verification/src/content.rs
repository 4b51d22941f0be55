//! Owned snapshots of the nodes of a compiled document.

use crate::value::{AnyValue, Tree};
use vstd::prelude::*;

verus! {

/// An owned snapshot of one node of a compiled document. It shares nothing
/// with the document it was taken from.
#[derive(Debug, PartialEq, Eq)]
pub struct Content {
    body: AnyValue,
}

impl View for Content {
    type V = Tree;

    closed spec fn view(&self) -> Tree {
        self.body@
    }
}

/// The trees of a sequence of snapshots, in the same order.
pub open spec fn content_trees(items: Seq<Content>) -> Seq<Tree> {
    Seq::new(items.len(), |i: int| items[i]@)
}

/// What content that renders as nothing holds: a sequence without items.
pub open spec fn empty_tree() -> Tree {
    Tree::Array(Seq::empty())
}

impl Content {
    /// Content that renders as nothing.
    pub fn empty() -> (content: Content)
        ensures
            content@ == empty_tree(),
    {
        let content = Content { body: AnyValue::Array(Vec::new()) };
        assert(content@->Array_0 =~= Seq::<Tree>::empty());
        content
    }

    /// Content that holds `body`.
    pub fn new(body: AnyValue) -> (content: Content)
        ensures
            content@ == body@,
    {
        Content { body }
    }

    /// A frozen copy of `value`: later changes to `value` do not reach it.
    pub fn snapshot(value: &AnyValue) -> (content: Content)
        ensures
            content@ == value@,
    {
        Content { body: value.copy() }
    }

    /// The value that this content holds.
    pub fn body(&self) -> (body: &AnyValue)
        ensures
            body@ == self@,
    {
        &self.body
    }

    /// Whether this content renders as nothing.
    pub fn is_empty(&self) -> (empty: bool)
        ensures
            empty == (self@ == empty_tree()),
    {
        match self.body.as_array() {
            Some(items) => {
                let empty = items.len() == 0;
                assert(empty == (self@->Array_0 =~= Seq::<Tree>::empty()));
                empty
            },
            None => false,
        }
    }
}

impl Clone for Content {
    fn clone(&self) -> (content: Content)
        ensures
            content@ == self@,
    {
        Content { body: self.body.copy() }
    }
}

} // verus!
