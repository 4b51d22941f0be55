//! Metadata tags, and the record that a document keeps of them.

use crate::content::{content_trees, empty_tree, Content};
use crate::value::{
    distinct_keys, has_key, inserted, key_index, lemma_inserted_keeps_keys_distinct,
    lemma_inserted_leaves_other_keys, lemma_inserted_value_is_found, trees, value_under,
    AnyValue, Dict, Tree,
};
use vstd::prelude::*;

verus! {

/// How an element takes part in the layout of what surrounds it.
#[derive(Debug, Clone, Copy, PartialEq, Eq, Structural)]
pub enum Behaviour {
    /// Gives way to stronger neighbours; a lower number is stronger.
    Weak(usize),
    /// Keeps weak neighbours alive.
    Supportive,
    /// Removes weak neighbours.
    Destructive,
    /// Is passed over: it neither splits nor interrupts what surrounds it.
    Ignorant,
}

/// A metadata tag: a value filed under a key, for the query system to find.
/// It has no visible representation in the compiled document, and once made
/// it does not change.
#[derive(Debug, PartialEq, Eq)]
pub struct MetadataElem {
    key: String,
    value: AnyValue,
}

impl View for MetadataElem {
    type V = (Seq<char>, Tree);

    closed spec fn view(&self) -> (Seq<char>, Tree) {
        (self.key@, self.value@)
    }
}

impl MetadataElem {
    /// A tag that files `value` under `key`.
    pub fn new(key: String, value: AnyValue) -> (elem: MetadataElem)
        ensures
            elem@ == (key@, value@),
    {
        MetadataElem { key, value }
    }

    /// The key under which the value is found again.
    pub fn key(&self) -> (key: &String)
        ensures
            key@ == self@.0,
    {
        &self.key
    }

    /// The value filed under the key.
    pub fn value(&self) -> (value: &AnyValue)
        ensures
            value@ == self@.1,
    {
        &self.value
    }

    /// What the tag shows when the document is rendered: nothing.
    pub fn show(&self) -> (shown: Content)
        ensures
            shown@ == empty_tree(),
    {
        Content::empty()
    }

    /// How the tag behaves in layout: it is passed over.
    pub fn behaviour(&self) -> (behaviour: Behaviour)
        ensures
            behaviour == Behaviour::Ignorant,
    {
        Behaviour::Ignorant
    }
}

impl Clone for MetadataElem {
    fn clone(&self) -> (elem: MetadataElem)
        ensures
            elem@ == self@,
    {
        MetadataElem { key: self.key.clone(), value: self.value.copy() }
    }
}

/// The tags as pairs of key and value, in the same order.
pub open spec fn tag_views(tags: Seq<MetadataElem>) -> Seq<(Seq<char>, Tree)> {
    Seq::new(tags.len(), |i: int| tags[i]@)
}

/// The values that `tags` file under `key`, in the order of the tags.
pub open spec fn tagged(tags: Seq<(Seq<char>, Tree)>, key: Seq<char>) -> Seq<Tree> {
    tags.filter(|tag: (Seq<char>, Tree)| tag.0 == key).map_values(|tag: (Seq<char>, Tree)| tag.1)
}

/// How the tagged values grow with the tags: no tags file nothing, and a
/// further tag adds its value at the end if it has the key.
pub proof fn lemma_tagged_by_last(tags: Seq<(Seq<char>, Tree)>, key: Seq<char>)
    ensures
        tags.len() == 0 ==> tagged(tags, key) == Seq::<Tree>::empty(),
        tags.len() > 0 ==> tagged(tags, key) == if tags.last().0 == key {
            tagged(tags.drop_last(), key).push(tags.last().1)
        } else {
            tagged(tags.drop_last(), key)
        },
{
    reveal(Seq::filter);
    if tags.len() == 0 {
        assert(tagged(tags, key) =~= Seq::<Tree>::empty());
    } else if tags.last().0 == key {
        assert(tagged(tags, key) =~= tagged(tags.drop_last(), key).push(tags.last().1));
    } else {
        assert(tagged(tags, key) =~= tagged(tags.drop_last(), key));
    }
}

/// The values that a record holds under `key`, oldest first; none where the
/// key is absent.
pub open spec fn provided_under(record: Seq<(Seq<char>, Tree)>, key: Seq<char>) -> Seq<Tree> {
    match value_under(record, key) {
        Some(Tree::Array(values)) => values,
        _ => Seq::empty(),
    }
}

/// The record after a tag with `key` and `value` has been provided: the value
/// goes last in the list under its key. A tag without a key leaves no trace.
pub open spec fn provided_after(
    record: Seq<(Seq<char>, Tree)>,
    key: Seq<char>,
    value: Tree,
) -> Seq<(Seq<char>, Tree)> {
    if key.len() == 0 {
        record
    } else {
        inserted(record, key, Tree::Array(provided_under(record, key).push(value)))
    }
}

/// The record of a document whose tags are `tags`, in document order.
pub open spec fn collected(tags: Seq<(Seq<char>, Tree)>) -> Seq<(Seq<char>, Tree)>
    decreases tags.len(),
{
    if tags.len() == 0 {
        Seq::empty()
    } else {
        provided_after(collected(tags.drop_last()), tags.last().0, tags.last().1)
    }
}

/// What holds of every record: its keys are distinct and not empty, and under
/// each key stands a list.
pub open spec fn is_record(record: Seq<(Seq<char>, Tree)>) -> bool {
    &&& distinct_keys(record)
    &&& forall|i: int|
        0 <= i < record.len() ==> (#[trigger] record[i]).0.len() > 0 && record[i].1 is Array
}

/// A record holds nothing under the empty key.
pub proof fn lemma_record_has_no_empty_key(record: Seq<(Seq<char>, Tree)>, key: Seq<char>)
    requires
        is_record(record),
        key.len() == 0,
    ensures
        provided_under(record, key) == Seq::<Tree>::empty(),
{
    if has_key(record, key) {
        assert(record[key_index(record, key)].0.len() > 0);
    }
}

/// Providing a tag keeps a record a record.
pub proof fn lemma_provided_after_is_record(
    record: Seq<(Seq<char>, Tree)>,
    key: Seq<char>,
    value: Tree,
)
    requires
        is_record(record),
    ensures
        is_record(provided_after(record, key, value)),
{
    if key.len() > 0 {
        lemma_inserted_keeps_keys_distinct(
            record,
            key,
            Tree::Array(provided_under(record, key).push(value)),
        );
    }
}

/// The record collected from any tags is a record.
pub proof fn lemma_collected_is_record(tags: Seq<(Seq<char>, Tree)>)
    ensures
        is_record(collected(tags)),
    decreases tags.len(),
{
    if tags.len() > 0 {
        lemma_collected_is_record(tags.drop_last());
        lemma_provided_after_is_record(collected(tags.drop_last()), tags.last().0, tags.last().1);
    }
}

/// Providing a tag appends its value to the list under its key and leaves the
/// lists under all other keys as they were.
pub proof fn lemma_provided_after_under(
    record: Seq<(Seq<char>, Tree)>,
    key: Seq<char>,
    value: Tree,
    wanted: Seq<char>,
)
    requires
        is_record(record),
        wanted.len() > 0,
    ensures
        provided_under(provided_after(record, key, value), wanted) == if key == wanted {
            provided_under(record, wanted).push(value)
        } else {
            provided_under(record, wanted)
        },
{
    if key.len() > 0 {
        let list = Tree::Array(provided_under(record, key).push(value));
        if key == wanted {
            lemma_inserted_value_is_found(record, key, list);
        } else {
            lemma_inserted_leaves_other_keys(record, key, list, wanted);
        }
    }
}

/// Order preservation: the values that a document's record holds under a key
/// are the values of the tags with that key, in the order in which the tags
/// stand in the document.
pub proof fn lemma_collected_preserves_order(tags: Seq<(Seq<char>, Tree)>, key: Seq<char>)
    requires
        key.len() > 0,
    ensures
        provided_under(collected(tags), key) == tagged(tags, key),
    decreases tags.len(),
{
    lemma_tagged_by_last(tags, key);
    if tags.len() == 0 {
        assert(!has_key(collected(tags), key));
    } else {
        let before = tags.drop_last();
        let last = tags.last();
        lemma_collected_preserves_order(before, key);
        lemma_collected_is_record(before);
        lemma_provided_after_under(collected(before), last.0, last.1, key);
    }
}

/// What a compiled document keeps of its metadata tags: under each key, the
/// values of the tags with that key, in document order.
#[derive(Debug, PartialEq, Eq)]
pub struct Document {
    provided: Dict,
}

impl View for Document {
    type V = Seq<(Seq<char>, Tree)>;

    closed spec fn view(&self) -> Seq<(Seq<char>, Tree)> {
        self.provided@
    }
}

impl Document {
    #[verifier::type_invariant]
    spec fn holds_record(self) -> bool {
        is_record(self@)
    }

    /// The list that stands under `key` in `provided`, if one does.
    fn list_under<'a>(provided: &'a Dict, key: &str) -> (list: Option<&'a Vec<AnyValue>>)
        ensures
            match list {
                Some(values) => value_under(provided@, key@) == Some(Tree::Array(trees(values@))),
                None => provided_under(provided@, key@) == Seq::<Tree>::empty(),
            },
    {
        match provided.get(key) {
            Some(value) => value.as_array(),
            None => None,
        }
    }

    /// A document without tags.
    pub fn new() -> (document: Document)
        ensures
            document@ == Seq::<(Seq<char>, Tree)>::empty(),
    {
        Document { provided: Dict::new() }
    }

    /// Records one tag: its value goes last in the list under its key. A tag
    /// whose key is empty is not recorded.
    pub fn provide(&mut self, elem: &MetadataElem)
        ensures
            final(self)@ == provided_after(old(self)@, elem@.0, elem@.1),
            is_record(final(self)@),
    {
        proof {
            use_type_invariant(&*self);
        }
        if elem.key.as_str().is_empty() {
            return;
        }
        let mut taken = Document::new();
        std::mem::swap(self, &mut taken);
        let Document { provided } = taken;
        let mut provided = provided;
        let mut list: Vec<AnyValue> = Vec::new();
        match Self::list_under(&provided, elem.key.as_str()) {
            Some(values) => {
                let mut i: usize = 0;
                while i < values.len()
                    invariant
                        i <= values.len(),
                        list.len() == i,
                        forall|j: int| 0 <= j < i ==> (#[trigger] list[j])@ == values[j]@,
                    decreases values.len() - i,
                {
                    list.push(values[i].copy());
                    i += 1;
                }
                assert(AnyValue::Array(list)@->Array_0 =~= provided_under(
                    provided@,
                    elem.key@,
                ));
            },
            None => {
                assert(AnyValue::Array(list)@->Array_0 =~= provided_under(
                    provided@,
                    elem.key@,
                ));
            },
        }
        let ghost before = AnyValue::Array(list)@->Array_0;
        list.push(elem.value.copy());
        let values = AnyValue::Array(list);
        assert(values@->Array_0 =~= before.push(elem.value@));
        provided.insert(elem.key.clone(), values);
        proof {
            lemma_provided_after_is_record(old(self)@, elem.key@, elem.value@);
        }
        *self = Document { provided };
    }

    /// The document whose tags are `tags`, visited in their order.
    pub fn collect(tags: &[MetadataElem]) -> (document: Document)
        ensures
            document@ == collected(tag_views(tags@)),
            forall|key: Seq<char>|
                key.len() > 0 ==> provided_under(document@, key) == #[trigger] tagged(
                    tag_views(tags@),
                    key,
                ),
    {
        let mut document = Document::new();
        let mut i: usize = 0;
        while i < tags.len()
            invariant
                i <= tags.len(),
                document@ == collected(tag_views(tags@).take(i as int)),
            decreases tags.len() - i,
        {
            document.provide(&tags[i]);
            proof {
                let seen = tag_views(tags@).take(i + 1);
                assert(seen.drop_last() =~= tag_views(tags@).take(i as int));
                assert(seen.last() == tags[i as int]@);
            }
            i += 1;
        }
        proof {
            assert(tag_views(tags@).take(i as int) =~= tag_views(tags@));
            assert forall|key: Seq<char>| key.len() > 0 implies provided_under(document@, key)
                == #[trigger] tagged(tag_views(tags@), key) by {
                lemma_collected_preserves_order(tag_views(tags@), key);
            }
        }
        document
    }

    /// Frozen copies of the values recorded under `key`, in document order.
    /// There are none where no tag had the key.
    pub fn provided(&self, key: &str) -> (found: Vec<Content>)
        ensures
            content_trees(found@) == provided_under(self@, key@),
            is_record(self@),
    {
        proof {
            use_type_invariant(self);
        }
        let mut found: Vec<Content> = Vec::new();
        match Self::list_under(&self.provided, key) {
            Some(values) => {
                let mut i: usize = 0;
                while i < values.len()
                    invariant
                        i <= values.len(),
                        found.len() == i,
                        forall|j: int| 0 <= j < i ==> (#[trigger] found[j])@ == values[j]@,
                    decreases values.len() - i,
                {
                    found.push(Content::snapshot(&values[i]));
                    i += 1;
                }
                assert(content_trees(found@) =~= provided_under(self@, key@));
            },
            None => {
                assert(content_trees(found@) =~= provided_under(self@, key@));
            },
        }
        found
    }
}

} // verus!
