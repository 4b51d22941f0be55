//! The values that a document can carry as metadata.

use crate::json::{is_number, json_number, json_number_tree};
use vstd::prelude::*;

verus! {

/// What a [`AnyValue`] denotes: a finite tree of plain data.
pub enum Tree {
    Null,
    Bool(bool),
    Int(int),
    /// A number that is no integer, named by a numeral of it.
    Real(Seq<char>),
    Str(Seq<char>),
    Array(Seq<Tree>),
    Dict(Seq<(Seq<char>, Tree)>),
}

/// No two entries of `entries` share a key.
pub open spec fn distinct_keys(entries: Seq<(Seq<char>, Tree)>) -> bool {
    forall|i: int, j: int|
        0 <= i < j < entries.len() ==> (#[trigger] entries[i]).0 != (#[trigger] entries[j]).0
}

/// Some entry of `entries` has the key `key`.
pub open spec fn has_key(entries: Seq<(Seq<char>, Tree)>, key: Seq<char>) -> bool {
    exists|i: int| 0 <= i < entries.len() && (#[trigger] entries[i]).0 == key
}

/// The place of an entry with the key `key`, where there is one.
pub open spec fn key_index(entries: Seq<(Seq<char>, Tree)>, key: Seq<char>) -> int {
    choose|i: int| 0 <= i < entries.len() && (#[trigger] entries[i]).0 == key
}

/// The entries after `key` has been given `value`: an entry that already has
/// the key keeps its place and takes the value; a new key goes last.
pub open spec fn inserted(
    entries: Seq<(Seq<char>, Tree)>,
    key: Seq<char>,
    value: Tree,
) -> Seq<(Seq<char>, Tree)> {
    if has_key(entries, key) {
        entries.update(key_index(entries, key), (key, value))
    } else {
        entries.push((key, value))
    }
}

/// The tree stored under `key`, where there is one.
pub open spec fn value_under(entries: Seq<(Seq<char>, Tree)>, key: Seq<char>) -> Option<Tree> {
    if has_key(entries, key) {
        Some(entries[key_index(entries, key)].1)
    } else {
        None
    }
}

/// Giving a key a value keeps the keys distinct.
pub proof fn lemma_inserted_keeps_keys_distinct(
    entries: Seq<(Seq<char>, Tree)>,
    key: Seq<char>,
    value: Tree,
)
    requires
        distinct_keys(entries),
    ensures
        distinct_keys(inserted(entries, key, value)),
{
    let after = inserted(entries, key, value);
    if has_key(entries, key) {
        let k = key_index(entries, key);
        assert forall|i: int, j: int| 0 <= i < j < after.len() implies (#[trigger] after[i]).0 != (
        #[trigger] after[j]).0 by {
            assert(entries[i].0 != entries[j].0);
            assert(entries[k].0 == key);
        }
    } else {
        assert forall|i: int, j: int| 0 <= i < j < after.len() implies (#[trigger] after[i]).0 != (
        #[trigger] after[j]).0 by {
            if j < entries.len() {
                assert(entries[i].0 != entries[j].0);
            } else {
                assert(entries[i].0 != key);
            }
        }
    }
}

/// After a key has been given a value, that value is what stands under it.
pub proof fn lemma_inserted_value_is_found(
    entries: Seq<(Seq<char>, Tree)>,
    key: Seq<char>,
    value: Tree,
)
    requires
        distinct_keys(entries),
    ensures
        value_under(inserted(entries, key, value), key) == Some(value),
{
    let after = inserted(entries, key, value);
    lemma_inserted_keeps_keys_distinct(entries, key, value);
    let at = if has_key(entries, key) {
        key_index(entries, key)
    } else {
        entries.len() as int
    };
    assert(after[at].0 == key);
    let found = key_index(after, key);
    assert(after[found].0 == key);
    assert(found == at);
}

/// Giving one key a value changes nothing under any other key.
pub proof fn lemma_inserted_leaves_other_keys(
    entries: Seq<(Seq<char>, Tree)>,
    key: Seq<char>,
    value: Tree,
    other: Seq<char>,
)
    requires
        distinct_keys(entries),
        other != key,
    ensures
        value_under(inserted(entries, key, value), other) == value_under(entries, other),
{
    let after = inserted(entries, key, value);
    lemma_inserted_keeps_keys_distinct(entries, key, value);
    if has_key(entries, other) {
        let at = key_index(entries, other);
        assert(after[at] == entries[at]);
        assert(has_key(after, other));
        let found = key_index(after, other);
        assert(after[found].0 == other);
        assert(found == at);
    } else {
        if has_key(after, other) {
            let found = key_index(after, other);
            assert(after[found].0 == other);
            if found < entries.len() {
                assert(entries[found].0 == other);
            }
            assert(false);
        }
    }
}

/// A value of the document language.
#[derive(Debug, PartialEq, Eq)]
pub enum AnyValue {
    Null,
    Bool(bool),
    Int(i64),
    /// A number that is no 64-bit integer.
    Number(Numeral),
    Str(String),
    Array(Vec<AnyValue>),
    Dict(Dict),
}

/// A number that is kept as its numeral, such as `1.5` or `-2e10`. It serves
/// for the numbers that are no 64-bit integers. Its text is always one that
/// is read as a number.
#[derive(Debug, PartialEq, Eq)]
pub struct Numeral {
    text: String,
}

impl View for Numeral {
    type V = Tree;

    /// The tree of the number that the numeral is read as.
    closed spec fn view(&self) -> Tree {
        json_number_tree(self.text@)->Some_0
    }
}

impl Numeral {
    #[verifier::type_invariant]
    spec fn is_read(self) -> bool {
        json_number_tree(self.text@) matches Some(tree) && is_number(tree)
    }

    /// The characters of the numeral.
    pub closed spec fn numeral(self) -> Seq<char> {
        self.text@
    }

    /// The number that `text` is read as; none where it is read as no number.
    pub fn parse(text: &str) -> (number: Option<Numeral>)
        ensures
            match json_number_tree(text@) {
                Some(tree) => number matches Some(n) && n.numeral() == text@ && n@ == tree,
                None => number is None,
            },
    {
        match json_number(text) {
            Some(_) => Some(Numeral { text: text.to_owned() }),
            None => None,
        }
    }

    /// The numeral as text.
    pub fn text(&self) -> (text: &String)
        ensures
            text@ == self.numeral(),
            json_number_tree(text@) == Some(self@),
            is_number(self@),
    {
        proof {
            use_type_invariant(self);
        }
        &self.text
    }

    /// A copy that shares nothing with this number.
    pub fn copy(&self) -> (number: Numeral)
        ensures
            number.numeral() == self.numeral(),
            number@ == self@,
    {
        proof {
            use_type_invariant(self);
        }
        Numeral { text: self.text.clone() }
    }
}

impl Clone for Numeral {
    fn clone(&self) -> (number: Numeral)
        ensures
            number@ == self@,
    {
        self.copy()
    }
}

/// An ordered map from distinct keys to values. Entries stay in the order in
/// which their keys were first inserted.
#[derive(Debug, PartialEq, Eq)]
pub struct Dict {
    entries: Vec<(String, AnyValue)>,
}

impl View for AnyValue {
    type V = Tree;

    open spec fn view(&self) -> Tree
        decreases self,
    {
        match self {
            AnyValue::Null => Tree::Null,
            AnyValue::Bool(b) => Tree::Bool(*b),
            AnyValue::Int(i) => Tree::Int(*i as int),
            AnyValue::Number(n) => n@,
            AnyValue::Str(s) => Tree::Str(s@),
            AnyValue::Array(items) => Tree::Array(
                Seq::new(
                    items.len() as nat,
                    |i: int|
                        if 0 <= i < items.len() {
                            items[i]@
                        } else {
                            Tree::Null
                        },
                ),
            ),
            AnyValue::Dict(d) => Tree::Dict(d@),
        }
    }
}

impl View for Dict {
    type V = Seq<(Seq<char>, Tree)>;

    closed spec fn view(&self) -> Seq<(Seq<char>, Tree)>
        decreases self,
    {
        entry_trees(self.entries@)
    }
}

/// What a sequence of stored entries denotes, in the same order.
spec fn entry_trees(entries: Seq<(String, AnyValue)>) -> Seq<(Seq<char>, Tree)>
    decreases entries,
{
    Seq::new(
        entries.len(),
        |i: int|
            if 0 <= i < entries.len() {
                (entries[i].0@, entries[i].1@)
            } else {
                (Seq::empty(), Tree::Null)
            },
    )
}

/// The trees that a sequence of values denotes, in the same order.
pub open spec fn trees(values: Seq<AnyValue>) -> Seq<Tree> {
    Seq::new(values.len(), |i: int| values[i]@)
}

impl Dict {
    #[verifier::type_invariant]
    spec fn keys_differ(self) -> bool {
        distinct_keys(self@)
    }

    /// A dictionary without entries.
    pub fn new() -> (d: Dict)
        ensures
            d@ == Seq::<(Seq<char>, Tree)>::empty(),
    {
        Dict { entries: Vec::new() }
    }

    /// The number of entries.
    pub fn len(&self) -> (n: usize)
        ensures
            n == self@.len(),
            distinct_keys(self@),
    {
        proof {
            use_type_invariant(self);
        }
        self.entries.len()
    }

    /// The entry at place `index`, counted from zero in insertion order.
    pub fn entry(&self, index: usize) -> (e: Option<(&String, &AnyValue)>)
        ensures
            index >= self@.len() ==> e is None,
            index < self@.len() ==> (e matches Some((k, v)) && k@ == self@[index as int].0 && v@
                == self@[index as int].1),
    {
        if index < self.entries.len() {
            let pair = &self.entries[index];
            Some((&pair.0, &pair.1))
        } else {
            None
        }
    }

    /// The place of the entry with the key `key`.
    pub fn position(&self, key: &str) -> (p: Option<usize>)
        ensures
            p is Some <==> has_key(self@, key@),
            p matches Some(i) ==> i < self@.len() && self@[i as int].0 == key@ && i == key_index(
                self@,
                key@,
            ),
    {
        proof {
            use_type_invariant(self);
        }
        let wanted = key.to_owned();
        let mut i: usize = 0;
        while i < self.entries.len()
            invariant
                i <= self.entries.len(),
                wanted@ == key@,
                distinct_keys(self@),
                forall|j: int| 0 <= j < i ==> (#[trigger] self@[j]).0 != key@,
            decreases self.entries.len() - i,
        {
            if self.entries[i].0 == wanted {
                proof {
                    let k = key_index(self@, key@);
                    assert(self@[i as int].0 == key@);
                    assert(self@[k].0 == key@);
                    assert(k == i);
                }
                return Some(i);
            }
            i += 1;
        }
        None
    }

    /// The value stored under `key`.
    pub fn get(&self, key: &str) -> (v: Option<&AnyValue>)
        ensures
            match v {
                Some(found) => value_under(self@, key@) == Some(found@),
                None => value_under(self@, key@) is None,
            },
    {
        match self.position(key) {
            Some(i) => Some(&self.entries[i].1),
            None => None,
        }
    }

    /// Stores `value` under `key`. A key that is already present keeps its
    /// place and takes the new value; a new key goes last.
    pub fn insert(&mut self, key: String, value: AnyValue)
        ensures
            final(self)@ == inserted(old(self)@, key@, value@),
    {
        let mut taken = Dict::new();
        std::mem::swap(self, &mut taken);
        proof {
            use_type_invariant(&taken);
        }
        let found = taken.position(key.as_str());
        let Dict { entries } = taken;
        let mut entries = entries;
        match found {
            Some(i) => {
                entries.set(i, (key, value));
            },
            None => {
                entries.push((key, value));
            },
        }
        proof {
            assert(entry_trees(entries@) =~= inserted(old(self)@, key@, value@));
            lemma_inserted_keeps_keys_distinct(old(self)@, key@, value@);
        }
        let updated = Dict { entries };
        *self = updated;
    }

    /// A copy that shares nothing with this dictionary.
    #[verifier::loop_isolation(false)]
    pub fn copy(&self) -> (d: Dict)
        ensures
            d@ == self@,
        decreases self,
    {
        proof {
            use_type_invariant(self);
        }
        let mut entries: Vec<(String, AnyValue)> = Vec::new();
        let mut i: usize = 0;
        while i < self.entries.len()
            invariant
                i <= self.entries.len(),
                entries.len() == i,
                forall|j: int|
                    0 <= j < i ==> (#[trigger] entries[j]).0@ == self.entries[j].0@ && entries[j].1@
                        == self.entries[j].1@,
            decreases self.entries.len() - i,
        {
            let key = self.entries[i].0.clone();
            let value = self.entries[i].1.copy();
            entries.push((key, value));
            i += 1;
        }
        assert(entry_trees(entries@) =~= self@);
        Dict { entries }
    }
}

impl AnyValue {
    /// The items of this value, if it is an array.
    pub fn as_array(&self) -> (items: Option<&Vec<AnyValue>>)
        ensures
            match items {
                Some(found) => self@ == Tree::Array(trees(found@)),
                None => !(self@ is Array),
            },
    {
        match self {
            AnyValue::Array(items) => {
                assert(self@->Array_0 =~= trees(items@));
                Some(items)
            },
            AnyValue::Number(n) => {
                let _ = n.text();
                None
            },
            _ => None,
        }
    }

    /// A copy that shares nothing with this value.
    #[verifier::loop_isolation(false)]
    pub fn copy(&self) -> (v: AnyValue)
        ensures
            v@ == self@,
        decreases self,
    {
        match self {
            AnyValue::Null => AnyValue::Null,
            AnyValue::Bool(b) => AnyValue::Bool(*b),
            AnyValue::Int(i) => AnyValue::Int(*i),
            AnyValue::Number(n) => AnyValue::Number(n.copy()),
            AnyValue::Str(s) => AnyValue::Str(s.clone()),
            AnyValue::Array(items) => {
                let mut copies: Vec<AnyValue> = Vec::new();
                let mut i: usize = 0;
                while i < items.len()
                    invariant
                        i <= items.len(),
                        copies.len() == i,
                        forall|j: int| 0 <= j < i ==> (#[trigger] copies[j])@ == items[j]@,
                    decreases items.len() - i,
                {
                    copies.push(items[i].copy());
                    i += 1;
                }
                let v = AnyValue::Array(copies);
                assert(v@ =~= self@) by {
                    assert(v@->Array_0 =~= self@->Array_0);
                }
                v
            },
            AnyValue::Dict(d) => AnyValue::Dict(d.copy()),
        }
    }
}

impl Clone for AnyValue {
    fn clone(&self) -> (v: AnyValue)
        ensures
            v@ == self@,
    {
        self.copy()
    }
}

impl Clone for Dict {
    fn clone(&self) -> (d: Dict)
        ensures
            d@ == self@,
    {
        self.copy()
    }
}

} // verus!
