use typst_query::content::Content;
use typst_query::metadata::{Behaviour, Document, MetadataElem};
use typst_query::value::{AnyValue, Dict};

fn page(n: i64) -> AnyValue {
    let mut dict = Dict::new();
    dict.insert("page".to_string(), AnyValue::Int(n));
    AnyValue::Dict(dict)
}

fn tag(key: &str, value: AnyValue) -> MetadataElem {
    MetadataElem::new(key.to_string(), value)
}

fn bodies(items: &[Content]) -> Vec<AnyValue> {
    items.iter().map(|item| item.body().copy()).collect()
}

#[test]
fn tag_keeps_what_it_was_given() {
    let elem = MetadataElem::new("note".to_string(), page(2));
    assert_eq!(elem.key(), "note");
    assert_eq!(elem.value(), &page(2));
    assert_eq!(elem.clone(), elem);
}

#[test]
fn tag_shows_nothing() {
    let elem = tag("note", page(2));
    assert!(elem.show().is_empty());
    assert_eq!(elem.show(), Content::empty());
}

#[test]
fn tag_is_ignorant() {
    let elem = tag("note", AnyValue::Null);
    assert_eq!(elem.behaviour(), Behaviour::Ignorant);
}

#[test]
fn provided_values_keep_document_order() {
    let tags = vec![
        tag("a", AnyValue::Int(1)),
        tag("b", AnyValue::Int(10)),
        tag("a", AnyValue::Int(2)),
        tag("c", AnyValue::Int(100)),
        tag("a", AnyValue::Int(3)),
        tag("b", AnyValue::Int(20)),
        tag("a", AnyValue::Int(1)),
    ];
    let document = Document::collect(&tags);
    assert_eq!(
        bodies(&document.provided("a")),
        vec![AnyValue::Int(1), AnyValue::Int(2), AnyValue::Int(3), AnyValue::Int(1)]
    );
    assert_eq!(bodies(&document.provided("b")), vec![AnyValue::Int(10), AnyValue::Int(20)]);
    assert_eq!(bodies(&document.provided("c")), vec![AnyValue::Int(100)]);
}

#[test]
fn absent_key_provides_nothing() {
    let document = Document::collect(&[tag("a", AnyValue::Int(1))]);
    assert!(document.provided("b").is_empty());
    assert!(document.provided("").is_empty());
    assert!(Document::new().provided("a").is_empty());
    assert!(Document::collect(&[]).provided("a").is_empty());
}

#[test]
fn empty_key_is_not_recorded() {
    let mut document = Document::new();
    document.provide(&tag("", AnyValue::Int(1)));
    assert_eq!(document, Document::new());
    document.provide(&tag("k", AnyValue::Int(2)));
    document.provide(&tag("", AnyValue::Int(3)));
    assert!(document.provided("").is_empty());
    assert_eq!(bodies(&document.provided("k")), vec![AnyValue::Int(2)]);
}

#[test]
fn provide_one_by_one_equals_collect() {
    let tags = vec![tag("x", page(1)), tag("y", page(2)), tag("x", page(3))];
    let mut document = Document::new();
    for elem in &tags {
        document.provide(elem);
    }
    assert_eq!(document, Document::collect(&tags));
    assert_eq!(bodies(&document.provided("x")), vec![page(1), page(3)]);
}

#[test]
fn provided_values_outlive_their_tags() {
    let mut document = Document::new();
    {
        let elem = tag("k", AnyValue::Array(vec![AnyValue::Int(1)]));
        document.provide(&elem);
    }
    let first = document.provided("k");
    document.provide(&tag("k", AnyValue::Int(2)));
    assert_eq!(bodies(&first), vec![AnyValue::Array(vec![AnyValue::Int(1)])]);
    assert_eq!(
        bodies(&document.provided("k")),
        vec![AnyValue::Array(vec![AnyValue::Int(1)]), AnyValue::Int(2)]
    );
}
