use typst_query::content::Content;
use typst_query::encode::to_json;
use typst_query::text::decimal_text;
use typst_query::value::{AnyValue, Dict, Numeral};

fn text(s: &str) -> AnyValue {
    AnyValue::Str(s.to_string())
}

fn page(n: i64) -> AnyValue {
    let mut dict = Dict::new();
    dict.insert("page".to_string(), AnyValue::Int(n));
    AnyValue::Dict(dict)
}

#[test]
fn dict_keeps_insertion_order() {
    let mut dict = Dict::new();
    dict.insert("b".to_string(), AnyValue::Int(1));
    dict.insert("a".to_string(), AnyValue::Int(2));
    dict.insert("c".to_string(), AnyValue::Int(3));
    assert_eq!(dict.len(), 3);
    assert_eq!(dict.entry(0), Some((&"b".to_string(), &AnyValue::Int(1))));
    assert_eq!(dict.entry(1), Some((&"a".to_string(), &AnyValue::Int(2))));
    assert_eq!(dict.entry(2), Some((&"c".to_string(), &AnyValue::Int(3))));
    assert_eq!(dict.entry(3), None);
}

#[test]
fn dict_insert_replaces_in_place() {
    let mut dict = Dict::new();
    dict.insert("a".to_string(), AnyValue::Int(1));
    dict.insert("b".to_string(), AnyValue::Int(2));
    dict.insert("a".to_string(), AnyValue::Bool(true));
    assert_eq!(dict.len(), 2);
    assert_eq!(dict.entry(0), Some((&"a".to_string(), &AnyValue::Bool(true))));
    assert_eq!(dict.entry(1), Some((&"b".to_string(), &AnyValue::Int(2))));
}

#[test]
fn dict_get_and_position() {
    let mut dict = Dict::new();
    assert_eq!(dict.get("a"), None);
    assert_eq!(dict.position("a"), None);
    dict.insert("a".to_string(), AnyValue::Int(1));
    dict.insert("".to_string(), AnyValue::Null);
    dict.insert("ab".to_string(), text("x"));
    assert_eq!(dict.get("a"), Some(&AnyValue::Int(1)));
    assert_eq!(dict.get(""), Some(&AnyValue::Null));
    assert_eq!(dict.get("ab"), Some(&text("x")));
    assert_eq!(dict.get("b"), None);
    assert_eq!(dict.position("ab"), Some(2));
    assert_eq!(dict.position("abc"), None);
}

#[test]
fn copy_is_equal_and_independent() {
    let mut inner = Dict::new();
    inner.insert("k".to_string(), AnyValue::Array(vec![AnyValue::Int(1), text("two")]));
    let first = AnyValue::Array(vec![AnyValue::Dict(inner), AnyValue::Null, AnyValue::Bool(false)]);
    let copy = first.copy();
    assert_eq!(copy, first);
    assert_eq!(first.clone(), first);
    let mut changed = first;
    if let AnyValue::Array(items) = &mut changed {
        items.push(AnyValue::Int(9));
    }
    assert_ne!(copy, changed);
    if let AnyValue::Array(items) = &copy {
        assert_eq!(items.len(), 3);
    } else {
        panic!("the copy of an array is an array");
    }
}

#[test]
fn dict_copy_is_equal() {
    let mut dict = Dict::new();
    dict.insert("x".to_string(), page(1));
    dict.insert("y".to_string(), page(2));
    let copy = dict.copy();
    assert_eq!(copy, dict);
    assert_eq!(dict.clone(), dict);
    dict.insert("z".to_string(), AnyValue::Null);
    assert_eq!(copy.len(), 2);
    assert_eq!(dict.len(), 3);
}

#[test]
fn snapshot_is_frozen() {
    let mut value = AnyValue::Array(vec![AnyValue::Int(1)]);
    let content = Content::snapshot(&value);
    if let AnyValue::Array(items) = &mut value {
        items.push(AnyValue::Int(2));
    }
    assert_eq!(content.body(), &AnyValue::Array(vec![AnyValue::Int(1)]));
    assert_eq!(content.clone(), content);
}

#[test]
fn empty_content_is_empty() {
    assert!(Content::empty().is_empty());
    assert!(Content::new(AnyValue::Array(vec![])).is_empty());
    assert!(!Content::new(AnyValue::Null).is_empty());
    assert!(!Content::new(AnyValue::Array(vec![AnyValue::Null])).is_empty());
    assert!(!Content::new(text("")).is_empty());
}

#[test]
fn decimal_numerals() {
    assert_eq!(decimal_text(0), "0");
    assert_eq!(decimal_text(7), "7");
    assert_eq!(decimal_text(9), "9");
    assert_eq!(decimal_text(10), "10");
    assert_eq!(decimal_text(42), "42");
    assert_eq!(decimal_text(100), "100");
    assert_eq!(decimal_text(1234567890), "1234567890");
    assert_eq!(decimal_text(usize::MAX), format!("{}", usize::MAX));
}

#[test]
fn json_of_leaves() {
    assert_eq!(to_json(&AnyValue::Null), serde_json::Value::Null);
    assert_eq!(to_json(&AnyValue::Bool(true)), serde_json::Value::Bool(true));
    assert_eq!(to_json(&AnyValue::Bool(false)), serde_json::Value::Bool(false));
    assert_eq!(to_json(&AnyValue::Int(0)), serde_json::Value::from(0i64));
    assert_eq!(to_json(&AnyValue::Int(-5)), serde_json::Value::from(-5i64));
    assert_eq!(to_json(&AnyValue::Int(i64::MAX)), serde_json::Value::from(i64::MAX));
    assert_eq!(to_json(&AnyValue::Int(i64::MIN)), serde_json::Value::from(i64::MIN));
    assert_eq!(to_json(&text("hi")), serde_json::Value::String("hi".to_string()));
}

#[test]
fn json_of_array_keeps_order() {
    let value = AnyValue::Array(vec![AnyValue::Int(3), AnyValue::Int(1), AnyValue::Int(2)]);
    let expected = serde_json::Value::Array(vec![
        serde_json::Value::from(3i64),
        serde_json::Value::from(1i64),
        serde_json::Value::from(2i64),
    ]);
    assert_eq!(to_json(&value), expected);
    assert_eq!(to_json(&AnyValue::Array(vec![])), serde_json::Value::Array(vec![]));
}

#[test]
fn json_of_dict_keeps_order() {
    let mut dict = Dict::new();
    dict.insert("zeta".to_string(), AnyValue::Int(1));
    dict.insert("alpha".to_string(), AnyValue::Array(vec![AnyValue::Null]));
    dict.insert("mid".to_string(), page(4));
    let json = to_json(&AnyValue::Dict(dict));
    let object = match &json {
        serde_json::Value::Object(object) => object,
        _ => panic!("a dictionary becomes an object"),
    };
    let keys: Vec<&str> = object.keys().map(|k| k.as_str()).collect();
    assert_eq!(keys, vec!["zeta", "alpha", "mid"]);
    assert_eq!(object["zeta"], serde_json::Value::from(1i64));
    assert_eq!(object["alpha"], serde_json::Value::Array(vec![serde_json::Value::Null]));
    assert_eq!(object["mid"]["page"], serde_json::Value::from(4i64));
    assert_eq!(
        to_json(&AnyValue::Dict(Dict::new())),
        serde_json::Value::Object(serde_json::Map::new())
    );
}

#[test]
fn numerals_are_read_or_refused() {
    for text in ["0", "-1", "1.5", "-0.25", "1e3", "2E-2", "12345678901234567890", "-0.0"] {
        let number = Numeral::parse(text).unwrap();
        assert_eq!(number.text(), text);
        assert_eq!(number.copy(), number);
        assert_eq!(number.clone(), number);
    }
    for text in ["", " 1", "1 ", "+1", "01", "1.", ".5", "0x10", "NaN", "inf", "1e", "one", "1,5"] {
        assert_eq!(Numeral::parse(text), None);
    }
}

#[test]
fn json_of_numerals() {
    let half = AnyValue::Number(Numeral::parse("1.5").unwrap());
    assert_eq!(
        to_json(&half),
        serde_json::Value::Number(serde_json::Number::from_f64(1.5).unwrap())
    );
    assert_eq!(half.copy(), half);
    let thousand = AnyValue::Number(Numeral::parse("1e3").unwrap());
    assert_eq!(
        to_json(&thousand),
        serde_json::Value::Number(serde_json::Number::from_f64(1000.0).unwrap())
    );
    let large = AnyValue::Number(Numeral::parse("18446744073709551615").unwrap());
    assert_eq!(to_json(&large), serde_json::Value::from(u64::MAX));
    let five = AnyValue::Number(Numeral::parse("5").unwrap());
    assert_eq!(to_json(&five), to_json(&AnyValue::Int(5)));
}

#[test]
fn only_arrays_have_items() {
    let items = vec![AnyValue::Int(1), AnyValue::Null];
    assert_eq!(AnyValue::Array(items.clone()).as_array(), Some(&items));
    assert_eq!(AnyValue::Array(vec![]).as_array(), Some(&vec![]));
    assert_eq!(AnyValue::Null.as_array(), None);
    assert_eq!(AnyValue::Int(1).as_array(), None);
    assert_eq!(AnyValue::Str("[]".to_string()).as_array(), None);
    assert_eq!(AnyValue::Dict(Dict::new()).as_array(), None);
    assert_eq!(AnyValue::Number(Numeral::parse("1.5").unwrap()).as_array(), None);
}
