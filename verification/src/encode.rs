//! Values as JSON and YAML text.
//!
//! A [`AnyValue`] is first rebuilt as a JSON value that holds the same tree; both
//! texts are then written from that one value.

use crate::json::{
    json_array, json_bool, json_entries, json_int, json_items, json_null, json_number,
    json_object, json_string, json_tree,
};
use crate::value::AnyValue;
use vstd::prelude::*;

verus! {

/// Rebuilds `value` as a JSON value that holds the same tree.
#[verifier::loop_isolation(false)]
pub fn to_json(value: &AnyValue) -> (json: serde_json::Value)
    ensures
        json_tree(json) == value@,
    decreases value@,
{
    match value {
        AnyValue::Null => json_null(),
        AnyValue::Bool(b) => json_bool(*b),
        AnyValue::Int(i) => json_int(*i),
        AnyValue::Number(n) => match json_number(n.text().as_str()) {
            Some(json) => json,
            None => json_null(),
        },
        AnyValue::Str(s) => json_string(s.clone()),
        AnyValue::Array(items) => {
            let mut built: Vec<serde_json::Value> = Vec::new();
            let mut i: usize = 0;
            while i < items.len()
                invariant
                    i <= items.len(),
                    built.len() == i,
                    forall|j: int| 0 <= j < i ==> json_tree(#[trigger] built[j]) == items[j]@,
                decreases items.len() - i,
            {
                assert(value@->Array_0[i as int] == items[i as int]@);
                built.push(to_json(&items[i]));
                i += 1;
            }
            assert(json_items(built@) =~= value@->Array_0);
            json_array(built)
        },
        AnyValue::Dict(dict) => {
            let n: usize = dict.len();
            let mut built: Vec<(String, serde_json::Value)> = Vec::new();
            let mut i: usize = 0;
            while i < n
                invariant
                    i <= n,
                    built.len() == i,
                    forall|j: int|
                        0 <= j < i ==> (#[trigger] built[j]).0@ == dict@[j].0 && json_tree(
                            built[j].1,
                        ) == dict@[j].1,
                decreases n - i,
            {
                match dict.entry(i) {
                    Some((key, item)) => {
                        proof {
                            let pair = dict@[i as int];
                            assert(value@->Dict_0 == dict@);
                            assert(decreases_to!(dict@ => pair));
                            assert(decreases_to!(pair => pair.1));
                        }
                        built.push((key.clone(), to_json(item)));
                    },
                    None => {},
                }
                i += 1;
            }
            assert(json_entries(built@) =~= dict@);
            json_object(built)
        },
    }
}

} // verus!
