use aros_sie::float_bits::FloatBits;
use aros_sie::json::{json_equal, JsonNumber, JsonValue};
use aros_sie::ranking::top_indices;
use aros_sie::shadow::dataset::{FrozenDataset, TestCase};
use aros_sie::table::{IdMap, StrMap};
use aros_sie::types::Timestamp;
use aros_sie::SieError;

fn bits(x: f64) -> FloatBits {
    FloatBits::from_bits(x.to_bits())
}

fn num(x: f64) -> JsonValue {
    JsonValue::Number(JsonNumber::Float(bits(x)))
}

fn s(t: &str) -> JsonValue {
    JsonValue::text(t)
}

#[test]
fn float_comparisons_follow_binary64() {
    let values = [-f64::INFINITY, -2.5, -1.0, -0.0, 0.0, 1e-300, 0.5, 1.0, 3.0, f64::INFINITY];
    for a in values {
        for b in values {
            assert_eq!(bits(a).lt(&bits(b)), a < b, "{} < {}", a, b);
            assert_eq!(bits(a).le(&bits(b)), a <= b, "{} <= {}", a, b);
            assert_eq!(bits(a).num_eq(&bits(b)), a == b, "{} == {}", a, b);
        }
    }
    let nan = bits(f64::NAN);
    assert!(nan.is_nan());
    assert!(!nan.lt(&bits(1.0)) && !bits(1.0).lt(&nan) && !nan.le(&nan) && !nan.num_eq(&nan));
    assert!(!bits(1.0).is_nan() && !bits(f64::INFINITY).is_nan());
}

#[test]
fn float_clamp_matches_f64_clamp() {
    for x in [-3.0, -0.0, 0.0, 0.25, 1.0, 7.5, f64::NEG_INFINITY, f64::INFINITY] {
        let c = bits(x).clamp(FloatBits::zero(), FloatBits::one());
        assert_eq!(f64::from_bits(c.bits), x.clamp(0.0, 1.0));
    }
    assert!(bits(f64::NAN).clamp(FloatBits::zero(), FloatBits::one()).is_nan());
    assert_eq!(f64::from_bits(FloatBits::one().bits), 1.0);
    assert_eq!(f64::from_bits(FloatBits::zero().bits), 0.0);
}

#[test]
fn json_equality_is_serde_equality() {
    let obj = JsonValue::Object(vec![
        ("a".to_string(), num(1.5)),
        ("b".to_string(), JsonValue::Array(vec![JsonValue::Null, JsonValue::Bool(true), s("x")])),
    ]);
    assert!(json_equal(&obj, &obj));
    assert!(json_equal(&obj, &obj.deep_copy()));
    let reordered = JsonValue::Object(vec![
        ("b".to_string(), JsonValue::Array(vec![JsonValue::Null, JsonValue::Bool(true), s("x")])),
        ("a".to_string(), num(1.5)),
    ]);
    assert!(json_equal(&obj, &reordered));
    let other = JsonValue::Object(vec![("a".to_string(), num(1.5)), ("c".to_string(), JsonValue::Null)]);
    assert!(!json_equal(&obj, &other));
    assert!(!json_equal(&JsonValue::Number(JsonNumber::PosInt(1)), &num(1.0)));
    assert!(json_equal(&num(0.0), &num(-0.0)));
    assert!(!json_equal(&num(f64::NAN), &num(f64::NAN)));
    assert!(!json_equal(&JsonValue::Array(vec![num(1.0)]), &JsonValue::Array(vec![])));
    assert!(!json_equal(&s("x"), &JsonValue::Null));
    assert_eq!(s("hi"), JsonValue::String("hi".to_string()));
}

#[test]
fn top_indices_best_first() {
    let scores: Vec<FloatBits> = [0.3, 0.9, 0.1, 0.9, 0.5].iter().map(|x| bits(*x)).collect();
    let idx = top_indices(&scores, 3);
    assert_eq!(idx.len(), 3);
    let picked: Vec<f64> = idx.iter().map(|&i| f64::from_bits(scores[i].bits)).collect();
    assert_eq!(picked, vec![0.9, 0.9, 0.5]);
    assert_eq!(top_indices(&scores, 0), Vec::<usize>::new());
    let mut all = top_indices(&scores, 10);
    assert_eq!(all.len(), 5);
    all.sort();
    assert_eq!(all, vec![0, 1, 2, 3, 4]);
    assert!(top_indices(&Vec::new(), 4).is_empty());
}

#[test]
fn str_map_behaves_as_a_map() {
    let mut m: StrMap<u32> = StrMap::new();
    assert!(m.is_empty());
    assert_eq!(m.insert("a".to_string(), 1), None);
    assert_eq!(m.insert("b".to_string(), 2), None);
    assert_eq!(m.insert("a".to_string(), 3), Some(1));
    assert_eq!(m.len(), 2);
    assert_eq!(m.get("a"), Some(&3));
    assert!(m.contains_key("b"));
    assert_eq!(m.remove("b"), Some(2));
    assert_eq!(m.remove("b"), None);
    assert_eq!(m.get("b"), None);
    assert_eq!(m.len(), 1);
    assert_eq!(m.find("a"), Some(0));
    assert_eq!(m.key_at(0), "a");
}

#[test]
fn id_map_behaves_as_a_map() {
    let mut m: IdMap<&str> = IdMap::new();
    assert_eq!(m.insert(7, "x"), None);
    assert_eq!(m.insert(u128::MAX, "y"), None);
    assert_eq!(m.insert(7, "z"), Some("x"));
    assert_eq!(m.len(), 2);
    assert_eq!(m.get(7), Some(&"z"));
    assert_eq!(m.remove(u128::MAX), Some("y"));
    assert!(!m.contains_key(u128::MAX));
    assert!(!m.is_empty());
}

#[test]
fn frozen_dataset_new_and_empty_check() {
    let t = Timestamp { secs: 1_700_000_000, nanos: 0 };
    let empty = FrozenDataset::new("empty", vec![], t);
    assert_eq!(empty.captured_at, t);
    assert_eq!(empty.name, "empty");
    assert!(empty.is_empty());
    assert_eq!(empty.ensure_cases(), Err(SieError::ShadowTest("Dataset is empty".to_string())));
    let case = TestCase { input: JsonValue::Null, expected_output: JsonValue::Null, ground_truth_score: None };
    let one = FrozenDataset::new("one", vec![case], t);
    assert_eq!(one.len(), 1);
    assert_eq!(one.ensure_cases(), Ok(()));
}
