use dami::engine::series::Float64;
use dami::enums::DataTypes;
use dami::io::json::{
    json_is_bool, json_is_float, json_is_int, json_value_to_bool, json_value_to_float,
    json_value_to_int, json_value_to_string, JsonReader, JsonValue, NOT_A_NUMBER,
};

fn widen(i: i64) -> Float64 {
    Float64::from_bits((i as f64).to_bits())
}

fn float(x: f64) -> JsonValue {
    JsonValue::Float(Float64::from_bits(x.to_bits()))
}

fn text(s: &str) -> JsonValue {
    JsonValue::Text(s.to_string())
}

#[test]
fn json_values_tell_their_kind() {
    assert!(json_is_int(&[JsonValue::Int(1), JsonValue::Int(-2)]));
    assert!(!json_is_int(&[JsonValue::Int(1), float(2.0)]));
    assert!(json_is_int(&[]));
    assert!(json_is_float(&[float(1.5)]));
    assert!(!json_is_float(&[JsonValue::Int(1)]));
    assert!(json_is_bool(&[JsonValue::Bool(true)]));
    assert!(!json_is_bool(&[JsonValue::Other]));
    assert_eq!(json_value_to_int(&[JsonValue::Int(4), JsonValue::Int(5)]), Some(vec![4, 5]));
    assert_eq!(json_value_to_int(&[JsonValue::Int(4), text("5")]), None);
    assert_eq!(json_value_to_bool(&[JsonValue::Bool(false)]), Some(vec![false]));
    assert_eq!(json_value_to_bool(&[JsonValue::Int(0)]), None);
    assert_eq!(json_value_to_string(&[text("a")]), Some(vec!["a".to_string()]));
    assert_eq!(json_value_to_string(&[text("a"), JsonValue::Other]), None);
    let floats = json_value_to_float(&[float(1.5), JsonValue::Int(2), text("x")], &widen);
    assert_eq!(f64::from_bits(floats[0].to_bits()), 1.5);
    assert_eq!(f64::from_bits(floats[1].to_bits()), 2.0);
    assert_eq!(floats[2].to_bits(), NOT_A_NUMBER);
    assert!(f64::from_bits(NOT_A_NUMBER).is_nan());
}

#[test]
fn json_objects_become_a_table() {
    let mut reader = JsonReader::new();
    assert!(reader.needs_headers());
    reader.push_headers(vec!["n".to_string(), "x".to_string(), "ok".to_string(), "s".to_string()]);
    assert!(!reader.needs_headers());
    reader.smart_push(vec![JsonValue::Int(1), float(0.5), JsonValue::Bool(true), text("a")]);
    reader.smart_push(vec![JsonValue::Int(2), float(3.0), JsonValue::Bool(false), text("b")]);
    let df = reader.to_dataframe(widen).unwrap();
    assert_eq!(df.get_order(), vec!["n", "x", "ok", "s"]);
    assert_eq!(df.get::<i64>("n").unwrap().to_vec(), vec![1, 2]);
    let x: Vec<f64> = df
        .get::<Float64>("x")
        .unwrap()
        .to_vec()
        .into_iter()
        .map(|v| f64::from_bits(v.to_bits()))
        .collect();
    assert_eq!(x, vec![0.5, 3.0]);
    assert_eq!(df.get::<bool>("ok").unwrap().to_vec(), vec![true, false]);
    assert_eq!(df.get::<String>("s").unwrap().to_vec(), vec!["a".to_string(), "b".to_string()]);
    assert!(matches!(df.get_dtype_at_key("n"), Some(DataTypes::I64)));
}

#[test]
fn integers_below_floats_are_widened() {
    let mut reader = JsonReader::new();
    reader.push_headers(vec!["x".to_string()]);
    for i in 0..10 {
        reader.smart_push(vec![float(f64::from(i) + 0.5)]);
    }
    reader.smart_push(vec![JsonValue::Int(7)]);
    reader.smart_push(vec![text("none")]);
    let df = reader.to_dataframe(widen).unwrap();
    let x = df.get::<Float64>("x").unwrap().to_vec();
    assert_eq!(x.len(), 12);
    assert_eq!(f64::from_bits(x[9].to_bits()), 9.5);
    assert_eq!(f64::from_bits(x[10].to_bits()), 7.0);
    assert!(f64::from_bits(x[11].to_bits()).is_nan());
    let mut mixed = JsonReader::new();
    mixed.push_headers(vec!["x".to_string()]);
    mixed.smart_push(vec![float(0.5)]);
    mixed.smart_push(vec![JsonValue::Int(3)]);
    assert!(mixed.to_dataframe(widen).is_err());
}

#[test]
fn json_values_that_do_not_fit_are_refused() {
    let mut mixed = JsonReader::new();
    mixed.push_headers(vec!["n".to_string()]);
    for i in 0..10 {
        mixed.smart_push(vec![JsonValue::Int(i)]);
    }
    mixed.smart_push(vec![text("late")]);
    assert!(mixed.to_dataframe(widen).is_err());
    let mut other = JsonReader::new();
    other.push_headers(vec!["n".to_string()]);
    other.smart_push(vec![JsonValue::Other]);
    assert!(other.to_dataframe(widen).is_err());
    let empty = JsonReader::new();
    assert!(empty.to_dataframe(widen).is_err());
    let mut nameless = JsonReader::new();
    nameless.smart_push(vec![JsonValue::Int(1)]);
    assert!(nameless.to_dataframe(widen).is_err());
    let mut uneven = JsonReader::new();
    uneven.push_headers(vec!["a".to_string(), "b".to_string()]);
    uneven.smart_push(vec![JsonValue::Int(1), JsonValue::Int(2)]);
    uneven.smart_push(vec![JsonValue::Int(3)]);
    assert!(uneven.to_dataframe(widen).is_err());
}
