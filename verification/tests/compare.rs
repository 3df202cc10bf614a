use rok::compare::{diff, is_subset};
use rok::json::Json;

fn obj(entries: &[(&str, Json)]) -> Json {
    Json::Object(entries.iter().map(|(k, v)| (k.to_string(), v.copy())).collect())
}

#[test]
fn subset_passes() {
    assert!(is_subset(&obj(&[("a", Json::PosInt(1))]), &obj(&[("a", Json::PosInt(1)), ("b", Json::PosInt(2))])));
}

#[test]
fn subset_fails_on_mismatch() {
    assert!(!is_subset(&obj(&[("a", Json::PosInt(2))]), &obj(&[("a", Json::PosInt(1)), ("b", Json::PosInt(2))])));
}

#[test]
fn diff_equal_values() {
    let v = obj(&[("x", Json::PosInt(1))]);
    assert!(diff(&v, &v).contains("equal"));
}

#[test]
fn nested_subsets_and_equality() {
    let inner = obj(&[("k", Json::Str("v".to_string()))]);
    let sup = obj(&[("n", obj(&[("k", Json::Str("v".to_string())), ("z", Json::Null)])), ("m", Json::Bool(true))]);
    assert!(is_subset(&obj(&[("n", inner.copy())]), &sup));
    assert!(!is_subset(&obj(&[("missing", Json::Null)]), &sup));
    assert!(!is_subset(&inner, &Json::Array(vec![])));
    assert!(is_subset(&Json::Array(vec![Json::PosInt(1)]), &Json::Array(vec![Json::PosInt(1)])));
    assert!(!is_subset(&Json::Array(vec![Json::PosInt(1)]), &Json::Array(vec![Json::PosInt(1), Json::PosInt(2)])));
    let a = obj(&[("x", Json::PosInt(1)), ("y", Json::Null)]);
    let b = obj(&[("y", Json::Null), ("x", Json::PosInt(1))]);
    assert!(a.equals(&b));
    assert!(!a.equals(&obj(&[("x", Json::PosInt(1))])));
}

#[test]
fn diff_shows_both_sides() {
    let d = diff(&Json::PosInt(1), &Json::PosInt(2));
    assert_eq!(d, "left:\n1\n\nright:\n2");
}
