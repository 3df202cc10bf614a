use rok::json::Json;
use rok::refs::{has_grep_results, resolve_jsonpath, resolve_ref, step_failed, step_ok};
use rok::results::{StepResult, StepTypeResult};
use rok::schema::GrepMatch;

fn bash(status: &str, stdout: &str, exit_code: i32) -> StepResult {
    StepResult {
        index: 0,
        step_type: StepTypeResult::Bash {
            cmd: "echo hello".to_string(),
            stdout: stdout.to_string(),
            stderr: String::new(),
            exit_code,
        },
        status: status.to_string(),
        duration_ms: 10,
        stopped_pipeline: None,
    }
}

fn grep(matches: Vec<(&str, usize, &str)>) -> StepResult {
    StepResult {
        index: 0,
        step_type: StepTypeResult::Grep {
            pattern: "TODO".to_string(),
            matches: matches
                .into_iter()
                .map(|(p, l, t)| GrepMatch { path: p.to_string(), line: l, text: t.to_string() })
                .collect(),
        },
        status: "ok".to_string(),
        duration_ms: 50,
        stopped_pipeline: None,
    }
}

fn as_str(j: &Json) -> Option<&str> {
    match j {
        Json::Str(s) => Some(s.as_str()),
        _ => None,
    }
}

#[test]
fn test_resolve_bash_ref() {
    let results = vec![bash("ok", "hello\n", 0)];
    let v = resolve_ref(0, "*", &results).unwrap();
    assert_eq!(as_str(v.get_key("stdout").unwrap()), Some("hello\n"));
    assert!(matches!(v.get_key("exit_code"), Some(Json::PosInt(0))));
    let v = resolve_ref(0, "", &results).unwrap();
    assert!(v.get_key("stderr").is_some());
}

#[test]
fn resolve_negative_exit_code() {
    let results = vec![bash("error", "", -1)];
    let v = resolve_ref(0, "exit_code", &results).unwrap();
    assert!(matches!(v, Json::NegInt(-1)));
}

#[test]
fn test_resolve_grep_ref() {
    let results = vec![grep(vec![
        ("src/main.rs", 10, "// TODO: implement this"),
        ("src/lib.rs", 25, "// TODO: fix bug"),
    ])];
    let v = resolve_ref(0, "matches", &results).unwrap();
    assert!(v.is_array());
    match v {
        Json::Array(items) => assert_eq!(items.len(), 2),
        _ => panic!("expected an array"),
    }
}

#[test]
fn test_resolve_grep_matches_paths() {
    let results = vec![grep(vec![
        ("src/main.rs", 10, "// TODO: implement this"),
        ("src/lib.rs", 25, "// TODO: fix bug"),
    ])];
    let v = resolve_ref(0, "matches[*].path", &results).unwrap();
    match v {
        Json::Array(paths) => {
            assert_eq!(paths.len(), 2);
            assert_eq!(as_str(&paths[0]), Some("src/main.rs"));
            assert_eq!(as_str(&paths[1]), Some("src/lib.rs"));
        }
        _ => panic!("expected an array"),
    }
}

#[test]
fn resolve_indexed_path() {
    let results = vec![grep(vec![("a.rs", 1, "x"), ("b.rs", 2, "y")])];
    let v = resolve_ref(0, "matches[1].line", &results).unwrap();
    assert!(matches!(v, Json::PosInt(2)));
    assert!(resolve_ref(0, "matches[5].line", &results).is_none());
    assert!(resolve_ref(0, "missing", &results).is_none());
    let v = resolve_ref(0, "matches[*]", &results).unwrap();
    assert!(v.is_array());
}

#[test]
fn test_resolve_invalid_ref() {
    let results: Vec<StepResult> = vec![];
    assert!(resolve_ref(0, "*", &results).is_none());
}

#[test]
fn resolve_fallback_wraps_whole_record() {
    let results = vec![StepResult {
        index: 3,
        step_type: StepTypeResult::Mkdir { path: "out".to_string() },
        status: "ok".to_string(),
        duration_ms: 1,
        stopped_pipeline: Some(false),
    }];
    let v = resolve_ref(0, "result.type", &results).unwrap();
    assert_eq!(as_str(&v), Some("mkdir"));
    let v = resolve_ref(0, "result.durationMs", &results).unwrap();
    assert!(matches!(v, Json::PosInt(1)));
    let v = resolve_ref(0, "result.stoppedPipeline", &results).unwrap();
    assert!(matches!(v, Json::Bool(false)));
}

#[test]
fn jsonpath_on_plain_values() {
    let v = Json::Object(vec![
        ("a".to_string(), Json::Array(vec![Json::integer(5), Json::integer(-7)])),
        ("b".to_string(), Json::string("x")),
    ]);
    assert!(matches!(resolve_jsonpath(&v, "a[1]"), Some(Json::NegInt(-7))));
    assert!(matches!(resolve_jsonpath(&v, "a[+0]"), Some(Json::PosInt(5))));
    assert!(matches!(resolve_jsonpath(&v, "a[zz]"), Some(Json::Array(_))));
    assert!(matches!(resolve_jsonpath(&v, "b..").map(|j| as_str(&j).map(String::from)), Some(Some(_))));
    assert!(resolve_jsonpath(&v, "c").is_none());
}

#[test]
fn test_has_grep_results_true() {
    let results = vec![grep(vec![("src/main.rs", 10, "// TODO")])];
    assert!(has_grep_results(0, &results));
}

#[test]
fn test_has_grep_results_false() {
    let results = vec![grep(vec![])];
    assert!(!has_grep_results(0, &results));
    assert!(!has_grep_results(1, &results));
    assert!(!has_grep_results(0, &[bash("ok", "", 0)]));
}

#[test]
fn test_step_ok_true() {
    assert!(step_ok(0, &[bash("ok", "hello\n", 0)]));
}

#[test]
fn test_step_ok_false() {
    assert!(!step_ok(0, &[bash("error", "", 1)]));
    assert!(!step_ok(1, &[bash("ok", "", 0)]));
}

#[test]
fn test_step_failed() {
    assert!(step_failed(0, &[bash("error", "", 1)]));
    assert!(!step_failed(0, &[bash("ok", "", 0)]));
}

#[test]
fn step_type_names() {
    assert_eq!(bash("ok", "", 0).step_type.step_type_name(), "bash");
    assert_eq!(StepTypeResult::Parallel { results: vec![] }.step_type_name(), "parallel");
}
