use rok::cli::OutputFormat;
use rok::json::Json;
use rok::output::{format_output, format_pretty, format_step_type, Report, Segment};
use rok::results::{Output, StepResult, StepTypeResult};

fn text(segs: &[Segment]) -> String {
    segs.iter().map(|s| s.text.clone()).collect::<Vec<_>>().join("")
}

fn bash_result(index: usize, status: &str, stdout: &str, exit_code: i32) -> StepResult {
    StepResult {
        index,
        step_type: StepTypeResult::Bash {
            cmd: "echo hi".to_string(),
            stdout: stdout.to_string(),
            stderr: String::new(),
            exit_code,
        },
        status: status.to_string(),
        duration_ms: 3,
        stopped_pipeline: None,
    }
}

#[test]
fn bash_line_with_output_and_exit_code() {
    let r = bash_result(0, "error", "  hi\n", 2);
    let segs = format_step_type(&r);
    assert_eq!(text(&segs), "bash: echo hi\n        hi [exit: 2]");
    assert!(segs[1].bold);
    assert_eq!(segs[3].color.as_deref(), Some("dimmed"));
}

#[test]
fn bash_line_quiet_success() {
    let r = bash_result(0, "ok", "", 0);
    assert_eq!(text(&format_step_type(&r)), "bash: echo hi");
}

#[test]
fn negative_exit_code() {
    let r = bash_result(0, "error", "", -1);
    assert_eq!(text(&format_step_type(&r)), "bash: echo hi [exit: -1]");
}

#[test]
fn extract_lists_sorted_keys() {
    let data = Json::Object(vec![
        ("zeta".to_string(), Json::Null),
        ("alpha".to_string(), Json::Bool(true)),
        ("mid".to_string(), Json::Null),
    ]);
    let r = StepResult {
        index: 1,
        step_type: StepTypeResult::Extract { path: "a.json".to_string(), data },
        status: "ok".to_string(),
        duration_ms: 0,
        stopped_pipeline: None,
    };
    assert_eq!(text(&format_step_type(&r)), "extract: a.json → keys: alpha, mid, zeta");
}

#[test]
fn other_kinds() {
    let mk = |t: StepTypeResult| StepResult { index: 0, step_type: t, status: "ok".to_string(), duration_ms: 0, stopped_pipeline: None };
    assert_eq!(
        text(&format_step_type(&mk(StepTypeResult::Mv { from: "a".to_string(), to: "b".to_string() }))),
        "mv: a → b"
    );
    assert_eq!(
        text(&format_step_type(&mk(StepTypeResult::Template { output: "o.txt".to_string(), rendered: false }))),
        "template: o.txt → failed"
    );
    assert_eq!(
        text(&format_step_type(&mk(StepTypeResult::Lint {
            errors_count: 2,
            warnings_count: 5,
            errors: vec![],
        }))),
        "lint: 2 errors, 5 warnings"
    );
    assert_eq!(
        text(&format_step_type(&mk(StepTypeResult::Parallel { results: vec![] }))),
        "parallel: 0 sub-steps"
    );
}

#[test]
fn git_line_shows_debug_quoted_op_and_error() {
    let out = Json::Object(vec![("error".to_string(), Json::Str("boom".to_string()))]);
    let r = StepResult {
        index: 0,
        step_type: StepTypeResult::Git { op: "status".to_string(), output: out },
        status: "error".to_string(),
        duration_ms: 0,
        stopped_pipeline: None,
    };
    assert_eq!(text(&format_step_type(&r)), "git \"status\" → \"boom\"");
}

#[test]
fn pretty_report() {
    let out = Output {
        status: "partial".to_string(),
        steps_total: 2,
        steps_ok: 1,
        steps_failed: 1,
        duration_ms: 42,
        results: vec![bash_result(0, "ok", "", 0), bash_result(12, "error", "", 1)],
    };
    let segs = format_pretty(&out);
    assert_eq!(
        text(&segs),
        "● [PARTIAL] 2 steps (1 ok, 1 failed) in 42ms\n\n  [ok  0ms] bash: echo hi\n  [error 12ms] bash: echo hi [exit: 1]\n"
    );
    assert_eq!(segs[0].color.as_deref(), Some("yellow"));
    assert!(segs[0].bold);
    assert_eq!(segs[2].text, "PARTIAL");
    assert_eq!(segs[5].color.as_deref(), Some("green"));
}

#[test]
fn output_formats() {
    let out = Output { status: "ok".to_string(), steps_total: 0, steps_ok: 0, steps_failed: 0, duration_ms: 1, results: vec![] };
    match format_output(&out, OutputFormat::Json) {
        Report::Text(t) => assert_eq!(t, "{\"status\":\"ok\",\"stepsTotal\":0,\"stepsOk\":0,\"stepsFailed\":0,\"durationMs\":1,\"results\":[]}"),
        Report::Styled(_) => panic!("expected text"),
    }
    match format_output(&out, OutputFormat::Silent) {
        Report::Text(t) => assert_eq!(t, ""),
        Report::Styled(_) => panic!("expected text"),
    }
    match format_output(&out, OutputFormat::Pretty) {
        Report::Styled(p) => {
            assert_eq!(text(&p), "● [OK] 0 steps (0 ok, 0 failed) in 1ms\n\n");
            assert_eq!(p[0].color.as_deref(), Some("green"));
        },
        Report::Text(_) => panic!("expected styled lines"),
    }
}

#[test]
fn test_serialize_output() {
    let out = Output {
        status: "ok".to_string(),
        steps_total: 5,
        steps_ok: 5,
        steps_failed: 0,
        duration_ms: 1234,
        results: vec![],
    };
    match format_output(&out, OutputFormat::Json) {
        Report::Text(json) => {
            assert!(json.contains("\"status\":\"ok\""));
            assert!(json.contains("\"stepsTotal\":5"));
            assert!(json.contains("\"durationMs\":1234"));
        },
        Report::Styled(_) => panic!("expected text"),
    }
}

#[test]
fn json_record_keeps_the_declared_field_order() {
    let http = StepResult {
        index: 0,
        step_type: StepTypeResult::Http { method: "GET".to_string(), url: "u".to_string(), status: 200, body: None },
        status: "ok".to_string(),
        duration_ms: 5,
        stopped_pipeline: None,
    };
    let skipped = StepResult {
        index: 1,
        step_type: StepTypeResult::Bash {
            cmd: String::new(),
            stdout: String::new(),
            stderr: "x\"y".to_string(),
            exit_code: -1,
        },
        status: "skipped".to_string(),
        duration_ms: 0,
        stopped_pipeline: Some(true),
    };
    let extract = StepResult {
        index: 2,
        step_type: StepTypeResult::Extract {
            path: "p".to_string(),
            data: Json::Object(vec![("b".to_string(), Json::PosInt(1)), ("a".to_string(), Json::PosInt(2))]),
        },
        status: "ok".to_string(),
        duration_ms: 1,
        stopped_pipeline: None,
    };
    let par = StepResult {
        index: 3,
        step_type: StepTypeResult::Parallel { results: vec![bash_result(0, "ok", "hi", 0)] },
        status: "ok".to_string(),
        duration_ms: 2,
        stopped_pipeline: None,
    };
    let out = Output {
        status: "partial".to_string(),
        steps_total: 4,
        steps_ok: 3,
        steps_failed: 0,
        duration_ms: 9,
        results: vec![http, skipped, extract, par],
    };
    let expected = [
        "{\"status\":\"partial\",\"stepsTotal\":4,\"stepsOk\":3,\"stepsFailed\":0,\"durationMs\":9,\"results\":[",
        "{\"index\":0,\"type\":\"http\",\"method\":\"GET\",\"url\":\"u\",\"status\":200,\"body\":null,\"status\":\"ok\",\"durationMs\":5},",
        "{\"index\":1,\"type\":\"bash\",\"cmd\":\"\",\"stdout\":\"\",\"stderr\":\"x\\\"y\",\"exit_code\":-1,\"status\":\"skipped\",\"durationMs\":0,\"stoppedPipeline\":true},",
        "{\"index\":2,\"type\":\"extract\",\"path\":\"p\",\"data\":{\"a\":2,\"b\":1},\"status\":\"ok\",\"durationMs\":1},",
        "{\"index\":3,\"type\":\"parallel\",\"results\":[",
        "{\"index\":0,\"type\":\"bash\",\"cmd\":\"echo hi\",\"stdout\":\"hi\",\"stderr\":\"\",\"exit_code\":0,\"status\":\"ok\",\"durationMs\":3}",
        "],\"status\":\"ok\",\"durationMs\":2}]}",
    ]
    .join("");
    match format_output(&out, OutputFormat::Json) {
        Report::Text(t) => assert_eq!(t, expected),
        Report::Styled(_) => panic!("expected text"),
    }
}
