use rok::json::Json;
use rok::results::{StepResult, StepTypeResult};
use rok::runner::{
    composite_status_of, each_items, eval_condition, each_result, if_result, probes, substitute_step,
    Fact, ProbeKind, RunState,
};
use rok::schema::{Condition, EachOver, EachRef, GrepMatch, Step};

fn result(status: &str) -> StepResult {
    StepResult {
        index: 0,
        step_type: StepTypeResult::Mkdir { path: "x".to_string() },
        status: status.to_string(),
        duration_ms: 1,
        stopped_pipeline: None,
    }
}

#[test]
fn substitute_step_replaces_item_in_working_fields() {
    let step = Step::Write {
        id: "w-{{item}}".to_string(),
        depends_on: vec!["{{item}}".to_string()],
        path: "out/{{item}}.txt".to_string(),
        content: "hello {{item}} and {{other}}".to_string(),
        create_dirs: true,
    };
    match substitute_step(&step, "item", "a") {
        Step::Write { id, depends_on, path, content, create_dirs } => {
            assert_eq!(id, "w-{{item}}");
            assert_eq!(depends_on, vec!["{{item}}".to_string()]);
            assert_eq!(path, "out/a.txt");
            assert_eq!(content, "hello a and {{other}}");
            assert!(create_dirs);
        }
        _ => panic!("expected a write step"),
    }
}

#[test]
fn substitute_step_recurses_into_nested_steps() {
    let inner = Step::Bash {
        id: String::new(),
        depends_on: vec![],
        cmd: "echo {{f}}".to_string(),
        timeout_ms: Some(5),
        retry: None,
    };
    let step = Step::Parallel { id: String::new(), depends_on: vec![], steps: vec![inner] };
    match substitute_step(&step, "f", "z") {
        Step::Parallel { steps, .. } => match &steps[0] {
            Step::Bash { cmd, timeout_ms, .. } => {
                assert_eq!(cmd, "echo z");
                assert_eq!(*timeout_ms, Some(5));
            }
            _ => panic!("expected bash"),
        },
        _ => panic!("expected parallel"),
    }
    let git = Step::Git {
        id: String::new(),
        depends_on: vec![],
        op: rok::schema::GitOp::Add,
        args: vec!["{{f}}".to_string(), "-v".to_string()],
    };
    match substitute_step(&git, "f", "file.rs") {
        Step::Git { args, .. } => assert_eq!(args, vec!["file.rs".to_string(), "-v".to_string()]),
        _ => panic!("expected git"),
    }
}

#[test]
fn conditions_take_their_facts_in_order() {
    let c = Condition::And {
        conditions: vec![
            Condition::Exists { path: "Cargo.toml".to_string() },
            Condition::Not {
                condition: Box::new(Condition::Contains {
                    path: "README.md".to_string(),
                    pattern: "TODO".to_string(),
                    regex: false,
                }),
            },
            Condition::StepOk { ref_: 0 },
        ],
    };
    let p = probes(&c);
    assert_eq!(p.len(), 2);
    assert_eq!(p[0].kind, ProbeKind::Exists);
    assert_eq!(p[0].path, "Cargo.toml");
    assert_eq!(p[1].kind, ProbeKind::Read);
    let results = vec![result("ok")];
    let facts = vec![Fact::Exists(true), Fact::Content(Some("all done".to_string()))];
    assert!(eval_condition(&c, &facts, &results));
    let facts = vec![Fact::Exists(true), Fact::Content(Some("TODO: more".to_string()))];
    assert!(!eval_condition(&c, &facts, &results));
    let facts = vec![Fact::Exists(true), Fact::Content(None)];
    assert!(eval_condition(&c, &facts, &results));
    assert!(!eval_condition(&c, &facts, &[result("error")]));
}

#[test]
fn or_and_file_changed_conditions() {
    let c = Condition::Or {
        conditions: vec![
            Condition::StepFailed { ref_: 0 },
            Condition::FileChanged { path: "a".to_string(), since: "2020-01-01T00:00:00Z".to_string() },
        ],
    };
    assert_eq!(probes(&c)[0].kind, ProbeKind::Modified);
    let later = vec![Fact::Modified(Some((1_600_000_000, 0)))];
    let earlier = vec![Fact::Modified(Some((1_500_000_000, 0)))];
    assert!(eval_condition(&c, &later, &[result("ok")]));
    assert!(!eval_condition(&c, &earlier, &[result("ok")]));
    assert!(eval_condition(&c, &earlier, &[result("error")]));
    let bad = Condition::FileChanged { path: "a".to_string(), since: "not a date".to_string() };
    assert!(!eval_condition(&bad, &later, &[]));
}

#[test]
fn grep_condition_reads_earlier_results() {
    let grep = StepResult {
        index: 0,
        step_type: StepTypeResult::Grep {
            pattern: "x".to_string(),
            matches: vec![GrepMatch { path: "p".to_string(), line: 1, text: "x".to_string() }],
        },
        status: "ok".to_string(),
        duration_ms: 1,
        stopped_pipeline: None,
    };
    assert!(eval_condition(&Condition::GrepHasResults { ref_: 0 }, &[], &[grep]));
}

#[test]
fn run_state_stops_after_failure_and_skips() {
    let mut s = RunState::new();
    s.record(result("ok"), true);
    s.record(result("error"), true);
    assert!(s.stopped);
    s.skip(2);
    let skipped = &s.results[2];
    assert_eq!(skipped.status, "skipped");
    assert_eq!(skipped.stopped_pipeline, Some(true));
    match &skipped.step_type {
        StepTypeResult::Bash { stderr, exit_code, .. } => {
            assert_eq!(stderr, "Skipped due to previous error");
            assert_eq!(*exit_code, -1);
        }
        _ => panic!("expected bash"),
    }
    let out = s.finish(3, 42);
    assert_eq!(out.status, "partial");
    assert_eq!(out.steps_total, 3);
    assert_eq!(out.steps_ok, 1);
    assert_eq!(out.steps_failed, 1);
    assert_eq!(out.results.len(), 3);
}

#[test]
fn run_state_all_ok() {
    let mut s = RunState::new();
    s.record(result("ok"), false);
    s.record(result("ok"), false);
    let out = s.finish(2, 1);
    assert_eq!(out.status, "ok");
}

#[test]
fn failures_without_stop_continue() {
    let mut s = RunState::new();
    s.record(result("error"), false);
    assert!(!s.stopped);
    s.record(result("ok"), false);
    assert_eq!(s.finish(2, 0).status, "partial");
}

#[test]
fn composite_results() {
    assert_eq!(composite_status_of(&vec![result("ok"), result("ok")]), "ok");
    assert_eq!(composite_status_of(&vec![result("ok"), result("error")]), "partial");
    assert_eq!(composite_status_of(&vec![]), "ok");
    let r = if_result(4, false, vec![result("ok")], 9);
    assert_eq!(r.index, 4);
    match &r.step_type {
        StepTypeResult::If { branch, condition_met, .. } => {
            assert_eq!(branch, "else");
            assert!(!condition_met);
        }
        _ => panic!("expected if"),
    }
    let r = each_result(1, vec!["a".to_string()], vec![result("error")], 2);
    assert_eq!(r.status, "partial");
}

#[test]
fn each_items_from_list_or_reference() {
    let over = EachOver::List(vec!["a".to_string(), "b".to_string()]);
    assert_eq!(each_items(&over, &[]), vec!["a".to_string(), "b".to_string()]);
    let each = StepResult {
        index: 0,
        step_type: StepTypeResult::Extract {
            path: "p".to_string(),
            data: Json::Object(vec![(
                "names".to_string(),
                Json::Array(vec![Json::string("x"), Json::integer(3), Json::string("y")]),
            )]),
        },
        status: "ok".to_string(),
        duration_ms: 1,
        stopped_pipeline: None,
    };
    let over = EachOver::Ref(EachRef { ref_: 0, pick: "names".to_string() });
    assert_eq!(each_items(&over, &[each]), vec!["x".to_string(), "y".to_string()]);
    let over = EachOver::Ref(EachRef { ref_: 5, pick: "*".to_string() });
    assert!(each_items(&over, &[]).is_empty());
}
