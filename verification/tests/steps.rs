use rok::boilerplate::{add_standard_imports, apply_boilerplate, format_comment, get_license_text};
use rok::json::Json;
use rok::results::StepTypeResult;
use rok::schema::{DiffFormat, GitOp, PatchEdit};
use rok::steps::{
    apply_edits, bash_result, diff_result, extract_data, filter_by_glob, summarize_content, git_command_args, git_result,
    http_result, http_verb, is_glob_path, patch_result, shell_command, snapshot_file, HttpVerb,
    ProcessOutcome,
};

#[test]
fn comments_per_language() {
    assert_eq!(format_comment("a\nb", "py"), "# a\n# b");
    assert_eq!(format_comment("one line", "rs"), "// one line");
    assert_eq!(format_comment("a\nb", "ts"), "/*\n * a\n * b\n */");
    assert_eq!(format_comment("x", "html"), "<!-- x -->");
    assert_eq!(format_comment("x", "scss"), "/* x */");
    assert_eq!(format_comment("a\nb", "sql"), "-- a\n-- b");
    assert_eq!(format_comment("plain", "txt"), "plain");
}

#[test]
fn licenses_by_name() {
    assert!(get_license_text("MIT").starts_with("MIT License"));
    assert!(get_license_text("Apache").starts_with("Apache License 2.0"));
    assert_eq!(get_license_text("My-Custom"), "my-custom");
}

#[test]
fn standard_imports() {
    let (c, added) = add_standard_imports("const [a] = useState(0);\nuseEffect(() => {});", "tsx");
    assert_eq!(added, vec!["useState".to_string(), "useEffect".to_string()]);
    assert_eq!(
        c,
        "import { useEffect } from 'react';\nimport { useState } from 'react';\nconst [a] = useState(0);\nuseEffect(() => {});"
    );
    let (c, added) = add_standard_imports("x: typing.List", "py");
    assert_eq!(added, vec!["typing".to_string()]);
    assert!(c.starts_with("from typing import List, Dict, Optional\n"));
    let (_, added) = add_standard_imports("use std::fmt; std::mem", "rs");
    assert!(added.is_empty());
}

#[test]
fn boilerplate_prepends_once() {
    let r = apply_boilerplate("fn main() {}", "rs", Some("Header"), Some("isc"), Some("#!/bin/sh"), false);
    assert!(r.shebang_added && r.header_added && r.license_added);
    assert_eq!(
        r.content,
        "/*\n * ISC License\n * \n * Copyright (c) 2024...\n */\n// Header\n#!/bin/sh\nfn main() {}"
    );
    let again = apply_boilerplate(&r.content, "rs", Some("Header"), None, Some("#!/bin/sh"), false);
    assert!(!again.header_added);
    assert_eq!(again.content, format!("#!/bin/sh\n{}", r.content));
}

#[test]
fn shell_commands() {
    let (p, a) = shell_command("ls -l", false);
    assert_eq!(p, "sh");
    assert_eq!(a, vec!["-c".to_string(), "ls -l".to_string()]);
    let (p, _) = shell_command("dir", true);
    assert_eq!(p, "cmd");
}

#[test]
fn bash_records() {
    let r = bash_result("echo hi", ProcessOutcome::Ran { stdout: "hi\n".into(), stderr: "".into(), exit_code: 0 }, 5);
    assert_eq!(r.status, "ok");
    let r = bash_result("false", ProcessOutcome::Ran { stdout: "".into(), stderr: "".into(), exit_code: 1 }, 5);
    assert_eq!(r.status, "error");
    let r = bash_result("nope", ProcessOutcome::Failed("not found".into()), 5);
    match r.step_type {
        StepTypeResult::Bash { exit_code, stderr, .. } => {
            assert_eq!(exit_code, -1);
            assert_eq!(stderr, "not found");
        }
        _ => panic!("expected bash"),
    }
}

#[test]
fn patch_edits() {
    let edits = vec![
        PatchEdit { find: "foo".into(), replace: "bar".into() },
        PatchEdit { find: "missing".into(), replace: "x".into() },
        PatchEdit { find: "bar bar".into(), replace: "baz".into() },
    ];
    let (c, n) = apply_edits("foo foo", &edits);
    assert_eq!(c, "baz");
    assert_eq!(n, 2);
    let r = patch_result("f.txt", "a\n", "b\n", 1, true, 3);
    match r.step_type {
        StepTypeResult::Patch { diff: Some(d), edits_applied, .. } => {
            assert_eq!(edits_applied, 1);
            assert!(d.contains("-a") && d.contains("+b"));
        }
        _ => panic!("expected patch"),
    }
}

#[test]
fn diff_records() {
    let r = diff_result("a.txt", "b.txt", "x\ny\nz\n", "x\nY\nz\nw\n", DiffFormat::Unified, 1).unwrap();
    match r.step_type {
        StepTypeResult::Diff { added, removed, changed_sections, is_identical, unified_diff, .. } => {
            assert_eq!(added, 2);
            assert_eq!(removed, 1);
            assert_eq!(changed_sections, vec!["line 0".to_string()]);
            assert!(!is_identical);
            assert!(unified_diff.unwrap().contains("+++ b.txt"));
        }
        _ => panic!("expected diff"),
    }
    let r = diff_result("a", "b", "same\n", "same\n", DiffFormat::Stat, 1).unwrap();
    match r.step_type {
        StepTypeResult::Diff { is_identical, changed_sections, unified_diff, .. } => {
            assert!(is_identical);
            assert!(changed_sections.is_empty());
            assert!(unified_diff.is_none());
        }
        _ => panic!("expected diff"),
    }
}

#[test]
fn git_commands_and_records() {
    assert_eq!(git_command_args(GitOp::Status, &["x".to_string()]), vec!["status".to_string(), "--porcelain".to_string()]);
    assert_eq!(git_command_args(GitOp::Add, &["a.rs".to_string()]), vec!["add".to_string(), "a.rs".to_string()]);
    let r = git_result(GitOp::Status, ProcessOutcome::Ran { stdout: "".into(), stderr: "".into(), exit_code: 0 }, 1);
    match &r.step_type {
        StepTypeResult::Git { op, output } => {
            assert_eq!(op, "status");
            assert!(matches!(output.get_key("clean"), Some(Json::Bool(true))));
        }
        _ => panic!("expected git"),
    }
    let r = git_result(GitOp::Log, ProcessOutcome::Ran { stdout: "c1\nc2\n".into(), stderr: "".into(), exit_code: 0 }, 1);
    match &r.step_type {
        StepTypeResult::Git { output, .. } => match output.get_key("commits") {
            Some(Json::Array(v)) => assert_eq!(v.len(), 2),
            _ => panic!("expected commits"),
        },
        _ => panic!("expected git"),
    }
    let r = git_result(GitOp::Commit, ProcessOutcome::Ran { stdout: "".into(), stderr: "nothing".into(), exit_code: 1 }, 1);
    assert_eq!(r.status, "error");
}

#[test]
fn http_verbs_and_records() {
    assert_eq!(http_verb("post"), HttpVerb::Post);
    assert_eq!(http_verb("Delete"), HttpVerb::Delete);
    assert_eq!(http_verb("OPTIONS"), HttpVerb::Get);
    assert_eq!(http_result("GET", "u", 200, Ok((200, None)), 1).status, "ok");
    assert_eq!(http_result("GET", "u", 200, Ok((404, None)), 1).status, "error");
    let r = http_result("GET", "u", 200, Err("timeout".into()), 1);
    match r.step_type {
        StepTypeResult::Http { status, body, .. } => {
            assert_eq!(status, 0);
            assert_eq!(body.as_deref(), Some("timeout"));
        }
        _ => panic!("expected http"),
    }
}

#[test]
fn snapshots_and_globs() {
    assert_eq!(snapshot_file("v1"), ".rok/snapshots/v1.tar.gz");
    assert!(is_glob_path("src/**/*.rs"));
    let paths = vec!["src/a.rs".to_string(), "src/b.txt".to_string(), "src/x/c.rs".to_string()];
    assert_eq!(
        filter_by_glob("src/**/*.rs", &paths),
        Some(vec!["src/a.rs".to_string(), "src/x/c.rs".to_string()])
    );
    assert_eq!(filter_by_glob("a[", &paths), None);
}

#[test]
fn deeply_nested_glob_is_answered_without_panic() {
    let deep = format!("{}*x{}", "{a,".repeat(300), "}".repeat(300));
    let paths = vec!["ax".to_string(), "b".to_string()];
    let r = filter_by_glob(&deep, &paths);
    if let Some(v) = r {
        assert!(v.len() <= paths.len());
    }
    assert_eq!(filter_by_glob("*.txt", &paths), Some(vec![]));
}

#[test]
fn extract_picks_paths_or_keeps_the_document() {
    let doc = Json::Object(vec![
        ("name".to_string(), Json::Str("rok".to_string())),
        ("meta".to_string(), Json::Object(vec![("v".to_string(), Json::PosInt(2))])),
    ]);
    match extract_data(&doc, &vec!["meta.v".to_string(), "nope".to_string()]) {
        Json::Object(es) => {
            assert_eq!(es.len(), 2);
            assert_eq!(es[0].0, "meta.v");
            assert!(matches!(es[0].1, Json::PosInt(2)));
            assert_eq!(es[1].0, "nope");
            assert!(matches!(es[1].1, Json::Null));
        }
        _ => panic!("expected an object"),
    }
    match extract_data(&doc, &vec![]) {
        Json::Object(es) => assert_eq!(es.len(), 2),
        _ => panic!("expected the document"),
    }
}

#[test]
fn summarize_classifies_trimmed_lines() {
    let text = "use std::fs;\n  pub fn run() {}\nlet x = 1;\r\nexport function go() {}\ndef f():\n";
    let s = summarize_content(text, "t".to_string());
    assert_eq!(s.imports, vec!["use std::fs;"]);
    assert_eq!(s.exports, vec!["pub fn run() {}", "export function go() {}"]);
    assert_eq!(s.functions, vec!["pub fn run() {}", "export function go() {}", "def f():"]);
    assert!(s.types_used.is_empty());
    assert_eq!(s.line_count, 5);
    assert_eq!(s.last_modified, "t");
}
