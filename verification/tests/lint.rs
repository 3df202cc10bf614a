use rok::lint::{
    detect_linter, effective_tool, lint_result, parse_biome_output, parse_clippy_output,
    parse_eslint_output, parse_ruff_output,
};
use rok::schema::LintTool;

fn names(v: &[&str]) -> Vec<String> {
    v.iter().map(|s| s.to_string()).collect()
}

#[test]
fn linter_detection_prefers_biome_then_eslint_then_ruff_then_clippy() {
    assert_eq!(detect_linter(&names(&["src", "Cargo.toml", "biome.jsonc"])), LintTool::Biome);
    assert_eq!(detect_linter(&names(&["eslint.config.js", "pyproject.toml"])), LintTool::Eslint);
    assert_eq!(detect_linter(&names(&["ruff.toml", "Cargo.toml"])), LintTool::Ruff);
    assert_eq!(detect_linter(&names(&["Cargo.toml"])), LintTool::Clippy);
    assert_eq!(detect_linter(&names(&["README.md"])), LintTool::Biome);
    assert_eq!(effective_tool(LintTool::Auto, LintTool::Ruff), LintTool::Ruff);
    assert_eq!(effective_tool(LintTool::Eslint, LintTool::Ruff), LintTool::Eslint);
}

#[test]
fn eslint_report() {
    let out = r#"[{"filePath":"/a.js","messages":[
        {"ruleId":"no-unused-vars","severity":2,"message":"x is unused","line":3,"filePath":"/a.js"},
        {"ruleId":null,"severity":1,"message":"style","line":7}
    ]}]"#;
    let (errors, warnings, list) = parse_eslint_output(Some(out));
    assert_eq!((errors, warnings), (1, 1));
    assert_eq!(list[0].file, "\"/a.js\"");
    assert_eq!(list[0].rule, "no-unused-vars");
    assert_eq!(list[0].line, 3);
    assert_eq!(list[0].severity, "error");
    assert_eq!(list[1].rule, "unknown");
    assert_eq!(list[1].file, "");
    assert_eq!(list[1].severity, "warning");
    assert_eq!(parse_eslint_output(Some("not json")).2.len(), 0);
    assert_eq!(parse_eslint_output(None).0, 0);
}

#[test]
fn biome_report() {
    let out = r#"{"diagnostics":[
        {"severity":"error","message":"bad","code":"lint/x","span":{"start":{"line":4}},"file_path":"f.ts"},
        {"severity":"info","message":"meh"}
    ]}"#;
    let (errors, warnings, list) = parse_biome_output(Some(out));
    assert_eq!((errors, warnings), (1, 1));
    assert_eq!(list[0].line, 4);
    assert_eq!(list[0].file, "\"f.ts\"");
    assert_eq!(list[1].rule, "unknown");
    assert_eq!(list[1].line, 0);
}

#[test]
fn ruff_report() {
    let out = r#"[{"filename":"a.py","violations":[
        {"code":"E501","message":"long","location":{"row":9}},
        {"code":"F401","message":"unused"}
    ]}]"#;
    let (errors, warnings, list) = parse_ruff_output(Some(out));
    assert_eq!((errors, warnings), (2, 0));
    assert_eq!(list[0].file, "a.py");
    assert_eq!(list[0].line, 9);
    assert_eq!(list[1].rule, "F401");
    assert_eq!(list[1].severity, "error");
}

#[test]
fn clippy_report() {
    let out = "{\"reason\":\"compiler-artifact\"}\n\
               {\"reason\":\"compiler-message\",\"span\":{\"file_name\":\"src/lib.rs\",\"line_start\":12},\"code\":\"clippy::x\",\"message\":\"msg\"}\n\
               garbage\n\
               {\"reason\":\"compiler-message\"}";
    let (errors, warnings, list) = parse_clippy_output(Some(out));
    assert_eq!((errors, warnings), (0, 1));
    assert_eq!(list[0].file, "\"src/lib.rs\"");
    assert_eq!(list[0].line, 12);
    assert_eq!(list[0].rule, "clippy::x");
}

#[test]
fn lint_step_fails_on_errors() {
    assert_eq!(lint_result(1, 0, vec![], 3).status, "error");
    assert_eq!(lint_result(0, 5, vec![], 3).status, "ok");
}
