use rok::cache::size_unit;
use rok::error::ExitCode;
use rok::preview::{dry_run_header, dry_run_line};
use rok::runner::exit_code_for;
use rok::schema::{GitOp, Step};

fn s(x: &str) -> String {
    x.to_string()
}

#[test]
fn dry_run_lines() {
    assert_eq!(dry_run_header(3), "Dry run - would execute 3 steps:");
    let bash = Step::Bash { id: s(""), depends_on: vec![], cmd: s("echo hi"), timeout_ms: None, retry: None };
    assert_eq!(dry_run_line(0, &bash), Some(s("  0: bash echo hi")));
    let read = Step::Read {
        id: s(""),
        depends_on: vec![],
        path: s("src"),
        max_bytes: None,
        encoding: None,
        filter_imports: Some(s("react")),
        filter_exports: None,
        since: Some(s("2024-01-01")),
    };
    assert_eq!(dry_run_line(1, &read), Some(s("  1: read src import:react since:2024-01-01")));
    let mv = Step::Mv { id: s(""), depends_on: vec![], from: s("a"), to: s("b") };
    assert_eq!(dry_run_line(12, &mv), Some(s("  12: mv a → b")));
    let git = Step::Git { id: s(""), depends_on: vec![], op: GitOp::Commit, args: vec![] };
    assert_eq!(dry_run_line(2, &git), Some(s("  2: git Commit")));
    let imp = Step::Import { id: s(""), depends_on: vec![], path: s("a.ts"), add: vec![s("x")], remove: vec![], organize: true };
    assert_eq!(dry_run_line(3, &imp), Some(s("  3: import a.ts (add: 1, remove: 0, organize: true)")));
    let tpl = Step::Template {
        id: s(""),
        depends_on: vec![],
        name: s(""),
        builtin: s(""),
        source: s("t.txt"),
        output: s("o.txt"),
        vars: vec![],
    };
    assert_eq!(dry_run_line(4, &tpl), Some(s("  4: template t.txt -> o.txt")));
    let par = Step::Parallel { id: s(""), depends_on: vec![], steps: vec![mv] };
    assert_eq!(dry_run_line(5, &par), Some(s("  5: parallel (1 steps)")));
}

#[test]
fn exit_codes() {
    assert!(exit_code_for("ok") == ExitCode::Success);
    assert!(exit_code_for("partial") == ExitCode::Partial);
    assert_eq!(i32::from(exit_code_for("partial")), 1);
}

#[test]
fn size_units() {
    assert_eq!(size_unit(100), (1, "B"));
    assert_eq!(size_unit(1024), (1024, "KB"));
    assert_eq!(size_unit(1048576), (1048576, "MB"));
    assert_eq!(size_unit(1073741824), (1073741824, "GB"));
    assert_eq!(size_unit(1048575), (1024, "KB"));
}
