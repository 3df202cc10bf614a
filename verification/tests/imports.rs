use rok::imports::{
    import_positions_of, lang_for_extension, process_go, process_js_ts, process_python, process_rust,
    Lang,
};

fn s(v: &[&str]) -> Vec<String> {
    v.iter().map(|x| x.to_string()).collect()
}

#[test]
fn js_add_after_last_import() {
    let content = "import a from 'a';\nimport b from 'b';\n\nconst x = 1;";
    let order = import_positions_of(Lang::JsTs, content);
    assert_eq!(order, vec![0, 1]);
    let (out, added, removed) = process_js_ts(content, &s(&["{ c } from 'c';"]), &[], false, &order);
    assert_eq!(out, "import a from 'a';\nimport b from 'b';\nimport { c } from 'c';\n\nconst x = 1;");
    assert_eq!(added, vec!["import { c } from 'c';".to_string()]);
    assert!(removed.is_empty());
}

#[test]
fn js_skips_imports_already_present() {
    let content = "import a from 'a';\nlet y;";
    let order = import_positions_of(Lang::JsTs, content);
    let (out, added, _) = process_js_ts(content, &s(&["a from 'a'"]), &[], false, &order);
    assert_eq!(out, content);
    assert!(added.is_empty());
}

#[test]
fn js_without_imports_adds_before_first_nonblank_line() {
    let content = "\n\nconst x = 1;";
    let order = import_positions_of(Lang::JsTs, content);
    assert!(order.is_empty());
    let (out, added, _) =
        process_js_ts(content, &s(&["a from 'a';", "export { b };"]), &[], false, &order);
    assert_eq!(out, "\n\nexport { b };\nimport a from 'a';\nconst x = 1;");
    assert_eq!(added, s(&["import a from 'a';", "export { b };"]));
}

#[test]
fn js_remove_and_organize() {
    let content = "import z from 'z';\nimport { local } from './local';\nimport a from \"a\";\nfoo();";
    let order = import_positions_of(Lang::JsTs, content);
    let (out, _, removed) = process_js_ts(content, &[], &s(&["missing"]), true, &order);
    assert!(removed.is_empty());
    assert_eq!(
        out,
        "import a from \"a\";\nimport z from 'z';\nimport { local } from './local';\nfoo();"
    );
}

#[test]
fn first_removal_follows_the_walk_order() {
    let content = "import x1;\nimport x2;\ncode";
    let (out, _, removed) = process_js_ts(content, &[], &s(&["x"]), false, &[1, 0]);
    assert_eq!(removed, s(&["import x2;"]));
    assert_eq!(out, "import x1;\ncode");
    let (out, _, removed) = process_js_ts(content, &[], &s(&["x"]), false, &[0, 1]);
    assert_eq!(removed, s(&["import x1;"]));
    assert_eq!(out, "import x2;\ncode");
}

#[test]
fn python_remove_then_add() {
    let content = "import os\nimport sys\nfrom typing import List\n\nprint(1)";
    let order = import_positions_of(Lang::Python, content);
    let (out, added, removed) =
        process_python(content, &s(&["json", "from re import sub"]), &s(&["sys"]), false, &order);
    assert_eq!(removed, s(&["import sys"]));
    assert_eq!(added, s(&["import json", "from re import sub"]));
    assert_eq!(
        out,
        "import os\nfrom typing import List\nimport json\nfrom re import sub\n\nprint(1)"
    );
}

#[test]
fn python_organize_sorts_imports_to_top() {
    let content = "import sys\nx = 1\nimport abc";
    let order = import_positions_of(Lang::Python, content);
    let (out, _, _) = process_python(content, &[], &[], true, &order);
    assert_eq!(out, "import abc\nimport sys\nx = 1");
}

#[test]
fn rust_add_use() {
    let content = "use std::fmt;\n\nfn main() {}";
    let order = import_positions_of(Lang::Rust, content);
    let (out, added, _) =
        process_rust(content, &s(&["std::io", "pub use crate::x;"]), &[], false, &order);
    assert_eq!(added, s(&["use std::io", "pub use crate::x;"]));
    assert_eq!(out, "use std::fmt;\nuse std::io\npub use crate::x;\n\nfn main() {}");
}

#[test]
fn go_adds_inside_import_block() {
    let content = "package main\n\nimport (\n\t\"fmt\"\n)\n\nfunc main() {}";
    let order = import_positions_of(Lang::Go, content);
    assert_eq!(order, vec![3]);
    let (out, added, _) = process_go(content, &s(&["os", "io"]), &[], false, &order);
    assert_eq!(added, s(&["\t\"os\"", "\t\"io\""]));
    assert_eq!(
        out,
        "package main\n\nimport (\n\t\"fmt\"\n\t\"io\"\n\t\"os\"\n)\n\nfunc main() {}"
    );
}

#[test]
fn language_by_extension() {
    assert_eq!(lang_for_extension("tsx"), Some(Lang::JsTs));
    assert_eq!(lang_for_extension("cjs"), Some(Lang::JsTs));
    assert_eq!(lang_for_extension("py"), Some(Lang::Python));
    assert_eq!(lang_for_extension("rs"), Some(Lang::Rust));
    assert_eq!(lang_for_extension("go"), Some(Lang::Go));
    assert_eq!(lang_for_extension("txt"), None);
}
