//! Linting: which linter a project uses, and what a linter's report says.
//!
//! Running the linter is the caller's part; its report (standard output) is
//! read here.
use crate::json::{get_key, json_parse, json_text, opt_json, parse_json, json_to_string, Json, JsonView};
use crate::results::{StepResult, StepTypeResult};
use crate::schema::{LintError, LintTool};
use crate::text::{chars_of, lines_of, lines_spec, owned, same_text, string_of, vviews};
use vstd::prelude::*;

verus! {

// ---------------------------------------------------------------------------
// choosing a linter
// ---------------------------------------------------------------------------

/// Some name of the list is one of `names`.
pub open spec fn any_named(files: Seq<Seq<char>>, names: Seq<Seq<char>>) -> bool {
    exists|i: int, j: int| 0 <= i < files.len() && 0 <= j < names.len() && files[i] == names[j]
}

/// The linter a project's files call for: Biome, ESLint, Ruff or Clippy by
/// their configuration files, in that order of preference; Biome otherwise.
pub open spec fn detect_spec(files: Seq<Seq<char>>) -> LintTool {
    if any_named(files, seq!["biome.json"@, "biome.jsonc"@]) {
        LintTool::Biome
    } else if any_named(files, seq![".eslintrc.json"@, ".eslintrc.js"@, "eslint.config.js"@]) {
        LintTool::Eslint
    } else if any_named(files, seq!["pyproject.toml"@, "ruff.toml"@]) {
        LintTool::Ruff
    } else if any_named(files, seq!["Cargo.toml"@]) {
        LintTool::Clippy
    } else {
        LintTool::Biome
    }
}

/// Which linter a project's files call for, by the configuration files
/// among them: a Biome file wins; else an ESLint file gives ESLint; else a
/// Python project file gives Ruff; else a Cargo manifest gives Clippy; a
/// project with none of them is given Biome.
pub proof fn lemma_detect_linter(files: Seq<Seq<char>>)
    ensures
        files.contains("biome.json"@) || files.contains("biome.jsonc"@) ==> detect_spec(files)
            == LintTool::Biome,
        !files.contains("biome.json"@) && !files.contains("biome.jsonc"@) && (files.contains(
            ".eslintrc.json"@,
        ) || files.contains(".eslintrc.js"@) || files.contains("eslint.config.js"@)) ==> detect_spec(
            files,
        ) == LintTool::Eslint,
        !files.contains("biome.json"@) && !files.contains("biome.jsonc"@) && !files.contains(
            ".eslintrc.json"@,
        ) && !files.contains(".eslintrc.js"@) && !files.contains("eslint.config.js"@) && (
        files.contains("pyproject.toml"@) || files.contains("ruff.toml"@)) ==> detect_spec(files)
            == LintTool::Ruff,
        !files.contains("biome.json"@) && !files.contains("biome.jsonc"@) && !files.contains(
            ".eslintrc.json"@,
        ) && !files.contains(".eslintrc.js"@) && !files.contains("eslint.config.js"@)
            && !files.contains("pyproject.toml"@) && !files.contains("ruff.toml"@)
            && files.contains("Cargo.toml"@) ==> detect_spec(files) == LintTool::Clippy,
        !files.contains("biome.json"@) && !files.contains("biome.jsonc"@) && !files.contains(
            ".eslintrc.json"@,
        ) && !files.contains(".eslintrc.js"@) && !files.contains("eslint.config.js"@)
            && !files.contains("pyproject.toml"@) && !files.contains("ruff.toml"@)
            && !files.contains("Cargo.toml"@) ==> detect_spec(files) == LintTool::Biome,
{
    let b = seq!["biome.json"@, "biome.jsonc"@];
    let e = seq![".eslintrc.json"@, ".eslintrc.js"@, "eslint.config.js"@];
    let p = seq!["pyproject.toml"@, "ruff.toml"@];
    let c = seq!["Cargo.toml"@];
    assert forall|names: Seq<Seq<char>>|
        #![trigger any_named(files, names)]
        any_named(files, names) <==> exists|j: int| 0 <= j < names.len() && files.contains(names[j]) by {
        if any_named(files, names) {
            let (i, j) = choose|i: int, j: int| 0 <= i < files.len() && 0 <= j < names.len() && files[i] == names[j];
            assert(files.contains(names[j]));
        }
        if exists|j: int| 0 <= j < names.len() && files.contains(names[j]) {
            let j = choose|j: int| 0 <= j < names.len() && files.contains(names[j]);
            let i = choose|i: int| 0 <= i < files.len() && files[i] == names[j];
            assert(files[i] == names[j]);
        }
    }
    assert(any_named(files, b) <==> (files.contains(b[0]) || files.contains(b[1])));
    assert(any_named(files, e) <==> (files.contains(e[0]) || files.contains(e[1]) || files.contains(e[2])));
    assert(any_named(files, p) <==> (files.contains(p[0]) || files.contains(p[1])));
    assert(any_named(files, c) <==> files.contains(c[0]));
}

fn any_named_exec(files: &[String], names: &[&str]) -> (r: bool)
    ensures
        r == any_named(crate::text::views(files@), names@.map_values(|s: &str| s@)),
{
    let ghost fv = crate::text::views(files@);
    let ghost nv = names@.map_values(|s: &str| s@);
    let mut i: usize = 0;
    while i < files.len()
        invariant
            i <= files.len(),
            fv == crate::text::views(files@),
            nv == names@.map_values(|s: &str| s@),
            forall|a: int, b: int| 0 <= a < i && 0 <= b < nv.len() ==> fv[a] != nv[b],
        decreases files.len() - i,
    {
        let mut j: usize = 0;
        while j < names.len()
            invariant
                i < files.len(),
                j <= names.len(),
                fv == crate::text::views(files@),
                nv == names@.map_values(|s: &str| s@),
                forall|a: int, b: int| 0 <= a < i && 0 <= b < nv.len() ==> fv[a] != nv[b],
                forall|b: int| 0 <= b < j ==> fv[i as int] != nv[b],
            decreases names.len() - j,
        {
            if same_text(files[i].as_str(), names[j]) {
                assert(fv[i as int] == nv[j as int]);
                return true;
            }
            j = j + 1;
        }
        i = i + 1;
    }
    false
}

/// The linter to use given the names of the files near the project root
/// (to a depth of two).
pub fn detect_linter(files: &[String]) -> (r: LintTool)
    ensures
        r == detect_spec(crate::text::views(files@)),
{
    let b = ["biome.json", "biome.jsonc"];
    let e = [".eslintrc.json", ".eslintrc.js", "eslint.config.js"];
    let p = ["pyproject.toml", "ruff.toml"];
    let c = ["Cargo.toml"];
    let hb = any_named_exec(files, &b);
    assert(b@.map_values(|s: &str| s@) =~= seq!["biome.json"@, "biome.jsonc"@]);
    if hb {
        return LintTool::Biome;
    }
    let he = any_named_exec(files, &e);
    assert(e@.map_values(|s: &str| s@) =~= seq![".eslintrc.json"@, ".eslintrc.js"@, "eslint.config.js"@]);
    if he {
        return LintTool::Eslint;
    }
    let hp = any_named_exec(files, &p);
    assert(p@.map_values(|s: &str| s@) =~= seq!["pyproject.toml"@, "ruff.toml"@]);
    if hp {
        return LintTool::Ruff;
    }
    let hc = any_named_exec(files, &c);
    assert(c@.map_values(|s: &str| s@) =~= seq!["Cargo.toml"@]);
    if hc {
        return LintTool::Clippy;
    }
    LintTool::Biome
}

/// The linter a step runs: the one asked for, or the detected one for `Auto`.
pub fn effective_tool(tool: LintTool, detected: LintTool) -> (r: LintTool)
    ensures
        r == if tool == LintTool::Auto {
            detected
        } else {
            tool
        },
{
    match tool {
        LintTool::Auto => detected,
        _ => tool,
    }
}


// ---------------------------------------------------------------------------
// reading reports
// ---------------------------------------------------------------------------

/// A diagnostic by its fields: file, line, rule, message and severity.
pub open spec fn lint_view(e: LintError) -> (Seq<char>, usize, Seq<char>, Seq<char>, Seq<char>) {
    (e.file@, e.line, e.rule@, e.message@, e.severity@)
}

pub open spec fn lint_views(s: Seq<LintError>) -> Seq<(Seq<char>, usize, Seq<char>, Seq<char>, Seq<char>)> {
    s.map_values(|e: LintError| lint_view(e))
}

/// How many diagnostics have severity `sev`.
pub open spec fn count_sev(items: Seq<(Seq<char>, usize, Seq<char>, Seq<char>, Seq<char>)>, sev: Seq<char>) -> nat
    decreases items.len(),
{
    if items.len() == 0 {
        0
    } else {
        count_sev(items.drop_last(), sev) + if items.last().4 == sev {
            1nat
        } else {
            0nat
        }
    }
}

/// An optional reference's model.
pub open spec fn opt_ref(o: Option<&Json>) -> Option<JsonView> {
    match o {
        Some(j) => Some(j@),
        None => None,
    }
}

/// An integer from zero up, or `d`.
pub open spec fn u64_or(v: Option<JsonView>, d: u64) -> u64 {
    match v {
        Some(JsonView::PosInt(n)) => n,
        _ => d,
    }
}

/// A string, or `d`.
pub open spec fn str_or(v: Option<JsonView>, d: Seq<char>) -> Seq<char> {
    match v {
        Some(JsonView::Str(s)) => s,
        _ => d,
    }
}

/// The JSON text of a value, or nothing.
pub open spec fn text_or_empty(v: Option<JsonView>) -> Seq<char> {
    match v {
        Some(x) => json_text(x),
        None => Seq::empty(),
    }
}

/// The elements of an array, or none.
pub open spec fn items_of(v: Option<JsonView>) -> Seq<JsonView> {
    match v {
        Some(JsonView::Array(a)) => a,
        _ => Seq::empty(),
    }
}

/// The value under `k` of a value that may be missing.
pub open spec fn then_key(v: Option<JsonView>, k: Seq<char>) -> Option<JsonView> {
    match v {
        Some(x) => get_key(x, k),
        None => None,
    }
}

/// The value a report's text holds, if it is there and is JSON.
pub open spec fn report_json(out: Option<Seq<char>>) -> Option<JsonView> {
    match out {
        Some(t) => json_parse(t),
        None => None,
    }
}

fn u64_of(o: Option<&Json>, d: u64) -> (r: u64)
    ensures
        r == u64_or(opt_ref(o), d),
{
    match o {
        Some(Json::PosInt(n)) => *n,
        _ => d,
    }
}

fn str_of(o: Option<&Json>, d: &str) -> (r: String)
    ensures
        r@ == str_or(opt_ref(o), d@),
{
    match o {
        Some(Json::Str(s)) => s.clone(),
        _ => owned(d),
    }
}

fn text_of(o: Option<&Json>) -> (r: String)
    ensures
        r@ == text_or_empty(opt_ref(o)),
{
    match o {
        Some(v) => json_to_string(v),
        None => String::new(),
    }
}

fn array_items<'a>(o: Option<&'a Json>) -> (r: &'a [Json])
    ensures
        crate::json::json_views(r@) == items_of(opt_ref(o)),
{
    match o {
        Some(Json::Array(a)) => a.as_slice(),
        _ => {
            let e: &[Json] = &[];
            assert(e@ =~= Seq::<Json>::empty());
            e
        },
    }
}

fn key_of<'a>(o: Option<&'a Json>, k: &str) -> (r: Option<&'a Json>)
    ensures
        opt_ref(r) == then_key(opt_ref(o), k@),
{
    match o {
        Some(v) => v.get_key(k),
        None => None,
    }
}

/// Appends a diagnostic and counts it by severity.
fn push_item(list: &mut Vec<LintError>, errors: &mut usize, warnings: &mut usize, e: LintError)
    requires
        *old(errors) == count_sev(lint_views(old(list)@), "error"@),
        *old(warnings) == count_sev(lint_views(old(list)@), "warning"@),
        *old(errors) + *old(warnings) <= old(list)@.len(),
    ensures
        final(list)@ == old(list)@.push(e),
        *final(errors) == count_sev(lint_views(final(list)@), "error"@),
        *final(warnings) == count_sev(lint_views(final(list)@), "warning"@),
        *final(errors) + *final(warnings) <= final(list)@.len(),
{
    let ghost before = list@;
    let is_err = same_text(e.severity.as_str(), "error");
    let is_warn = same_text(e.severity.as_str(), "warning");
    list.push(e);
    assert(lint_views(list@).drop_last() =~= lint_views(before));
    proof {
        reveal_strlit("error");
        reveal_strlit("warning");
        assert("error"@.len() != "warning"@.len());
    }
    let n = list.len();
    assert(*errors + *warnings < n);
    if is_err {
        *errors = *errors + 1;
    } else if is_warn {
        *warnings = *warnings + 1;
    }
}

/// What an ESLint message says.
pub open spec fn eslint_item(m: JsonView) -> (Seq<char>, usize, Seq<char>, Seq<char>, Seq<char>) {
    (
        text_or_empty(get_key(m, "filePath"@)),
        u64_or(get_key(m, "line"@), 0) as usize,
        str_or(get_key(m, "ruleId"@), "unknown"@),
        str_or(get_key(m, "message"@), Seq::empty()),
        if u64_or(get_key(m, "severity"@), 0) >= 2 {
            "error"@
        } else {
            "warning"@
        },
    )
}

/// The messages of ESLint's per-file results, file after file.
pub open spec fn eslint_messages(files: Seq<JsonView>) -> Seq<JsonView>
    decreases files.len(),
{
    if files.len() == 0 {
        Seq::empty()
    } else {
        eslint_messages(files.drop_last()) + items_of(get_key(files.last(), "messages"@))
    }
}

/// The diagnostics of an ESLint report.
pub open spec fn eslint_report(out: Option<Seq<char>>) -> Seq<(Seq<char>, usize, Seq<char>, Seq<char>, Seq<char>)> {
    eslint_messages(items_of(report_json(out))).map_values(|m: JsonView| eslint_item(m))
}

fn eslint_item_exec(m: &Json) -> (e: LintError)
    ensures
        lint_view(e) == eslint_item(m@),
{
    let sev = u64_of(m.get_key("severity"), 0);
    let ln = u64_of(m.get_key("line"), 0);
    let line = ln as usize;
    let file = text_of(m.get_key("filePath"));
    let rule = str_of(m.get_key("ruleId"), "unknown");
    let message = str_of(m.get_key("message"), "");
    let severity = if sev >= 2 {
        owned("error")
    } else {
        owned("warning")
    };
    proof {
        reveal_strlit("");
    }
    LintError { file, line, rule, message, severity }
}

/// Reads ESLint's JSON report: the number of errors (severity 2) and of
/// warnings, and every message as a diagnostic.  No report, or one that is
/// not JSON, gives nothing.
pub fn parse_eslint_output(stdout: Option<&str>) -> (r: (usize, usize, Vec<LintError>))
    ensures
        lint_views(r.2@) == eslint_report(opt_text_ref(stdout)),
        r.0 == count_sev(lint_views(r.2@), "error"@),
        r.1 == count_sev(lint_views(r.2@), "warning"@),
{
    let mut list: Vec<LintError> = Vec::new();
    let mut errors: usize = 0;
    let mut warnings: usize = 0;
    let parsed = match stdout {
        Some(t) => parse_json(t),
        None => None,
    };
    let files = array_items(parsed.as_ref());
    let ghost fv = crate::json::json_views(files@);
    proof {
        crate::json::lemma_views_len(files@);
    }
    let mut i: usize = 0;
    while i < files.len()
        invariant
            i <= files.len(),
            fv == crate::json::json_views(files@),
            fv.len() == files@.len(),
            lint_views(list@) == eslint_messages(fv.take(i as int)).map_values(|m: JsonView| eslint_item(m)),
            errors == count_sev(lint_views(list@), "error"@),
            warnings == count_sev(lint_views(list@), "warning"@),
            errors + warnings <= list@.len(),
        decreases files.len() - i,
    {
        proof {
            crate::json::lemma_views_index(files@, i as int);
            assert(fv.take(i + 1).drop_last() =~= fv.take(i as int));
            assert(fv.take(i + 1).last() == fv[i as int]);
        }
        let msgs = array_items(files[i].get_key("messages"));
        let ghost mv = crate::json::json_views(msgs@);
        let ghost base = lint_views(list@);
        proof {
            crate::json::lemma_views_len(msgs@);
        }
        let mut j: usize = 0;
        while j < msgs.len()
            invariant
                j <= msgs.len(),
                mv == crate::json::json_views(msgs@),
                mv.len() == msgs@.len(),
                lint_views(list@) == base + mv.take(j as int).map_values(|m: JsonView| eslint_item(m)),
                errors == count_sev(lint_views(list@), "error"@),
                warnings == count_sev(lint_views(list@), "warning"@),
                errors + warnings <= list@.len(),
            decreases msgs.len() - j,
        {
            proof {
                crate::json::lemma_views_index(msgs@, j as int);
            }
            let e = eslint_item_exec(&msgs[j]);
            let ghost before = lint_views(list@);
            push_item(&mut list, &mut errors, &mut warnings, e);
            assert(lint_views(list@) =~= before.push(lint_view(e)));
            assert(mv.take(j + 1).map_values(|m: JsonView| eslint_item(m)) =~= mv.take(j as int).map_values(
                |m: JsonView| eslint_item(m),
            ).push(eslint_item(mv[j as int])));
            j = j + 1;
        }
        assert(mv.take(msgs.len() as int) =~= mv);
        assert(eslint_messages(fv.take(i + 1)).map_values(|m: JsonView| eslint_item(m)) =~= eslint_messages(
            fv.take(i as int),
        ).map_values(|m: JsonView| eslint_item(m)) + mv.map_values(|m: JsonView| eslint_item(m)));
        i = i + 1;
    }
    assert(fv.take(files.len() as int) =~= fv);
    (errors, warnings, list)
}

/// An optional string slice's characters.
pub open spec fn opt_text_ref(o: Option<&str>) -> Option<Seq<char>> {
    match o {
        Some(s) => Some(s@),
        None => None,
    }
}


/// What a Biome diagnostic says.
pub open spec fn biome_item(d: JsonView) -> (Seq<char>, usize, Seq<char>, Seq<char>, Seq<char>) {
    (
        text_or_empty(get_key(d, "file_path"@)),
        u64_or(then_key(then_key(get_key(d, "span"@), "start"@), "line"@), 0) as usize,
        str_or(get_key(d, "code"@), "unknown"@),
        str_or(get_key(d, "message"@), Seq::empty()),
        if str_or(get_key(d, "severity"@), "unknown"@) == "error"@ {
            "error"@
        } else {
            "warning"@
        },
    )
}

/// The diagnostics of a Biome report.
pub open spec fn biome_report(out: Option<Seq<char>>) -> Seq<(Seq<char>, usize, Seq<char>, Seq<char>, Seq<char>)> {
    items_of(then_key(report_json(out), "diagnostics"@)).map_values(|d: JsonView| biome_item(d))
}

fn biome_item_exec(d: &Json) -> (e: LintError)
    ensures
        lint_view(e) == biome_item(d@),
{
    let sev = str_of(d.get_key("severity"), "unknown");
    let ln = u64_of(key_of(key_of(d.get_key("span"), "start"), "line"), 0);
    let line = ln as usize;
    let file = text_of(d.get_key("file_path"));
    let rule = str_of(d.get_key("code"), "unknown");
    let message = str_of(d.get_key("message"), "");
    let severity = if same_text(sev.as_str(), "error") {
        owned("error")
    } else {
        owned("warning")
    };
    proof {
        reveal_strlit("");
    }
    LintError { file, line, rule, message, severity }
}

/// Reads Biome's JSON report: its diagnostics, those of severity `error`
/// counted as errors and the others as warnings.
pub fn parse_biome_output(stdout: Option<&str>) -> (r: (usize, usize, Vec<LintError>))
    ensures
        lint_views(r.2@) == biome_report(opt_text_ref(stdout)),
        r.0 == count_sev(lint_views(r.2@), "error"@),
        r.1 == count_sev(lint_views(r.2@), "warning"@),
{
    let mut list: Vec<LintError> = Vec::new();
    let mut errors: usize = 0;
    let mut warnings: usize = 0;
    let parsed = match stdout {
        Some(t) => parse_json(t),
        None => None,
    };
    let diags = array_items(key_of(parsed.as_ref(), "diagnostics"));
    let ghost dv = crate::json::json_views(diags@);
    proof {
        crate::json::lemma_views_len(diags@);
    }
    let mut j: usize = 0;
    while j < diags.len()
        invariant
            j <= diags.len(),
            dv == crate::json::json_views(diags@),
            dv.len() == diags@.len(),
            lint_views(list@) == dv.take(j as int).map_values(|d: JsonView| biome_item(d)),
            errors == count_sev(lint_views(list@), "error"@),
            warnings == count_sev(lint_views(list@), "warning"@),
            errors + warnings <= list@.len(),
        decreases diags.len() - j,
    {
        proof {
            crate::json::lemma_views_index(diags@, j as int);
        }
        let e = biome_item_exec(&diags[j]);
        let ghost before = lint_views(list@);
        push_item(&mut list, &mut errors, &mut warnings, e);
        assert(lint_views(list@) =~= before.push(lint_view(e)));
        assert(dv.take(j + 1).map_values(|d: JsonView| biome_item(d)) =~= dv.take(j as int).map_values(
            |d: JsonView| biome_item(d),
        ).push(biome_item(dv[j as int])));
        j = j + 1;
    }
    assert(dv.take(diags.len() as int) =~= dv);
    (errors, warnings, list)
}

/// What a Ruff violation in file `filename` says; all are errors.
pub open spec fn ruff_item(filename: Seq<char>, v: JsonView) -> (Seq<char>, usize, Seq<char>, Seq<char>, Seq<char>) {
    (
        filename,
        u64_or(then_key(get_key(v, "location"@), "row"@), 0) as usize,
        str_or(get_key(v, "code"@), Seq::empty()),
        str_or(get_key(v, "message"@), Seq::empty()),
        "error"@,
    )
}

/// The violations of Ruff's per-file results, file after file.
pub open spec fn ruff_items(items: Seq<JsonView>) -> Seq<(Seq<char>, usize, Seq<char>, Seq<char>, Seq<char>)>
    decreases items.len(),
{
    if items.len() == 0 {
        Seq::empty()
    } else {
        let it = items.last();
        let filename = str_or(get_key(it, "filename"@), Seq::empty());
        ruff_items(items.drop_last()) + items_of(get_key(it, "violations"@)).map_values(
            |v: JsonView| ruff_item(filename, v),
        )
    }
}

/// The diagnostics of a Ruff report.
pub open spec fn ruff_report(out: Option<Seq<char>>) -> Seq<(Seq<char>, usize, Seq<char>, Seq<char>, Seq<char>)> {
    ruff_items(items_of(report_json(out)))
}

/// Reads Ruff's JSON report: every violation is an error.
pub fn parse_ruff_output(stdout: Option<&str>) -> (r: (usize, usize, Vec<LintError>))
    ensures
        lint_views(r.2@) == ruff_report(opt_text_ref(stdout)),
        r.0 == count_sev(lint_views(r.2@), "error"@),
        r.1 == count_sev(lint_views(r.2@), "warning"@),
{
    let mut list: Vec<LintError> = Vec::new();
    let mut errors: usize = 0;
    let mut warnings: usize = 0;
    let parsed = match stdout {
        Some(t) => parse_json(t),
        None => None,
    };
    let items = array_items(parsed.as_ref());
    let ghost iv = crate::json::json_views(items@);
    proof {
        crate::json::lemma_views_len(items@);
        reveal_strlit("");
    }
    let mut i: usize = 0;
    while i < items.len()
        invariant
            i <= items.len(),
            iv == crate::json::json_views(items@),
            iv.len() == items@.len(),
            lint_views(list@) == ruff_items(iv.take(i as int)),
            errors == count_sev(lint_views(list@), "error"@),
            warnings == count_sev(lint_views(list@), "warning"@),
            errors + warnings <= list@.len(),
        decreases items.len() - i,
    {
        proof {
            crate::json::lemma_views_index(items@, i as int);
            assert(iv.take(i + 1).drop_last() =~= iv.take(i as int));
            assert(iv.take(i + 1).last() == iv[i as int]);
        }
        let filename = str_of(items[i].get_key("filename"), "");
        let vs = array_items(items[i].get_key("violations"));
        let ghost vv = crate::json::json_views(vs@);
        let ghost base = lint_views(list@);
        proof {
            crate::json::lemma_views_len(vs@);
        }
        let mut j: usize = 0;
        while j < vs.len()
            invariant
                j <= vs.len(),
                vv == crate::json::json_views(vs@),
                vv.len() == vs@.len(),
                lint_views(list@) == base + vv.take(j as int).map_values(
                    |v: JsonView| ruff_item(filename@, v),
                ),
                errors == count_sev(lint_views(list@), "error"@),
                warnings == count_sev(lint_views(list@), "warning"@),
                errors + warnings <= list@.len(),
            decreases vs.len() - j,
        {
            proof {
                crate::json::lemma_views_index(vs@, j as int);
                reveal_strlit("");
            }
            let v = &vs[j];
            let ln = u64_of(key_of(v.get_key("location"), "row"), 0);
            let e = LintError {
                file: filename.clone(),
                line: ln as usize,
                rule: str_of(v.get_key("code"), ""),
                message: str_of(v.get_key("message"), ""),
                severity: owned("error"),
            };
            assert(lint_view(e) == ruff_item(filename@, vv[j as int]));
            let ghost before = lint_views(list@);
            push_item(&mut list, &mut errors, &mut warnings, e);
            assert(lint_views(list@) =~= before.push(lint_view(e)));
            assert(vv.take(j + 1).map_values(|v: JsonView| ruff_item(filename@, v)) =~= vv.take(
                j as int,
            ).map_values(|v: JsonView| ruff_item(filename@, v)).push(ruff_item(filename@, vv[j as int])));
            j = j + 1;
        }
        assert(vv.take(vs.len() as int) =~= vv);
        proof {
            reveal_strlit("");
            assert(filename@ == str_or(get_key(iv[i as int], "filename"@), Seq::empty()));
            assert(vv == items_of(get_key(iv[i as int], "violations"@)));
            assert(ruff_items(iv.take(i + 1)) == ruff_items(iv.take(i as int)) + vv.map_values(
                |v: JsonView| ruff_item(filename@, v),
            ));
        }
        i = i + 1;
    }
    assert(iv.take(items.len() as int) =~= iv);
    (errors, warnings, list)
}

/// What one line of Clippy's message stream reports: a warning for a
/// compiler message with a span, nothing otherwise.
pub open spec fn clippy_line(l: Seq<char>) -> Seq<(Seq<char>, usize, Seq<char>, Seq<char>, Seq<char>)> {
    match json_parse(l) {
        Some(j) => if str_or(get_key(j, "reason"@), Seq::empty()) == "compiler-message"@ {
            match get_key(j, "span"@) {
                Some(span) => seq![
                    (
                        text_or_empty(get_key(span, "file_name"@)),
                        u64_or(get_key(span, "line_start"@), 0) as usize,
                        str_or(get_key(j, "code"@), Seq::empty()),
                        str_or(get_key(j, "message"@), Seq::empty()),
                        "warning"@,
                    ),
                ],
                None => Seq::empty(),
            }
        } else {
            Seq::empty()
        },
        None => Seq::empty(),
    }
}

pub open spec fn clippy_lines(ls: Seq<Seq<char>>) -> Seq<(Seq<char>, usize, Seq<char>, Seq<char>, Seq<char>)>
    decreases ls.len(),
{
    if ls.len() == 0 {
        Seq::empty()
    } else {
        clippy_lines(ls.drop_last()) + clippy_line(ls.last())
    }
}

/// The diagnostics of Clippy's message stream, line by line.
pub open spec fn clippy_report(out: Option<Seq<char>>) -> Seq<(Seq<char>, usize, Seq<char>, Seq<char>, Seq<char>)> {
    match out {
        Some(t) => clippy_lines(lines_spec(t)),
        None => Seq::empty(),
    }
}

/// Reads Clippy's JSON message stream: every compiler message with a span
/// is a warning.
pub fn parse_clippy_output(stdout: Option<&str>) -> (r: (usize, usize, Vec<LintError>))
    ensures
        lint_views(r.2@) == clippy_report(opt_text_ref(stdout)),
        r.0 == count_sev(lint_views(r.2@), "error"@),
        r.1 == count_sev(lint_views(r.2@), "warning"@),
{
    let mut list: Vec<LintError> = Vec::new();
    let mut errors: usize = 0;
    let mut warnings: usize = 0;
    match stdout {
        None => {
            return (errors, warnings, list);
        },
        Some(text) => {
            let cv = chars_of(text);
            let lines = lines_of(cv.as_slice());
            let ghost lv = vviews(lines@);
            proof {
                reveal_strlit("");
            }
            let mut i: usize = 0;
            while i < lines.len()
                invariant
                    i <= lines.len(),
                    lv == vviews(lines@),
                    lv == lines_spec(text@),
                    lint_views(list@) == clippy_lines(lv.take(i as int)),
                    errors == count_sev(lint_views(list@), "error"@),
                    warnings == count_sev(lint_views(list@), "warning"@),
                    errors + warnings <= list@.len(),
                decreases lines.len() - i,
            {
                assert(lv.take(i + 1).drop_last() =~= lv.take(i as int));
                assert(lv.take(i + 1).last() == lines@[i as int]@);
                let line = string_of(lines[i].as_slice());
                proof {
                    reveal_strlit("");
                }
                let ghost before = lint_views(list@);
                assert(line@ == lines@[i as int]@);
                let parsed = parse_json(line.as_str());
                match parsed {
                    Some(j) => {
                        assert(json_parse(lines@[i as int]@) == Some(j@));
                        let reason = str_of(j.get_key("reason"), "");
                        assert(reason@ == str_or(get_key(j@, "reason"@), Seq::empty()));
                        if same_text(reason.as_str(), "compiler-message") {
                            match j.get_key("span") {
                                Some(span) => {
                                    let ln = u64_of(span.get_key("line_start"), 0);
                                    let e = LintError {
                                        file: text_of(span.get_key("file_name")),
                                        line: ln as usize,
                                        rule: str_of(j.get_key("code"), ""),
                                        message: str_of(j.get_key("message"), ""),
                                        severity: owned("warning"),
                                    };
                                    assert(get_key(j@, "span"@) == Some(span@));
                                    assert(str_or(get_key(j@, "reason"@), Seq::empty()) == "compiler-message"@);
                                    assert(e.file@ == text_or_empty(get_key(span@, "file_name"@)));
                                    assert(e.line == u64_or(get_key(span@, "line_start"@), 0) as usize);
                                    assert(e.rule@ == str_or(get_key(j@, "code"@), Seq::empty()));
                                    assert(e.message@ == str_or(get_key(j@, "message"@), Seq::empty()));
                                    assert(e.severity@ == "warning"@);
                                    assert(clippy_line(lines@[i as int]@) == seq![lint_view(e)]);
                                    push_item(&mut list, &mut errors, &mut warnings, e);
                                    assert(lint_views(list@) =~= before.push(lint_view(e)));
                                    assert(lint_views(list@) =~= before + clippy_line(lines@[i as int]@));
                                },
                                None => {
                                    assert(clippy_line(lines@[i as int]@) =~= Seq::empty());
                                },
                            }
                        } else {
                            assert(clippy_line(lines@[i as int]@) =~= Seq::empty());
                        }
                    },
                    None => {
                        assert(clippy_line(lines@[i as int]@) =~= Seq::empty());
                    },
                }
                assert(lint_views(list@) =~= before + clippy_line(lines@[i as int]@));
                i = i + 1;
            }
            assert(lv.take(lines.len() as int) =~= lv);
        },
    }
    (errors, warnings, list)
}

/// The record of a `lint` step: failed when there are errors.
pub fn lint_result(errors: usize, warnings: usize, list: Vec<LintError>, duration_ms: u64) -> (r: StepResult)
    ensures
        r.index == 0,
        r.step_type matches StepTypeResult::Lint { errors_count, warnings_count, errors: l } && errors_count == errors && warnings_count == warnings && l == list,
        r.status@ == if errors > 0 { "error"@ } else { "ok"@ },
        r.duration_ms == duration_ms,
        r.stopped_pipeline is None,
{
    StepResult {
        index: 0,
        step_type: StepTypeResult::Lint { errors_count: errors, warnings_count: warnings, errors: list },
        status: if errors > 0 {
            owned("error")
        } else {
            owned("ok")
        },
        duration_ms,
        stopped_pipeline: None,
    }
}

} // verus!
