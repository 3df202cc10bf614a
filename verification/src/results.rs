//! What steps produce, and how results are written as JSON.
//!
//! The JSON form follows the wire format: step results are objects with the
//! step's kind under `"type"`, the kind's own fields, and the record fields
//! `index`, `status`, `durationMs` and (when set) `stoppedPipeline`.
use crate::json::{
    entries_map, int_view, json_view, json_views, lemma_entries_append, lemma_views_push, Json,
    JsonView,
};
use crate::schema::{FileContent, FileSummary, GrepMatch, LintError, Options, Step};
use crate::text::owned;
use vstd::prelude::*;

verus! {

/// The record of one executed step.
#[derive(Debug)]
pub struct StepResult {
    pub index: usize,
    pub step_type: StepTypeResult,
    pub status: String,
    pub duration_ms: u64,
    pub stopped_pipeline: Option<bool>,
}

/// What each kind of step reports.
#[derive(Debug)]
pub enum StepTypeResult {
    Bash { cmd: String, stdout: String, stderr: String, exit_code: i32 },
    Read { path: String, files: Vec<FileContent>, files_filtered: usize, filter_reason: Option<String> },
    Write { path: String, diff: Option<String> },
    Patch { path: String, edits_applied: usize, diff: Option<String> },
    Mv { from: String, to: String },
    Cp { from: String, to: String },
    Rm { path: String },
    Mkdir { path: String },
    Grep { pattern: String, matches: Vec<GrepMatch> },
    Replace {
        pattern: String,
        replacement: String,
        files_scanned: usize,
        files_modified: usize,
        total_replacements: usize,
    },
    Scan {
        path: String,
        stack: Vec<String>,
        entry_points: Vec<String>,
        file_count: usize,
        tree: Vec<(String, Vec<String>)>,
        exports: Vec<(String, Vec<String>)>,
        imports_graph: Vec<(String, Vec<String>)>,
    },
    Summarize { path: String, summary: FileSummary },
    Extract { path: String, data: Json },
    Diff {
        a: String,
        b: String,
        added: usize,
        removed: usize,
        changed_sections: Vec<String>,
        is_identical: bool,
        unified_diff: Option<String>,
    },
    Lint { errors_count: usize, warnings_count: usize, errors: Vec<LintError> },
    Template { output: String, rendered: bool },
    Snapshot { path: String, id: String, archived: bool },
    Restore { id: String, restored: bool },
    Git { op: String, output: Json },
    Http { method: String, url: String, status: u16, body: Option<String> },
    Import { path: String, added: Vec<String>, removed: Vec<String>, organized: bool },
    If { condition_met: bool, branch: String, results: Vec<StepResult> },
    Each { items: Vec<String>, results: Vec<StepResult> },
    Parallel { results: Vec<StepResult> },
}

/// The outcome of a whole run.
#[derive(Debug)]
pub struct Output {
    pub status: String,
    pub steps_total: usize,
    pub steps_ok: usize,
    pub steps_failed: usize,
    pub duration_ms: u64,
    pub results: Vec<StepResult>,
}

/// A pipeline as submitted: descriptive fields, options, properties and the
/// steps to run.
#[derive(Debug)]
pub struct Payload {
    pub name: Option<String>,
    pub description: Option<String>,
    pub version: Option<String>,
    pub author: Option<String>,
    pub options: Options,
    pub props: Vec<(String, Json)>,
    pub steps: Vec<Step>,
}

/// The name each kind of result goes by.
pub open spec fn result_kind(t: StepTypeResult) -> Seq<char> {
    match t {
        StepTypeResult::Bash { .. } => "bash"@,
        StepTypeResult::Read { .. } => "read"@,
        StepTypeResult::Write { .. } => "write"@,
        StepTypeResult::Patch { .. } => "patch"@,
        StepTypeResult::Mv { .. } => "mv"@,
        StepTypeResult::Cp { .. } => "cp"@,
        StepTypeResult::Rm { .. } => "rm"@,
        StepTypeResult::Mkdir { .. } => "mkdir"@,
        StepTypeResult::Grep { .. } => "grep"@,
        StepTypeResult::Replace { .. } => "replace"@,
        StepTypeResult::Scan { .. } => "scan"@,
        StepTypeResult::Summarize { .. } => "summarize"@,
        StepTypeResult::Extract { .. } => "extract"@,
        StepTypeResult::Diff { .. } => "diff"@,
        StepTypeResult::Lint { .. } => "lint"@,
        StepTypeResult::Template { .. } => "template"@,
        StepTypeResult::Snapshot { .. } => "snapshot"@,
        StepTypeResult::Restore { .. } => "restore"@,
        StepTypeResult::Git { .. } => "git"@,
        StepTypeResult::Http { .. } => "http"@,
        StepTypeResult::Import { .. } => "import"@,
        StepTypeResult::If { .. } => "if"@,
        StepTypeResult::Each { .. } => "each"@,
        StepTypeResult::Parallel { .. } => "parallel"@,
    }
}

impl StepTypeResult {
    /// The name of this kind of result.
    pub fn step_type_name(&self) -> (r: &'static str)
        ensures
            r@ == result_kind(*self),
    {
        match self {
            StepTypeResult::Bash { .. } => "bash",
            StepTypeResult::Read { .. } => "read",
            StepTypeResult::Write { .. } => "write",
            StepTypeResult::Patch { .. } => "patch",
            StepTypeResult::Mv { .. } => "mv",
            StepTypeResult::Cp { .. } => "cp",
            StepTypeResult::Rm { .. } => "rm",
            StepTypeResult::Mkdir { .. } => "mkdir",
            StepTypeResult::Grep { .. } => "grep",
            StepTypeResult::Replace { .. } => "replace",
            StepTypeResult::Scan { .. } => "scan",
            StepTypeResult::Summarize { .. } => "summarize",
            StepTypeResult::Extract { .. } => "extract",
            StepTypeResult::Diff { .. } => "diff",
            StepTypeResult::Lint { .. } => "lint",
            StepTypeResult::Template { .. } => "template",
            StepTypeResult::Snapshot { .. } => "snapshot",
            StepTypeResult::Restore { .. } => "restore",
            StepTypeResult::Git { .. } => "git",
            StepTypeResult::Http { .. } => "http",
            StepTypeResult::Import { .. } => "import",
            StepTypeResult::If { .. } => "if",
            StepTypeResult::Each { .. } => "each",
            StepTypeResult::Parallel { .. } => "parallel",
        }
    }
}

// ---------------------------------------------------------------------------
// the JSON form
// ---------------------------------------------------------------------------

/// A string, or `null` when absent.
pub open spec fn opt_str_json(o: Option<String>) -> JsonView {
    match o {
        Some(s) => JsonView::Str(s@),
        None => JsonView::Null,
    }
}

/// A count, as an integer from zero up.
pub open spec fn count_json(n: usize) -> JsonView {
    JsonView::PosInt(n as u64)
}

/// A list of strings.
pub open spec fn strs_json(v: Seq<String>) -> JsonView {
    JsonView::Array(v.map_values(|s: String| JsonView::Str(s@)))
}

/// A map from names to lists of strings; of two entries with one name, the
/// first is kept.
pub open spec fn groups_map(g: Seq<(String, Vec<String>)>) -> Map<Seq<char>, JsonView>
    decreases g.len(),
{
    if g.len() == 0 {
        Map::empty()
    } else {
        groups_map(g.subrange(1, g.len() as int)).insert(g[0].0@, strs_json(g[0].1@))
    }
}

pub open spec fn file_content_json(f: FileContent) -> JsonView {
    JsonView::Object(map!["content"@ => JsonView::Str(f.content@), "path"@ => JsonView::Str(f.path@)])
}

pub open spec fn grep_match_json(m: GrepMatch) -> JsonView {
    JsonView::Object(
        map![
            "line"@ => count_json(m.line),
            "path"@ => JsonView::Str(m.path@),
            "text"@ => JsonView::Str(m.text@),
        ],
    )
}

pub open spec fn file_summary_json(s: FileSummary) -> JsonView {
    JsonView::Object(
        map![
            "exports"@ => strs_json(s.exports@),
            "functions"@ => strs_json(s.functions@),
            "imports"@ => strs_json(s.imports@),
            "lastModified"@ => JsonView::Str(s.last_modified@),
            "lineCount"@ => count_json(s.line_count),
            "typesUsed"@ => strs_json(s.types_used@),
        ],
    )
}

pub open spec fn lint_error_json(e: LintError) -> JsonView {
    JsonView::Object(
        map![
            "file"@ => JsonView::Str(e.file@),
            "line"@ => count_json(e.line),
            "message"@ => JsonView::Str(e.message@),
            "rule"@ => JsonView::Str(e.rule@),
            "severity"@ => JsonView::Str(e.severity@),
        ],
    )
}

pub open spec fn files_json(v: Seq<FileContent>) -> JsonView {
    JsonView::Array(v.map_values(|f: FileContent| file_content_json(f)))
}

pub open spec fn matches_json(v: Seq<GrepMatch>) -> JsonView {
    JsonView::Array(v.map_values(|m: GrepMatch| grep_match_json(m)))
}

pub open spec fn lint_errors_json(v: Seq<LintError>) -> JsonView {
    JsonView::Array(v.map_values(|e: LintError| lint_error_json(e)))
}

/// The fields each kind of result contributes to its record.
pub open spec fn type_fields(t: StepTypeResult) -> Map<Seq<char>, JsonView>
    decreases t,
{
    match t {
        StepTypeResult::Bash { cmd, stdout, stderr, exit_code } => map![
            "cmd"@ => JsonView::Str(cmd@),
            "stdout"@ => JsonView::Str(stdout@),
            "stderr"@ => JsonView::Str(stderr@),
            "exit_code"@ => int_view(exit_code as i64),
        ],
        StepTypeResult::Read { path, files, files_filtered, filter_reason } => map![
            "path"@ => JsonView::Str(path@),
            "files"@ => files_json(files@),
            "files_filtered"@ => count_json(files_filtered),
            "filter_reason"@ => opt_str_json(filter_reason),
        ],
        StepTypeResult::Write { path, diff } => map![
            "path"@ => JsonView::Str(path@),
            "diff"@ => opt_str_json(diff),
        ],
        StepTypeResult::Patch { path, edits_applied, diff } => map![
            "path"@ => JsonView::Str(path@),
            "edits_applied"@ => count_json(edits_applied),
            "diff"@ => opt_str_json(diff),
        ],
        StepTypeResult::Mv { from, to } => map![
            "from"@ => JsonView::Str(from@),
            "to"@ => JsonView::Str(to@),
        ],
        StepTypeResult::Cp { from, to } => map![
            "from"@ => JsonView::Str(from@),
            "to"@ => JsonView::Str(to@),
        ],
        StepTypeResult::Rm { path } => map!["path"@ => JsonView::Str(path@)],
        StepTypeResult::Mkdir { path } => map!["path"@ => JsonView::Str(path@)],
        StepTypeResult::Grep { pattern, matches } => map![
            "pattern"@ => JsonView::Str(pattern@),
            "matches"@ => matches_json(matches@),
        ],
        StepTypeResult::Replace {
            pattern,
            replacement,
            files_scanned,
            files_modified,
            total_replacements,
        } => map![
            "pattern"@ => JsonView::Str(pattern@),
            "replacement"@ => JsonView::Str(replacement@),
            "files_scanned"@ => count_json(files_scanned),
            "files_modified"@ => count_json(files_modified),
            "total_replacements"@ => count_json(total_replacements),
        ],
        StepTypeResult::Scan {
            path,
            stack,
            entry_points,
            file_count,
            tree,
            exports,
            imports_graph,
        } => map![
            "path"@ => JsonView::Str(path@),
            "stack"@ => strs_json(stack@),
            "entry_points"@ => strs_json(entry_points@),
            "file_count"@ => count_json(file_count),
            "tree"@ => JsonView::Object(groups_map(tree@)),
            "exports"@ => JsonView::Object(groups_map(exports@)),
            "imports_graph"@ => JsonView::Object(groups_map(imports_graph@)),
        ],
        StepTypeResult::Summarize { path, summary } => map![
            "path"@ => JsonView::Str(path@),
            "summary"@ => file_summary_json(summary),
        ],
        StepTypeResult::Extract { path, data } => map![
            "path"@ => JsonView::Str(path@),
            "data"@ => json_view(data),
        ],
        StepTypeResult::Diff {
            a,
            b,
            added,
            removed,
            changed_sections,
            is_identical,
            unified_diff,
        } => map![
            "a"@ => JsonView::Str(a@),
            "b"@ => JsonView::Str(b@),
            "added"@ => count_json(added),
            "removed"@ => count_json(removed),
            "changed_sections"@ => strs_json(changed_sections@),
            "is_identical"@ => JsonView::Bool(is_identical),
            "unified_diff"@ => opt_str_json(unified_diff),
        ],
        StepTypeResult::Lint { errors_count, warnings_count, errors } => map![
            "errors_count"@ => count_json(errors_count),
            "warnings_count"@ => count_json(warnings_count),
            "errors"@ => lint_errors_json(errors@),
        ],
        StepTypeResult::Template { output, rendered } => map![
            "output"@ => JsonView::Str(output@),
            "rendered"@ => JsonView::Bool(rendered),
        ],
        StepTypeResult::Snapshot { path, id, archived } => map![
            "path"@ => JsonView::Str(path@),
            "id"@ => JsonView::Str(id@),
            "archived"@ => JsonView::Bool(archived),
        ],
        StepTypeResult::Restore { id, restored } => map![
            "id"@ => JsonView::Str(id@),
            "restored"@ => JsonView::Bool(restored),
        ],
        StepTypeResult::Git { op, output } => map![
            "op"@ => JsonView::Str(op@),
            "output"@ => json_view(output),
        ],
        StepTypeResult::Http { method, url, status, body } => map![
            "method"@ => JsonView::Str(method@),
            "url"@ => JsonView::Str(url@),
            "status"@ => JsonView::PosInt(status as u64),
            "body"@ => opt_str_json(body),
        ],
        StepTypeResult::Import { path, added, removed, organized } => map![
            "path"@ => JsonView::Str(path@),
            "added"@ => strs_json(added@),
            "removed"@ => strs_json(removed@),
            "organized"@ => JsonView::Bool(organized),
        ],
        StepTypeResult::If { condition_met, branch, results } => map![
            "condition_met"@ => JsonView::Bool(condition_met),
            "branch"@ => JsonView::Str(branch@),
            "results"@ => JsonView::Array(results_json(results@)),
        ],
        StepTypeResult::Each { items, results } => map![
            "items"@ => strs_json(items@),
            "results"@ => JsonView::Array(results_json(results@)),
        ],
        StepTypeResult::Parallel { results } => map![
            "results"@ => JsonView::Array(results_json(results@)),
        ],
    }
}

/// The JSON record of a step result.  The record's own `status` is written
/// after the kind's fields, so it is the one an `http` result shows.
pub open spec fn step_result_json(r: StepResult) -> JsonView
    decreases r,
{
    let base = type_fields(r.step_type).insert("type"@, JsonView::Str(result_kind(r.step_type)));
    let with_record = base.insert("index"@, count_json(r.index)).insert(
        "status"@,
        JsonView::Str(r.status@),
    ).insert("durationMs"@, JsonView::PosInt(r.duration_ms));
    JsonView::Object(
        match r.stopped_pipeline {
            Some(b) => with_record.insert("stoppedPipeline"@, JsonView::Bool(b)),
            None => with_record,
        },
    )
}

/// The JSON records of a sequence of step results.
pub open spec fn results_json(s: Seq<StepResult>) -> Seq<JsonView>
    decreases s,
{
    if s.len() == 0 {
        Seq::empty()
    } else {
        seq![step_result_json(s[0])] + results_json(s.subrange(1, s.len() as int))
    }
}

// ---------------------------------------------------------------------------
// writing the JSON form
// ---------------------------------------------------------------------------

proof fn lemma_results_json_push(s: Seq<StepResult>, x: StepResult)
    ensures
        results_json(s.push(x)) == results_json(s).push(step_result_json(x)),
    decreases s.len(),
{
    let t = s.push(x);
    assert(t[0] == if s.len() == 0 { x } else { s[0] });
    if s.len() == 0 {
        assert(t.subrange(1, t.len() as int) =~= Seq::<StepResult>::empty());
        assert(results_json(t.subrange(1, t.len() as int)) == Seq::<JsonView>::empty());
        assert(results_json(t) =~= seq![step_result_json(x)]);
        assert(results_json(s) == Seq::<JsonView>::empty());
    } else {
        let s1 = s.subrange(1, s.len() as int);
        assert(t.subrange(1, t.len() as int) =~= s1.push(x));
        lemma_results_json_push(s1, x);
        assert(results_json(t) == seq![step_result_json(s[0])] + results_json(s1.push(x)));
        assert(results_json(s) == seq![step_result_json(s[0])] + results_json(s1));
        assert(results_json(t) =~= results_json(s).push(step_result_json(x)));
    }
}

proof fn lemma_groups_entries(out: Seq<(String, Json)>, g: Seq<(String, Vec<String>)>)
    requires
        out.len() == g.len(),
        forall|j: int|
            0 <= j < g.len() ==> out[j].0@ == g[j].0@ && json_view(#[trigger] out[j].1)
                == strs_json(g[j].1@),
    ensures
        entries_map(out) == groups_map(g),
    decreases g.len(),
{
    if g.len() > 0 {
        let o1 = out.subrange(1, out.len() as int);
        let g1 = g.subrange(1, g.len() as int);
        assert forall|j: int| 0 <= j < g1.len() implies o1[j].0@ == g1[j].0@ && json_view(
            #[trigger] o1[j].1,
        ) == strs_json(g1[j].1@) by {
            assert(o1[j] == out[j + 1]);
            assert(g1[j] == g[j + 1]);
        }
        lemma_groups_entries(o1, g1);
        assert(json_view(out[0].1) == strs_json(g[0].1@));
    }
}

/// A string value.
fn str_to_json(s: &String) -> (r: Json)
    ensures
        r@ == JsonView::Str(s@),
{
    Json::Str(s.clone())
}

/// A string, or `null`.
fn opt_str_to_json(o: &Option<String>) -> (r: Json)
    ensures
        r@ == opt_str_json(*o),
{
    match o {
        Some(s) => Json::Str(s.clone()),
        None => Json::Null,
    }
}

/// A count.
fn count_to_json(n: usize) -> (r: Json)
    ensures
        r@ == count_json(n),
{
    Json::PosInt(n as u64)
}

/// A list of strings as a JSON array.
pub fn strs_to_json(v: &Vec<String>) -> (r: Json)
    ensures
        r@ == strs_json(v@),
{
    let mut out: Vec<Json> = Vec::new();
    let mut i: usize = 0;
    while i < v.len()
        invariant
            i <= v.len(),
            json_views(out@) == v@.take(i as int).map_values(|s: String| JsonView::Str(s@)),
        decreases v.len() - i,
    {
        let x = str_to_json(&v[i]);
        proof {
            lemma_views_push(out@, x);
            assert(v@.take(i + 1).map_values(|s: String| JsonView::Str(s@)) =~= v@.take(
                i as int,
            ).map_values(|s: String| JsonView::Str(s@)).push(JsonView::Str(v@[i as int]@)));
        }
        out.push(x);
        i = i + 1;
    }
    assert(v@.take(v.len() as int) =~= v@);
    Json::Array(out)
}

/// Named lists of strings as a JSON object.
fn groups_to_json(g: &Vec<(String, Vec<String>)>) -> (r: Json)
    ensures
        r@ == JsonView::Object(groups_map(g@)),
{
    let mut out: Vec<(String, Json)> = Vec::new();
    let mut i: usize = 0;
    while i < g.len()
        invariant
            i <= g.len(),
            out@.len() == i,
            forall|j: int|
                0 <= j < i ==> out@[j].0@ == g@[j].0@ && json_view(#[trigger] out@[j].1)
                    == strs_json(g@[j].1@),
        decreases g.len() - i,
    {
        let k = g[i].0.clone();
        let x = strs_to_json(&g[i].1);
        out.push((k, x));
        i = i + 1;
    }
    proof {
        lemma_groups_entries(out@, g@);
    }
    Json::Object(out)
}

impl FileContent {
    pub fn to_json(&self) -> (r: Json)
        ensures
            r@ == file_content_json(*self),
    {
        let mut e: Vec<(String, Json)> = Vec::new();
        crate::json::obj_insert(&mut e, "content", str_to_json(&self.content));
        crate::json::obj_insert(&mut e, "path", str_to_json(&self.path));
        Json::Object(e)
    }
}

impl GrepMatch {
    pub fn to_json(&self) -> (r: Json)
        ensures
            r@ == grep_match_json(*self),
    {
        let mut e: Vec<(String, Json)> = Vec::new();
        crate::json::obj_insert(&mut e, "line", count_to_json(self.line));
        crate::json::obj_insert(&mut e, "path", str_to_json(&self.path));
        crate::json::obj_insert(&mut e, "text", str_to_json(&self.text));
        Json::Object(e)
    }
}

impl FileSummary {
    pub fn to_json(&self) -> (r: Json)
        ensures
            r@ == file_summary_json(*self),
    {
        let mut e: Vec<(String, Json)> = Vec::new();
        crate::json::obj_insert(&mut e, "exports", strs_to_json(&self.exports));
        crate::json::obj_insert(&mut e, "functions", strs_to_json(&self.functions));
        crate::json::obj_insert(&mut e, "imports", strs_to_json(&self.imports));
        crate::json::obj_insert(&mut e, "lastModified", str_to_json(&self.last_modified));
        crate::json::obj_insert(&mut e, "lineCount", count_to_json(self.line_count));
        crate::json::obj_insert(&mut e, "typesUsed", strs_to_json(&self.types_used));
        Json::Object(e)
    }
}

impl LintError {
    pub fn to_json(&self) -> (r: Json)
        ensures
            r@ == lint_error_json(*self),
    {
        let mut e: Vec<(String, Json)> = Vec::new();
        crate::json::obj_insert(&mut e, "file", str_to_json(&self.file));
        crate::json::obj_insert(&mut e, "line", count_to_json(self.line));
        crate::json::obj_insert(&mut e, "message", str_to_json(&self.message));
        crate::json::obj_insert(&mut e, "rule", str_to_json(&self.rule));
        crate::json::obj_insert(&mut e, "severity", str_to_json(&self.severity));
        Json::Object(e)
    }
}

/// Files read as a JSON array.
pub fn files_to_json(v: &Vec<FileContent>) -> (r: Json)
    ensures
        r@ == files_json(v@),
{
    let mut out: Vec<Json> = Vec::new();
    let mut i: usize = 0;
    while i < v.len()
        invariant
            i <= v.len(),
            json_views(out@) == v@.take(i as int).map_values(|f: FileContent| file_content_json(f)),
        decreases v.len() - i,
    {
        let x = v[i].to_json();
        proof {
            lemma_views_push(out@, x);
            assert(v@.take(i + 1).map_values(|f: FileContent| file_content_json(f)) =~= v@.take(
                i as int,
            ).map_values(|f: FileContent| file_content_json(f)).push(file_content_json(v@[i as int])));
        }
        out.push(x);
        i = i + 1;
    }
    assert(v@.take(v.len() as int) =~= v@);
    Json::Array(out)
}

/// Matched lines as a JSON array.
pub fn matches_to_json(v: &Vec<GrepMatch>) -> (r: Json)
    ensures
        r@ == matches_json(v@),
{
    let mut out: Vec<Json> = Vec::new();
    let mut i: usize = 0;
    while i < v.len()
        invariant
            i <= v.len(),
            json_views(out@) == v@.take(i as int).map_values(|m: GrepMatch| grep_match_json(m)),
        decreases v.len() - i,
    {
        let x = v[i].to_json();
        proof {
            lemma_views_push(out@, x);
            assert(v@.take(i + 1).map_values(|m: GrepMatch| grep_match_json(m)) =~= v@.take(
                i as int,
            ).map_values(|m: GrepMatch| grep_match_json(m)).push(grep_match_json(v@[i as int])));
        }
        out.push(x);
        i = i + 1;
    }
    assert(v@.take(v.len() as int) =~= v@);
    Json::Array(out)
}

/// Lint diagnostics as a JSON array.
pub fn lint_errors_to_json(v: &Vec<LintError>) -> (r: Json)
    ensures
        r@ == lint_errors_json(v@),
{
    let mut out: Vec<Json> = Vec::new();
    let mut i: usize = 0;
    while i < v.len()
        invariant
            i <= v.len(),
            json_views(out@) == v@.take(i as int).map_values(|e: LintError| lint_error_json(e)),
        decreases v.len() - i,
    {
        let x = v[i].to_json();
        proof {
            lemma_views_push(out@, x);
            assert(v@.take(i + 1).map_values(|e: LintError| lint_error_json(e)) =~= v@.take(
                i as int,
            ).map_values(|e: LintError| lint_error_json(e)).push(lint_error_json(v@[i as int])));
        }
        out.push(x);
        i = i + 1;
    }
    assert(v@.take(v.len() as int) =~= v@);
    Json::Array(out)
}

/// Step results as a JSON array of records.
pub fn results_to_json(v: &Vec<StepResult>) -> (r: Json)
    ensures
        r@ == JsonView::Array(results_json(v@)),
    decreases v,
{
    let mut out: Vec<Json> = Vec::new();
    let mut i: usize = 0;
    while i < v.len()
        invariant
            i <= v.len(),
            json_views(out@) == results_json(v@.take(i as int)),
        decreases v.len() - i,
    {
        proof {
            vstd::std_specs::vec::axiom_vec_index_decreases(*v, i as int);
        }
        let x = v[i].to_json();
        proof {
            lemma_views_push(out@, x);
            lemma_results_json_push(v@.take(i as int), v@[i as int]);
            assert(v@.take(i + 1) =~= v@.take(i as int).push(v@[i as int]));
        }
        out.push(x);
        i = i + 1;
    }
    assert(v@.take(v.len() as int) =~= v@);
    Json::Array(out)
}

impl StepTypeResult {
    /// The fields of this kind of result, as object entries.
    pub fn fields_to_json(&self) -> (e: Vec<(String, Json)>)
        ensures
            entries_map(e@) == type_fields(*self),
        decreases self,
    {
        let mut e: Vec<(String, Json)> = Vec::new();
        match self {
            StepTypeResult::Bash { cmd, stdout, stderr, exit_code } => {
                crate::json::obj_insert(&mut e, "cmd", str_to_json(cmd));
                crate::json::obj_insert(&mut e, "stdout", str_to_json(stdout));
                crate::json::obj_insert(&mut e, "stderr", str_to_json(stderr));
                crate::json::obj_insert(&mut e, "exit_code", Json::integer(*exit_code as i64));
            },
            StepTypeResult::Read { path, files, files_filtered, filter_reason } => {
                crate::json::obj_insert(&mut e, "path", str_to_json(path));
                crate::json::obj_insert(&mut e, "files", files_to_json(files));
                crate::json::obj_insert(&mut e, "files_filtered", count_to_json(*files_filtered));
                crate::json::obj_insert(&mut e, "filter_reason", opt_str_to_json(filter_reason));
            },
            StepTypeResult::Write { path, diff } => {
                crate::json::obj_insert(&mut e, "path", str_to_json(path));
                crate::json::obj_insert(&mut e, "diff", opt_str_to_json(diff));
            },
            StepTypeResult::Patch { path, edits_applied, diff } => {
                crate::json::obj_insert(&mut e, "path", str_to_json(path));
                crate::json::obj_insert(&mut e, "edits_applied", count_to_json(*edits_applied));
                crate::json::obj_insert(&mut e, "diff", opt_str_to_json(diff));
            },
            StepTypeResult::Mv { from, to } => {
                crate::json::obj_insert(&mut e, "from", str_to_json(from));
                crate::json::obj_insert(&mut e, "to", str_to_json(to));
            },
            StepTypeResult::Cp { from, to } => {
                crate::json::obj_insert(&mut e, "from", str_to_json(from));
                crate::json::obj_insert(&mut e, "to", str_to_json(to));
            },
            StepTypeResult::Rm { path } => {
                crate::json::obj_insert(&mut e, "path", str_to_json(path));
            },
            StepTypeResult::Mkdir { path } => {
                crate::json::obj_insert(&mut e, "path", str_to_json(path));
            },
            StepTypeResult::Grep { pattern, matches } => {
                crate::json::obj_insert(&mut e, "pattern", str_to_json(pattern));
                crate::json::obj_insert(&mut e, "matches", matches_to_json(matches));
            },
            StepTypeResult::Replace {
                pattern,
                replacement,
                files_scanned,
                files_modified,
                total_replacements,
            } => {
                crate::json::obj_insert(&mut e, "pattern", str_to_json(pattern));
                crate::json::obj_insert(&mut e, "replacement", str_to_json(replacement));
                crate::json::obj_insert(&mut e, "files_scanned", count_to_json(*files_scanned));
                crate::json::obj_insert(&mut e, "files_modified", count_to_json(*files_modified));
                crate::json::obj_insert(
                    &mut e,
                    "total_replacements",
                    count_to_json(*total_replacements),
                );
            },
            StepTypeResult::Scan {
                path,
                stack,
                entry_points,
                file_count,
                tree,
                exports,
                imports_graph,
            } => {
                crate::json::obj_insert(&mut e, "path", str_to_json(path));
                crate::json::obj_insert(&mut e, "stack", strs_to_json(stack));
                crate::json::obj_insert(&mut e, "entry_points", strs_to_json(entry_points));
                crate::json::obj_insert(&mut e, "file_count", count_to_json(*file_count));
                crate::json::obj_insert(&mut e, "tree", groups_to_json(tree));
                crate::json::obj_insert(&mut e, "exports", groups_to_json(exports));
                crate::json::obj_insert(&mut e, "imports_graph", groups_to_json(imports_graph));
            },
            StepTypeResult::Summarize { path, summary } => {
                crate::json::obj_insert(&mut e, "path", str_to_json(path));
                crate::json::obj_insert(&mut e, "summary", summary.to_json());
            },
            StepTypeResult::Extract { path, data } => {
                crate::json::obj_insert(&mut e, "path", str_to_json(path));
                crate::json::obj_insert(&mut e, "data", data.copy());
            },
            StepTypeResult::Diff {
                a,
                b,
                added,
                removed,
                changed_sections,
                is_identical,
                unified_diff,
            } => {
                crate::json::obj_insert(&mut e, "a", str_to_json(a));
                crate::json::obj_insert(&mut e, "b", str_to_json(b));
                crate::json::obj_insert(&mut e, "added", count_to_json(*added));
                crate::json::obj_insert(&mut e, "removed", count_to_json(*removed));
                crate::json::obj_insert(&mut e, "changed_sections", strs_to_json(changed_sections));
                crate::json::obj_insert(&mut e, "is_identical", Json::Bool(*is_identical));
                crate::json::obj_insert(&mut e, "unified_diff", opt_str_to_json(unified_diff));
            },
            StepTypeResult::Lint { errors_count, warnings_count, errors } => {
                crate::json::obj_insert(&mut e, "errors_count", count_to_json(*errors_count));
                crate::json::obj_insert(&mut e, "warnings_count", count_to_json(*warnings_count));
                crate::json::obj_insert(&mut e, "errors", lint_errors_to_json(errors));
            },
            StepTypeResult::Template { output, rendered } => {
                crate::json::obj_insert(&mut e, "output", str_to_json(output));
                crate::json::obj_insert(&mut e, "rendered", Json::Bool(*rendered));
            },
            StepTypeResult::Snapshot { path, id, archived } => {
                crate::json::obj_insert(&mut e, "path", str_to_json(path));
                crate::json::obj_insert(&mut e, "id", str_to_json(id));
                crate::json::obj_insert(&mut e, "archived", Json::Bool(*archived));
            },
            StepTypeResult::Restore { id, restored } => {
                crate::json::obj_insert(&mut e, "id", str_to_json(id));
                crate::json::obj_insert(&mut e, "restored", Json::Bool(*restored));
            },
            StepTypeResult::Git { op, output } => {
                crate::json::obj_insert(&mut e, "op", str_to_json(op));
                crate::json::obj_insert(&mut e, "output", output.copy());
            },
            StepTypeResult::Http { method, url, status, body } => {
                crate::json::obj_insert(&mut e, "method", str_to_json(method));
                crate::json::obj_insert(&mut e, "url", str_to_json(url));
                crate::json::obj_insert(&mut e, "status", Json::PosInt(*status as u64));
                crate::json::obj_insert(&mut e, "body", opt_str_to_json(body));
            },
            StepTypeResult::Import { path, added, removed, organized } => {
                crate::json::obj_insert(&mut e, "path", str_to_json(path));
                crate::json::obj_insert(&mut e, "added", strs_to_json(added));
                crate::json::obj_insert(&mut e, "removed", strs_to_json(removed));
                crate::json::obj_insert(&mut e, "organized", Json::Bool(*organized));
            },
            StepTypeResult::If { condition_met, branch, results } => {
                crate::json::obj_insert(&mut e, "condition_met", Json::Bool(*condition_met));
                crate::json::obj_insert(&mut e, "branch", str_to_json(branch));
                crate::json::obj_insert(&mut e, "results", results_to_json(results));
            },
            StepTypeResult::Each { items, results } => {
                crate::json::obj_insert(&mut e, "items", strs_to_json(items));
                crate::json::obj_insert(&mut e, "results", results_to_json(results));
            },
            StepTypeResult::Parallel { results } => {
                crate::json::obj_insert(&mut e, "results", results_to_json(results));
            },
        }
        e
    }
}

impl StepResult {
    /// The JSON record of this result.
    pub fn to_json(&self) -> (r: Json)
        ensures
            r@ == step_result_json(*self),
        decreases self,
    {
        let mut e = self.step_type.fields_to_json();
        crate::json::obj_insert(&mut e, "type", Json::string(self.step_type.step_type_name()));
        crate::json::obj_insert(&mut e, "index", count_to_json(self.index));
        crate::json::obj_insert(&mut e, "status", str_to_json(&self.status));
        crate::json::obj_insert(&mut e, "durationMs", Json::PosInt(self.duration_ms));
        match self.stopped_pipeline {
            Some(b) => {
                crate::json::obj_insert(&mut e, "stoppedPipeline", Json::Bool(b));
            },
            None => {},
        }
        Json::Object(e)
    }
}

/// The JSON record of a run: its status, counts, duration and results.
pub open spec fn output_json(o: Output) -> JsonView {
    JsonView::Object(
        map![
            "status"@ => JsonView::Str(o.status@),
            "stepsTotal"@ => count_json(o.steps_total),
            "stepsOk"@ => count_json(o.steps_ok),
            "stepsFailed"@ => count_json(o.steps_failed),
            "durationMs"@ => JsonView::PosInt(o.duration_ms),
            "results"@ => JsonView::Array(results_json(o.results@)),
        ],
    )
}

impl Output {
    /// The JSON record of this run.
    pub fn to_json(&self) -> (r: Json)
        ensures
            r@ == output_json(*self),
    {
        let mut e: Vec<(String, Json)> = Vec::new();
        assert(crate::json::entries_map(e@) =~= Map::<Seq<char>, JsonView>::empty());
        crate::json::obj_insert(&mut e, "status", str_to_json(&self.status));
        crate::json::obj_insert(&mut e, "stepsTotal", count_to_json(self.steps_total));
        crate::json::obj_insert(&mut e, "stepsOk", count_to_json(self.steps_ok));
        crate::json::obj_insert(&mut e, "stepsFailed", count_to_json(self.steps_failed));
        crate::json::obj_insert(&mut e, "durationMs", Json::PosInt(self.duration_ms));
        crate::json::obj_insert(&mut e, "results", results_to_json(&self.results));
        assert(crate::json::entries_map(e@) =~= map![
            "status"@ => JsonView::Str(self.status@),
            "stepsTotal"@ => count_json(self.steps_total),
            "stepsOk"@ => count_json(self.steps_ok),
            "stepsFailed"@ => count_json(self.steps_failed),
            "durationMs"@ => JsonView::PosInt(self.duration_ms),
            "results"@ => JsonView::Array(results_json(self.results@)),
        ]);
        Json::Object(e)
    }
}

} // verus!
