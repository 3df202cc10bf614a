//! The JSON text of a run's record as it goes out: every record object lists
//! its fields in the order the record declares them, a step result first
//! its `index`, then its kind under `"type"` and the kind's own fields, then
//! `status`, `durationMs` and (when set) `stoppedPipeline`.  Values that are
//! JSON in their own right (what an `extract` or `git` step reports) and the
//! single values inside a record are written by serde_json.
use crate::json::{int_view, json_text, json_to_string, Json, JsonView};
use crate::results::{
    count_json, opt_str_json, result_kind, strs_json, strs_to_json, Output, StepResult,
    StepTypeResult,
};
use crate::schema::{FileContent, FileSummary, GrepMatch, LintError};
use crate::text::{join_spec, join_strings, owned, push_str, views};
use vstd::prelude::*;

verus! {

// ---------------------------------------------------------------------------
// the shape of the text
// ---------------------------------------------------------------------------

/// A single value, as serde_json writes it.
pub open spec fn leaf(v: JsonView) -> Seq<char> {
    json_text(v)
}

/// `"key":value`.
pub open spec fn field(k: Seq<char>, v: Seq<char>) -> Seq<char> {
    json_text(JsonView::Str(k)) + ":"@ + v
}

/// An object of the fields `fs`, in order.
pub open spec fn obj_text(fs: Seq<Seq<char>>) -> Seq<char> {
    "{"@ + join_spec(fs, ","@) + "}"@
}

/// An array of the items `xs`, in order.
pub open spec fn arr_text(xs: Seq<Seq<char>>) -> Seq<char> {
    "["@ + join_spec(xs, ","@) + "]"@
}

/// A string field.
pub open spec fn str_field(k: Seq<char>, s: String) -> Seq<char> {
    field(k, leaf(JsonView::Str(s@)))
}

/// A count field.
pub open spec fn count_field(k: Seq<char>, n: usize) -> Seq<char> {
    field(k, leaf(count_json(n)))
}

pub open spec fn file_text(f: FileContent) -> Seq<char> {
    obj_text(seq![str_field("path"@, f.path), str_field("content"@, f.content)])
}

pub open spec fn match_text(m: GrepMatch) -> Seq<char> {
    obj_text(seq![str_field("path"@, m.path), count_field("line"@, m.line), str_field("text"@, m.text)])
}

pub open spec fn summary_text(s: FileSummary) -> Seq<char> {
    obj_text(
        seq![
            field("imports"@, leaf(strs_json(s.imports@))),
            field("exports"@, leaf(strs_json(s.exports@))),
            field("functions"@, leaf(strs_json(s.functions@))),
            field("typesUsed"@, leaf(strs_json(s.types_used@))),
            count_field("lineCount"@, s.line_count),
            str_field("lastModified"@, s.last_modified),
        ],
    )
}

pub open spec fn lint_error_text(e: LintError) -> Seq<char> {
    obj_text(
        seq![
            str_field("file"@, e.file),
            count_field("line"@, e.line),
            str_field("rule"@, e.rule),
            str_field("message"@, e.message),
            str_field("severity"@, e.severity),
        ],
    )
}

/// Named lists of strings, as an object with one field per entry in order.
pub open spec fn groups_text(g: Seq<(String, Vec<String>)>) -> Seq<char> {
    obj_text(g.map_values(|e: (String, Vec<String>)| field(e.0@, leaf(strs_json(e.1@)))))
}

/// The fields a kind of result contributes, in declaration order.
pub open spec fn kind_fields(t: StepTypeResult) -> Seq<Seq<char>>
    decreases t,
{
    match t {
        StepTypeResult::Bash { cmd, stdout, stderr, exit_code } => seq![
            str_field("cmd"@, cmd),
            str_field("stdout"@, stdout),
            str_field("stderr"@, stderr),
            field("exit_code"@, leaf(int_view(exit_code as i64))),
        ],
        StepTypeResult::Read { path, files, files_filtered, filter_reason } => seq![
            str_field("path"@, path),
            field("files"@, arr_text(files@.map_values(|f: FileContent| file_text(f)))),
            count_field("files_filtered"@, files_filtered),
            field("filter_reason"@, leaf(opt_str_json(filter_reason))),
        ],
        StepTypeResult::Write { path, diff } => seq![
            str_field("path"@, path),
            field("diff"@, leaf(opt_str_json(diff))),
        ],
        StepTypeResult::Patch { path, edits_applied, diff } => seq![
            str_field("path"@, path),
            count_field("edits_applied"@, edits_applied),
            field("diff"@, leaf(opt_str_json(diff))),
        ],
        StepTypeResult::Mv { from, to } => seq![str_field("from"@, from), str_field("to"@, to)],
        StepTypeResult::Cp { from, to } => seq![str_field("from"@, from), str_field("to"@, to)],
        StepTypeResult::Rm { path } => seq![str_field("path"@, path)],
        StepTypeResult::Mkdir { path } => seq![str_field("path"@, path)],
        StepTypeResult::Grep { pattern, matches } => seq![
            str_field("pattern"@, pattern),
            field("matches"@, arr_text(matches@.map_values(|m: GrepMatch| match_text(m)))),
        ],
        StepTypeResult::Replace {
            pattern,
            replacement,
            files_scanned,
            files_modified,
            total_replacements,
        } => seq![
            str_field("pattern"@, pattern),
            str_field("replacement"@, replacement),
            count_field("files_scanned"@, files_scanned),
            count_field("files_modified"@, files_modified),
            count_field("total_replacements"@, total_replacements),
        ],
        StepTypeResult::Scan {
            path,
            stack,
            entry_points,
            file_count,
            tree,
            exports,
            imports_graph,
        } => seq![
            str_field("path"@, path),
            field("stack"@, leaf(strs_json(stack@))),
            field("entry_points"@, leaf(strs_json(entry_points@))),
            count_field("file_count"@, file_count),
            field("tree"@, groups_text(tree@)),
            field("exports"@, groups_text(exports@)),
            field("imports_graph"@, groups_text(imports_graph@)),
        ],
        StepTypeResult::Summarize { path, summary } => seq![
            str_field("path"@, path),
            field("summary"@, summary_text(summary)),
        ],
        StepTypeResult::Extract { path, data } => seq![str_field("path"@, path), field("data"@, leaf(data@))],
        StepTypeResult::Diff {
            a,
            b,
            added,
            removed,
            changed_sections,
            is_identical,
            unified_diff,
        } => seq![
            str_field("a"@, a),
            str_field("b"@, b),
            count_field("added"@, added),
            count_field("removed"@, removed),
            field("changed_sections"@, leaf(strs_json(changed_sections@))),
            field("is_identical"@, leaf(JsonView::Bool(is_identical))),
            field("unified_diff"@, leaf(opt_str_json(unified_diff))),
        ],
        StepTypeResult::Lint { errors_count, warnings_count, errors } => seq![
            count_field("errors_count"@, errors_count),
            count_field("warnings_count"@, warnings_count),
            field("errors"@, arr_text(errors@.map_values(|e: LintError| lint_error_text(e)))),
        ],
        StepTypeResult::Template { output, rendered } => seq![
            str_field("output"@, output),
            field("rendered"@, leaf(JsonView::Bool(rendered))),
        ],
        StepTypeResult::Snapshot { path, id, archived } => seq![
            str_field("path"@, path),
            str_field("id"@, id),
            field("archived"@, leaf(JsonView::Bool(archived))),
        ],
        StepTypeResult::Restore { id, restored } => seq![
            str_field("id"@, id),
            field("restored"@, leaf(JsonView::Bool(restored))),
        ],
        StepTypeResult::Git { op, output } => seq![str_field("op"@, op), field("output"@, leaf(output@))],
        StepTypeResult::Http { method, url, status, body } => seq![
            str_field("method"@, method),
            str_field("url"@, url),
            field("status"@, leaf(JsonView::PosInt(status as u64))),
            field("body"@, leaf(opt_str_json(body))),
        ],
        StepTypeResult::Import { path, added, removed, organized } => seq![
            str_field("path"@, path),
            field("added"@, leaf(strs_json(added@))),
            field("removed"@, leaf(strs_json(removed@))),
            field("organized"@, leaf(JsonView::Bool(organized))),
        ],
        StepTypeResult::If { condition_met, branch, results } => seq![
            field("condition_met"@, leaf(JsonView::Bool(condition_met))),
            str_field("branch"@, branch),
            field("results"@, arr_text(result_texts(results@))),
        ],
        StepTypeResult::Each { items, results } => seq![
            field("items"@, leaf(strs_json(items@))),
            field("results"@, arr_text(result_texts(results@))),
        ],
        StepTypeResult::Parallel { results } => seq![field("results"@, arr_text(result_texts(results@)))],
    }
}

/// The record fields a step result starts with: `index` and `type`.
pub open spec fn record_head(r: StepResult) -> Seq<Seq<char>> {
    seq![count_field("index"@, r.index), field("type"@, leaf(JsonView::Str(result_kind(r.step_type))))]
}

/// The record fields a step result ends with: `status`, `durationMs` and,
/// when set, `stoppedPipeline`.
pub open spec fn record_tail(r: StepResult) -> Seq<Seq<char>> {
    seq![
        str_field("status"@, r.status),
        field("durationMs"@, leaf(JsonView::PosInt(r.duration_ms))),
    ] + match r.stopped_pipeline {
        Some(b) => seq![field("stoppedPipeline"@, leaf(JsonView::Bool(b)))],
        None => Seq::empty(),
    }
}

/// The text of a step result's record: its head, the kind's fields and its
/// tail, in that order.  An `http` result thus has two `status` fields, its
/// own and the record's.
pub open spec fn result_text(r: StepResult) -> Seq<char>
    decreases r,
{
    obj_text(record_head(r) + kind_fields(r.step_type) + record_tail(r))
}

/// The texts of a sequence of step results.
pub open spec fn result_texts(s: Seq<StepResult>) -> Seq<Seq<char>>
    decreases s,
{
    if s.len() == 0 {
        Seq::empty()
    } else {
        seq![result_text(s[0])] + result_texts(s.subrange(1, s.len() as int))
    }
}

/// The text of a run's record: `status`, `stepsTotal`, `stepsOk`,
/// `stepsFailed`, `durationMs`, `results`.
pub open spec fn output_text(o: Output) -> Seq<char> {
    obj_text(
        seq![
            str_field("status"@, o.status),
            count_field("stepsTotal"@, o.steps_total),
            count_field("stepsOk"@, o.steps_ok),
            count_field("stepsFailed"@, o.steps_failed),
            field("durationMs"@, leaf(JsonView::PosInt(o.duration_ms))),
            field("results"@, arr_text(result_texts(o.results@))),
        ],
    )
}

// ---------------------------------------------------------------------------
// writing it
// ---------------------------------------------------------------------------

proof fn lemma_result_texts_push(s: Seq<StepResult>, x: StepResult)
    ensures
        result_texts(s.push(x)) == result_texts(s).push(result_text(x)),
    decreases s.len(),
{
    let t = s.push(x);
    assert(t[0] == if s.len() == 0 { x } else { s[0] });
    if s.len() == 0 {
        assert(t.subrange(1, t.len() as int) =~= Seq::<StepResult>::empty());
        assert(result_texts(t.subrange(1, t.len() as int)) == Seq::<Seq<char>>::empty());
        assert(result_texts(s) == Seq::<Seq<char>>::empty());
        assert(result_texts(t) =~= result_texts(s).push(result_text(x)));
    } else {
        let s1 = s.subrange(1, s.len() as int);
        assert(t.subrange(1, t.len() as int) =~= s1.push(x));
        lemma_result_texts_push(s1, x);
        assert(t[0] == s[0]);
        assert(result_texts(t) =~= result_texts(s).push(result_text(x)));
    }
}

/// A single value's text.
fn leaf_text(v: &Json) -> (r: String)
    ensures
        r@ == leaf(v@),
{
    json_to_string(v)
}

/// `"key":` followed by `value`.
fn field_of(k: &str, value: &str) -> (r: String)
    ensures
        r@ == field(k@, value@),
{
    let mut r = leaf_text(&Json::string(k));
    push_str(&mut r, ":");
    push_str(&mut r, value);
    r
}

/// `"key":` followed by the text of a single value.
fn leaf_field(k: &str, v: Json) -> (r: String)
    ensures
        r@ == field(k@, leaf(v@)),
{
    let t = leaf_text(&v);
    field_of(k, t.as_str())
}

fn string_field(k: &str, s: &String) -> (r: String)
    ensures
        r@ == str_field(k@, *s),
{
    leaf_field(k, Json::Str(s.clone()))
}

fn number_field(k: &str, n: usize) -> (r: String)
    ensures
        r@ == count_field(k@, n),
{
    leaf_field(k, Json::PosInt(n as u64))
}

fn opt_field(k: &str, o: &Option<String>) -> (r: String)
    ensures
        r@ == field(k@, leaf(opt_str_json(*o))),
{
    let v = match o {
        Some(s) => Json::Str(s.clone()),
        None => Json::Null,
    };
    leaf_field(k, v)
}

fn strs_field(k: &str, v: &Vec<String>) -> (r: String)
    ensures
        r@ == field(k@, leaf(strs_json(v@))),
{
    leaf_field(k, strs_to_json(v))
}

/// The object of the field texts `fs`.
fn obj_of(fs: &Vec<String>) -> (r: String)
    ensures
        r@ == obj_text(views(fs@)),
{
    let mut r = owned("{");
    let j = join_strings(fs.as_slice(), ",");
    push_str(&mut r, j.as_str());
    push_str(&mut r, "}");
    r
}

/// The array of the item texts `xs`.
fn arr_of(xs: &Vec<String>) -> (r: String)
    ensures
        r@ == arr_text(views(xs@)),
{
    let mut r = owned("[");
    let j = join_strings(xs.as_slice(), ",");
    push_str(&mut r, j.as_str());
    push_str(&mut r, "]");
    r
}

fn file_of(f: &FileContent) -> (r: String)
    ensures
        r@ == file_text(*f),
{
    let fs = vec![string_field("path", &f.path), string_field("content", &f.content)];
    let r = obj_of(&fs);
    assert(views(fs@) =~= seq![str_field("path"@, f.path), str_field("content"@, f.content)]);
    r
}

fn match_of(m: &GrepMatch) -> (r: String)
    ensures
        r@ == match_text(*m),
{
    let fs = vec![string_field("path", &m.path), number_field("line", m.line), string_field("text", &m.text)];
    let r = obj_of(&fs);
    assert(views(fs@) =~= seq![str_field("path"@, m.path), count_field("line"@, m.line), str_field("text"@, m.text)]);
    r
}

fn summary_of(s: &FileSummary) -> (r: String)
    ensures
        r@ == summary_text(*s),
{
    let fs = vec![
        strs_field("imports", &s.imports),
        strs_field("exports", &s.exports),
        strs_field("functions", &s.functions),
        strs_field("typesUsed", &s.types_used),
        number_field("lineCount", s.line_count),
        string_field("lastModified", &s.last_modified),
    ];
    let r = obj_of(&fs);
    assert(views(fs@) =~= seq![
        field("imports"@, leaf(strs_json(s.imports@))),
        field("exports"@, leaf(strs_json(s.exports@))),
        field("functions"@, leaf(strs_json(s.functions@))),
        field("typesUsed"@, leaf(strs_json(s.types_used@))),
        count_field("lineCount"@, s.line_count),
        str_field("lastModified"@, s.last_modified),
    ]);
    r
}

fn lint_error_of(e: &LintError) -> (r: String)
    ensures
        r@ == lint_error_text(*e),
{
    let fs = vec![
        string_field("file", &e.file),
        number_field("line", e.line),
        string_field("rule", &e.rule),
        string_field("message", &e.message),
        string_field("severity", &e.severity),
    ];
    let r = obj_of(&fs);
    assert(views(fs@) =~= seq![
        str_field("file"@, e.file),
        count_field("line"@, e.line),
        str_field("rule"@, e.rule),
        str_field("message"@, e.message),
        str_field("severity"@, e.severity),
    ]);
    r
}

fn files_of(v: &Vec<FileContent>) -> (r: String)
    ensures
        r@ == arr_text(v@.map_values(|f: FileContent| file_text(f))),
{
    let mut xs: Vec<String> = Vec::new();
    let mut i: usize = 0;
    while i < v.len()
        invariant
            i <= v.len(),
            views(xs@) == v@.take(i as int).map_values(|f: FileContent| file_text(f)),
        decreases v.len() - i,
    {
        let ghost prev = xs@;
        let t = file_of(&v[i]);
        xs.push(t);
        assert(views(xs@) =~= views(prev).push(t@));
        assert(v@.take(i + 1).map_values(|f: FileContent| file_text(f)) =~= v@.take(i as int).map_values(
            |f: FileContent| file_text(f),
        ).push(file_text(v@[i as int])));
        i = i + 1;
    }
    assert(v@.take(v.len() as int) =~= v@);
    arr_of(&xs)
}

fn matches_of(v: &Vec<GrepMatch>) -> (r: String)
    ensures
        r@ == arr_text(v@.map_values(|m: GrepMatch| match_text(m))),
{
    let mut xs: Vec<String> = Vec::new();
    let mut i: usize = 0;
    while i < v.len()
        invariant
            i <= v.len(),
            views(xs@) == v@.take(i as int).map_values(|m: GrepMatch| match_text(m)),
        decreases v.len() - i,
    {
        let ghost prev = xs@;
        let t = match_of(&v[i]);
        xs.push(t);
        assert(views(xs@) =~= views(prev).push(t@));
        assert(v@.take(i + 1).map_values(|m: GrepMatch| match_text(m)) =~= v@.take(i as int).map_values(
            |m: GrepMatch| match_text(m),
        ).push(match_text(v@[i as int])));
        i = i + 1;
    }
    assert(v@.take(v.len() as int) =~= v@);
    arr_of(&xs)
}

fn lint_errors_of(v: &Vec<LintError>) -> (r: String)
    ensures
        r@ == arr_text(v@.map_values(|e: LintError| lint_error_text(e))),
{
    let mut xs: Vec<String> = Vec::new();
    let mut i: usize = 0;
    while i < v.len()
        invariant
            i <= v.len(),
            views(xs@) == v@.take(i as int).map_values(|e: LintError| lint_error_text(e)),
        decreases v.len() - i,
    {
        let ghost prev = xs@;
        let t = lint_error_of(&v[i]);
        xs.push(t);
        assert(views(xs@) =~= views(prev).push(t@));
        assert(v@.take(i + 1).map_values(|e: LintError| lint_error_text(e)) =~= v@.take(i as int).map_values(
            |e: LintError| lint_error_text(e),
        ).push(lint_error_text(v@[i as int])));
        i = i + 1;
    }
    assert(v@.take(v.len() as int) =~= v@);
    arr_of(&xs)
}

fn groups_of(g: &Vec<(String, Vec<String>)>) -> (r: String)
    ensures
        r@ == groups_text(g@),
{
    let mut xs: Vec<String> = Vec::new();
    let mut i: usize = 0;
    while i < g.len()
        invariant
            i <= g.len(),
            views(xs@) == g@.take(i as int).map_values(
                |e: (String, Vec<String>)| field(e.0@, leaf(strs_json(e.1@))),
            ),
        decreases g.len() - i,
    {
        let ghost prev = xs@;
        let t = strs_field(g[i].0.as_str(), &g[i].1);
        xs.push(t);
        assert(views(xs@) =~= views(prev).push(t@));
        assert(g@.take(i + 1).map_values(|e: (String, Vec<String>)| field(e.0@, leaf(strs_json(e.1@))))
            =~= g@.take(i as int).map_values(
            |e: (String, Vec<String>)| field(e.0@, leaf(strs_json(e.1@))),
        ).push(field(g@[i as int].0@, leaf(strs_json(g@[i as int].1@)))));
        i = i + 1;
    }
    assert(g@.take(g.len() as int) =~= g@);
    obj_of(&xs)
}

/// The texts of step results, as an array.
pub fn results_text(v: &Vec<StepResult>) -> (r: String)
    ensures
        r@ == arr_text(result_texts(v@)),
    decreases v,
{
    let mut xs: Vec<String> = Vec::new();
    let mut i: usize = 0;
    while i < v.len()
        invariant
            i <= v.len(),
            views(xs@) == result_texts(v@.take(i as int)),
        decreases v.len() - i,
    {
        proof {
            vstd::std_specs::vec::axiom_vec_index_decreases(*v, i as int);
        }
        let ghost prev = xs@;
        let t = v[i].record_text();
        xs.push(t);
        proof {
            assert(views(xs@) =~= views(prev).push(t@));
            lemma_result_texts_push(v@.take(i as int), v@[i as int]);
            assert(v@.take(i + 1) =~= v@.take(i as int).push(v@[i as int]));
        }
        i = i + 1;
    }
    assert(v@.take(v.len() as int) =~= v@);
    arr_of(&xs)
}

impl StepTypeResult {
    /// The texts of this kind's fields, in declaration order.
    pub fn field_texts(&self) -> (r: Vec<String>)
        ensures
            views(r@) == kind_fields(*self),
        decreases self,
    {
        let r = match self {
            StepTypeResult::Bash { cmd, stdout, stderr, exit_code } => vec![
                string_field("cmd", cmd),
                string_field("stdout", stdout),
                string_field("stderr", stderr),
                leaf_field("exit_code", Json::integer(*exit_code as i64)),
            ],
            StepTypeResult::Read { path, files, files_filtered, filter_reason } => {
                let f = files_of(files);
                vec![
                    string_field("path", path),
                    field_of("files", f.as_str()),
                    number_field("files_filtered", *files_filtered),
                    opt_field("filter_reason", filter_reason),
                ]
            },
            StepTypeResult::Write { path, diff } => vec![string_field("path", path), opt_field("diff", diff)],
            StepTypeResult::Patch { path, edits_applied, diff } => vec![
                string_field("path", path),
                number_field("edits_applied", *edits_applied),
                opt_field("diff", diff),
            ],
            StepTypeResult::Mv { from, to } => vec![string_field("from", from), string_field("to", to)],
            StepTypeResult::Cp { from, to } => vec![string_field("from", from), string_field("to", to)],
            StepTypeResult::Rm { path } => vec![string_field("path", path)],
            StepTypeResult::Mkdir { path } => vec![string_field("path", path)],
            StepTypeResult::Grep { pattern, matches } => {
                let m = matches_of(matches);
                vec![string_field("pattern", pattern), field_of("matches", m.as_str())]
            },
            StepTypeResult::Replace {
                pattern,
                replacement,
                files_scanned,
                files_modified,
                total_replacements,
            } => vec![
                string_field("pattern", pattern),
                string_field("replacement", replacement),
                number_field("files_scanned", *files_scanned),
                number_field("files_modified", *files_modified),
                number_field("total_replacements", *total_replacements),
            ],
            StepTypeResult::Scan {
                path,
                stack,
                entry_points,
                file_count,
                tree,
                exports,
                imports_graph,
            } => {
                let t = groups_of(tree);
                let e = groups_of(exports);
                let g = groups_of(imports_graph);
                vec![
                    string_field("path", path),
                    strs_field("stack", stack),
                    strs_field("entry_points", entry_points),
                    number_field("file_count", *file_count),
                    field_of("tree", t.as_str()),
                    field_of("exports", e.as_str()),
                    field_of("imports_graph", g.as_str()),
                ]
            },
            StepTypeResult::Summarize { path, summary } => {
                let s = summary_of(summary);
                vec![string_field("path", path), field_of("summary", s.as_str())]
            },
            StepTypeResult::Extract { path, data } => vec![
                string_field("path", path),
                leaf_field("data", data.copy()),
            ],
            StepTypeResult::Diff {
                a,
                b,
                added,
                removed,
                changed_sections,
                is_identical,
                unified_diff,
            } => vec![
                string_field("a", a),
                string_field("b", b),
                number_field("added", *added),
                number_field("removed", *removed),
                strs_field("changed_sections", changed_sections),
                leaf_field("is_identical", Json::Bool(*is_identical)),
                opt_field("unified_diff", unified_diff),
            ],
            StepTypeResult::Lint { errors_count, warnings_count, errors } => {
                let e = lint_errors_of(errors);
                vec![
                    number_field("errors_count", *errors_count),
                    number_field("warnings_count", *warnings_count),
                    field_of("errors", e.as_str()),
                ]
            },
            StepTypeResult::Template { output, rendered } => vec![
                string_field("output", output),
                leaf_field("rendered", Json::Bool(*rendered)),
            ],
            StepTypeResult::Snapshot { path, id, archived } => vec![
                string_field("path", path),
                string_field("id", id),
                leaf_field("archived", Json::Bool(*archived)),
            ],
            StepTypeResult::Restore { id, restored } => vec![
                string_field("id", id),
                leaf_field("restored", Json::Bool(*restored)),
            ],
            StepTypeResult::Git { op, output } => vec![
                string_field("op", op),
                leaf_field("output", output.copy()),
            ],
            StepTypeResult::Http { method, url, status, body } => vec![
                string_field("method", method),
                string_field("url", url),
                leaf_field("status", Json::PosInt(*status as u64)),
                opt_field("body", body),
            ],
            StepTypeResult::Import { path, added, removed, organized } => vec![
                string_field("path", path),
                strs_field("added", added),
                strs_field("removed", removed),
                leaf_field("organized", Json::Bool(*organized)),
            ],
            StepTypeResult::If { condition_met, branch, results } => {
                let rs = results_text(results);
                vec![
                    leaf_field("condition_met", Json::Bool(*condition_met)),
                    string_field("branch", branch),
                    field_of("results", rs.as_str()),
                ]
            },
            StepTypeResult::Each { items, results } => {
                let rs = results_text(results);
                vec![strs_field("items", items), field_of("results", rs.as_str())]
            },
            StepTypeResult::Parallel { results } => {
                let rs = results_text(results);
                vec![field_of("results", rs.as_str())]
            },
        };
        assert(views(r@) =~= kind_fields(*self));
        r
    }
}

impl StepResult {
    /// The text of this result's record.
    pub fn record_text(&self) -> (r: String)
        ensures
            r@ == result_text(*self),
        decreases self,
    {
        let mut fs: Vec<String> = vec![
            number_field("index", self.index),
            leaf_field("type", Json::string(self.step_type.step_type_name())),
        ];
        assert(views(fs@) =~= record_head(*self));
        let ghost head = views(fs@);
        let kinds = self.step_type.field_texts();
        let mut i: usize = 0;
        while i < kinds.len()
            invariant
                i <= kinds.len(),
                head == record_head(*self),
                views(fs@) == head + views(kinds@).take(i as int),
            decreases kinds.len() - i,
        {
            let ghost prev = fs@;
            let t = kinds[i].clone();
            fs.push(t);
            assert(views(fs@) =~= views(prev).push(t@));
            assert(views(kinds@).take(i + 1) =~= views(kinds@).take(i as int).push(kinds@[i as int]@));
            i = i + 1;
        }
        assert(views(kinds@).take(kinds.len() as int) =~= views(kinds@));
        let mut tail: Vec<String> = vec![
            string_field("status", &self.status),
            leaf_field("durationMs", Json::PosInt(self.duration_ms)),
        ];
        match self.stopped_pipeline {
            Some(b) => {
                tail.push(leaf_field("stoppedPipeline", Json::Bool(b)));
            },
            None => {},
        }
        assert(views(tail@) =~= record_tail(*self));
        let mut j: usize = 0;
        while j < tail.len()
            invariant
                j <= tail.len(),
                views(fs@) == record_head(*self) + kind_fields(self.step_type) + views(tail@).take(j as int),
            decreases tail.len() - j,
        {
            let ghost prev = fs@;
            let t = tail[j].clone();
            fs.push(t);
            assert(views(fs@) =~= views(prev).push(t@));
            assert(views(tail@).take(j + 1) =~= views(tail@).take(j as int).push(tail@[j as int]@));
            j = j + 1;
        }
        assert(views(tail@).take(tail.len() as int) =~= views(tail@));
        obj_of(&fs)
    }
}

impl Output {
    /// The text of this run's record.
    pub fn record_text(&self) -> (r: String)
        ensures
            r@ == output_text(*self),
    {
        let rs = results_text(&self.results);
        let fs = vec![
            string_field("status", &self.status),
            number_field("stepsTotal", self.steps_total),
            number_field("stepsOk", self.steps_ok),
            number_field("stepsFailed", self.steps_failed),
            leaf_field("durationMs", Json::PosInt(self.duration_ms)),
            field_of("results", rs.as_str()),
        ];
        assert(views(fs@) =~= seq![
            str_field("status"@, self.status),
            count_field("stepsTotal"@, self.steps_total),
            count_field("stepsOk"@, self.steps_ok),
            count_field("stepsFailed"@, self.steps_failed),
            field("durationMs"@, leaf(JsonView::PosInt(self.duration_ms))),
            field("results"@, arr_text(result_texts(self.results@))),
        ]);
        obj_of(&fs)
    }
}

} // verus!
