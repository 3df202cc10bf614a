//! The pipeline schema: options, the steps a payload lists, their conditions,
//! and the records that steps produce.
//!
//! Maps of the wire format (environment variables, headers, template
//! variables) are held as lists of key/value pairs in the order given.
use crate::text::{opt_text, owned, pair_views, views};
use vstd::prelude::*;

verus! {

/// Options that apply to a whole run.
#[derive(Debug, Clone)]
pub struct Options {
    pub cwd: String,
    pub stop_on_error: bool,
    pub timeout_ms: u64,
    pub env: Vec<(String, String)>,
    pub cache: bool,
    pub cache_dir: Option<String>,
}

/// The working directory when none is given.
pub fn default_cwd() -> (r: String)
    ensures
        r@ == "."@,
{
    owned(".")
}

/// Whether a run stops at the first failing step when not said otherwise.
pub fn default_stop_on_error() -> (r: bool)
    ensures
        r,
{
    true
}

/// The default timeout of a run, in milliseconds.
pub fn default_timeout_ms() -> (r: u64)
    ensures
        r == 30000,
{
    30000
}

impl Default for Options {
    fn default() -> (o: Self)
        ensures
            o.cwd@ == "."@,
            o.stop_on_error,
            o.timeout_ms == 30000,
            o.env@.len() == 0,
            !o.cache,
            o.cache_dir is None,
    {
        Options {
            cwd: default_cwd(),
            stop_on_error: default_stop_on_error(),
            timeout_ms: default_timeout_ms(),
            env: Vec::new(),
            cache: false,
            cache_dir: None,
        }
    }
}

/// How a failing step is retried.
#[derive(Debug, Clone, Copy)]
pub struct RetryConfig {
    pub count: usize,
    pub delay_ms: u64,
    pub backoff: bool,
}

/// Retries when not said otherwise.
pub fn default_retry_count() -> (r: usize)
    ensures
        r == 3,
{
    3
}

/// Delay between retries when not said otherwise, in milliseconds.
pub fn default_retry_delay() -> (r: u64)
    ensures
        r == 1000,
{
    1000
}

/// What a `scan` step reports.
#[derive(Debug, Clone, Copy, PartialEq, Eq, Structural)]
pub enum ScanOutput {
    Summary,
    Full,
    Imports,
    Exports,
}

/// How a `diff` step reports.
#[derive(Debug, Clone, Copy, PartialEq, Eq, Structural)]
pub enum DiffFormat {
    Unified,
    Json,
    Stat,
}

/// Which linter a `lint` step runs.
#[derive(Debug, Clone, Copy, PartialEq, Eq, Structural)]
pub enum LintTool {
    Auto,
    Eslint,
    Biome,
    Clippy,
    Ruff,
}

/// Which git operation a `git` step runs.
#[derive(Debug, Clone, Copy, PartialEq, Eq, Structural)]
pub enum GitOp {
    Status,
    Diff,
    Log,
    Add,
    Commit,
    Branch,
}

/// One search-and-replace of a `patch` step.
#[derive(Debug, Clone)]
pub struct PatchEdit {
    pub find: String,
    pub replace: String,
}

/// What an `each` step iterates over: a literal list, or values picked from
/// an earlier step's result.
#[derive(Debug, Clone)]
pub enum EachOver {
    List(Vec<String>),
    Ref(EachRef),
}

/// A reference to an earlier step's result and the path picked from it.
#[derive(Debug, Clone)]
pub struct EachRef {
    pub ref_: usize,
    pub pick: String,
}

/// The path picked from a referenced result when none is given: all of it.
pub fn default_pick() -> (r: String)
    ensures
        r@ == "*"@,
{
    owned("*")
}

/// Whether `grep` and `replace` patterns are regular expressions by default.
pub fn default_regex() -> (r: bool)
    ensures
        !r,
{
    false
}

/// The default of flags that are on unless turned off.
pub fn default_true() -> (r: bool)
    ensures
        r,
{
    true
}

/// How deep a `scan` step descends by default.
pub fn default_depth() -> (r: usize)
    ensures
        r == 3,
{
    3
}

/// What a `scan` step reports by default.
pub fn default_scan_output() -> (r: ScanOutput)
    ensures
        r == ScanOutput::Summary,
{
    ScanOutput::Summary
}

/// How a `diff` step reports by default.
pub fn default_diff_format() -> (r: DiffFormat)
    ensures
        r == DiffFormat::Stat,
{
    DiffFormat::Stat
}

/// Which linter a `lint` step runs by default.
pub fn default_lint_tool() -> (r: LintTool)
    ensures
        r == LintTool::Auto,
{
    LintTool::Auto
}

/// The HTTP status an `http` step expects by default.
pub fn default_expect_status() -> (r: u16)
    ensures
        r == 200,
{
    200
}

/// Whether an `each` step runs its items in parallel by default.
pub fn default_each_parallel() -> (r: bool)
    ensures
        r,
{
    true
}

/// The variable an `each` step binds each item to by default.
pub fn default_each_as() -> (r: String)
    ensures
        r@ == "item"@,
{
    owned("item")
}

/// The dependencies of a step when none are given.
pub fn default_depends_on() -> (r: Vec<String>)
    ensures
        r@.len() == 0,
{
    Vec::new()
}

/// A condition of an `if` step.
#[derive(Debug)]
pub enum Condition {
    Exists { path: String },
    Contains { path: String, pattern: String, regex: bool },
    GrepHasResults { ref_: usize },
    StepOk { ref_: usize },
    StepFailed { ref_: usize },
    FileChanged { path: String, since: String },
    Not { condition: Box<Condition> },
    And { conditions: Vec<Condition> },
    Or { conditions: Vec<Condition> },
}

/// One step of a pipeline.
#[derive(Debug)]
pub enum Step {
    Bash {
        id: String,
        depends_on: Vec<String>,
        cmd: String,
        timeout_ms: Option<u64>,
        retry: Option<RetryConfig>,
    },
    Read {
        id: String,
        depends_on: Vec<String>,
        path: String,
        max_bytes: Option<usize>,
        encoding: Option<String>,
        filter_imports: Option<String>,
        filter_exports: Option<String>,
        since: Option<String>,
    },
    Write {
        id: String,
        depends_on: Vec<String>,
        path: String,
        content: String,
        create_dirs: bool,
    },
    Patch { id: String, depends_on: Vec<String>, path: String, edits: Vec<PatchEdit> },
    Mv { id: String, depends_on: Vec<String>, from: String, to: String },
    Cp { id: String, depends_on: Vec<String>, from: String, to: String, recursive: bool },
    Rm { id: String, depends_on: Vec<String>, path: String, recursive: bool },
    Mkdir { id: String, depends_on: Vec<String>, path: String },
    Grep {
        id: String,
        depends_on: Vec<String>,
        pattern: String,
        path: String,
        ext: Vec<String>,
        regex: bool,
        context_lines: Option<usize>,
    },
    Replace {
        id: String,
        depends_on: Vec<String>,
        pattern: String,
        replacement: String,
        path: String,
        ext: Vec<String>,
        regex: bool,
        case_sensitive: bool,
        glob: Option<String>,
        whole_word: bool,
    },
    Scan {
        id: String,
        depends_on: Vec<String>,
        path: String,
        depth: usize,
        included: Vec<String>,
        output: ScanOutput,
    },
    Summarize { id: String, depends_on: Vec<String>, path: String, focus: String },
    Extract { id: String, depends_on: Vec<String>, path: String, pick: Vec<String> },
    Diff { id: String, depends_on: Vec<String>, a: String, b: String, format: DiffFormat },
    Lint { id: String, depends_on: Vec<String>, path: String, tool: LintTool },
    Template {
        id: String,
        depends_on: Vec<String>,
        name: String,
        builtin: String,
        source: String,
        output: String,
        vars: Vec<(String, String)>,
    },
    Snapshot { id: String, depends_on: Vec<String>, path: String, snapshot_id: String },
    Restore { id: String, depends_on: Vec<String>, snapshot_id: String },
    Git { id: String, depends_on: Vec<String>, op: GitOp, args: Vec<String> },
    Http {
        id: String,
        depends_on: Vec<String>,
        method: String,
        url: String,
        headers: Vec<(String, String)>,
        expect_status: u16,
        body: Option<String>,
    },
    Import {
        id: String,
        depends_on: Vec<String>,
        path: String,
        add: Vec<String>,
        remove: Vec<String>,
        organize: bool,
    },
    If {
        id: String,
        depends_on: Vec<String>,
        condition: Condition,
        then: Vec<Step>,
        else_: Vec<Step>,
    },
    Each {
        id: String,
        depends_on: Vec<String>,
        over: EachOver,
        as_: String,
        parallel: bool,
        step: Box<Step>,
    },
    Parallel { id: String, depends_on: Vec<String>, steps: Vec<Step> },
}

/// The id of a step (empty when none was given).
pub open spec fn step_id(s: Step) -> String {
    match s {
        Step::Bash { id, .. } => id,
        Step::Read { id, .. } => id,
        Step::Write { id, .. } => id,
        Step::Patch { id, .. } => id,
        Step::Mv { id, .. } => id,
        Step::Cp { id, .. } => id,
        Step::Rm { id, .. } => id,
        Step::Mkdir { id, .. } => id,
        Step::Grep { id, .. } => id,
        Step::Replace { id, .. } => id,
        Step::Scan { id, .. } => id,
        Step::Summarize { id, .. } => id,
        Step::Extract { id, .. } => id,
        Step::Diff { id, .. } => id,
        Step::Lint { id, .. } => id,
        Step::Template { id, .. } => id,
        Step::Snapshot { id, .. } => id,
        Step::Restore { id, .. } => id,
        Step::Git { id, .. } => id,
        Step::Http { id, .. } => id,
        Step::Import { id, .. } => id,
        Step::If { id, .. } => id,
        Step::Each { id, .. } => id,
        Step::Parallel { id, .. } => id,
    }
}

/// The ids of the steps a step depends on.
pub open spec fn step_depends_on(s: Step) -> Vec<String> {
    match s {
        Step::Bash { depends_on, .. } => depends_on,
        Step::Read { depends_on, .. } => depends_on,
        Step::Write { depends_on, .. } => depends_on,
        Step::Patch { depends_on, .. } => depends_on,
        Step::Mv { depends_on, .. } => depends_on,
        Step::Cp { depends_on, .. } => depends_on,
        Step::Rm { depends_on, .. } => depends_on,
        Step::Mkdir { depends_on, .. } => depends_on,
        Step::Grep { depends_on, .. } => depends_on,
        Step::Replace { depends_on, .. } => depends_on,
        Step::Scan { depends_on, .. } => depends_on,
        Step::Summarize { depends_on, .. } => depends_on,
        Step::Extract { depends_on, .. } => depends_on,
        Step::Diff { depends_on, .. } => depends_on,
        Step::Lint { depends_on, .. } => depends_on,
        Step::Template { depends_on, .. } => depends_on,
        Step::Snapshot { depends_on, .. } => depends_on,
        Step::Restore { depends_on, .. } => depends_on,
        Step::Git { depends_on, .. } => depends_on,
        Step::Http { depends_on, .. } => depends_on,
        Step::Import { depends_on, .. } => depends_on,
        Step::If { depends_on, .. } => depends_on,
        Step::Each { depends_on, .. } => depends_on,
        Step::Parallel { depends_on, .. } => depends_on,
    }
}

impl Step {
    /// The step's id.
    pub fn get_id(&self) -> (r: &str)
        ensures
            r@ == step_id(*self)@,
    {
        match self {
            Step::Bash { id, .. } => id.as_str(),
            Step::Read { id, .. } => id.as_str(),
            Step::Write { id, .. } => id.as_str(),
            Step::Patch { id, .. } => id.as_str(),
            Step::Mv { id, .. } => id.as_str(),
            Step::Cp { id, .. } => id.as_str(),
            Step::Rm { id, .. } => id.as_str(),
            Step::Mkdir { id, .. } => id.as_str(),
            Step::Grep { id, .. } => id.as_str(),
            Step::Replace { id, .. } => id.as_str(),
            Step::Scan { id, .. } => id.as_str(),
            Step::Summarize { id, .. } => id.as_str(),
            Step::Extract { id, .. } => id.as_str(),
            Step::Diff { id, .. } => id.as_str(),
            Step::Lint { id, .. } => id.as_str(),
            Step::Template { id, .. } => id.as_str(),
            Step::Snapshot { id, .. } => id.as_str(),
            Step::Restore { id, .. } => id.as_str(),
            Step::Git { id, .. } => id.as_str(),
            Step::Http { id, .. } => id.as_str(),
            Step::Import { id, .. } => id.as_str(),
            Step::If { id, .. } => id.as_str(),
            Step::Each { id, .. } => id.as_str(),
            Step::Parallel { id, .. } => id.as_str(),
        }
    }

    /// The ids of the steps this one depends on.
    pub fn get_depends_on(&self) -> (r: &[String])
        ensures
            r@ == step_depends_on(*self)@,
    {
        match self {
            Step::Bash { depends_on, .. } => depends_on.as_slice(),
            Step::Read { depends_on, .. } => depends_on.as_slice(),
            Step::Write { depends_on, .. } => depends_on.as_slice(),
            Step::Patch { depends_on, .. } => depends_on.as_slice(),
            Step::Mv { depends_on, .. } => depends_on.as_slice(),
            Step::Cp { depends_on, .. } => depends_on.as_slice(),
            Step::Rm { depends_on, .. } => depends_on.as_slice(),
            Step::Mkdir { depends_on, .. } => depends_on.as_slice(),
            Step::Grep { depends_on, .. } => depends_on.as_slice(),
            Step::Replace { depends_on, .. } => depends_on.as_slice(),
            Step::Scan { depends_on, .. } => depends_on.as_slice(),
            Step::Summarize { depends_on, .. } => depends_on.as_slice(),
            Step::Extract { depends_on, .. } => depends_on.as_slice(),
            Step::Diff { depends_on, .. } => depends_on.as_slice(),
            Step::Lint { depends_on, .. } => depends_on.as_slice(),
            Step::Template { depends_on, .. } => depends_on.as_slice(),
            Step::Snapshot { depends_on, .. } => depends_on.as_slice(),
            Step::Restore { depends_on, .. } => depends_on.as_slice(),
            Step::Git { depends_on, .. } => depends_on.as_slice(),
            Step::Http { depends_on, .. } => depends_on.as_slice(),
            Step::Import { depends_on, .. } => depends_on.as_slice(),
            Step::If { depends_on, .. } => depends_on.as_slice(),
            Step::Each { depends_on, .. } => depends_on.as_slice(),
            Step::Parallel { depends_on, .. } => depends_on.as_slice(),
        }
    }
}

/// One line matched by a `grep` step.
#[derive(Debug, Clone)]
pub struct GrepMatch {
    pub path: String,
    pub line: usize,
    pub text: String,
}

/// A file read by a `read` step.
#[derive(Debug, Clone)]
pub struct FileContent {
    pub path: String,
    pub content: String,
}

/// What a `summarize` step reports of a file.
#[derive(Debug, Clone)]
pub struct FileSummary {
    pub imports: Vec<String>,
    pub exports: Vec<String>,
    pub functions: Vec<String>,
    pub types_used: Vec<String>,
    pub line_count: usize,
    pub last_modified: String,
}

/// One diagnostic reported by a linter.
#[derive(Debug, Clone)]
pub struct LintError {
    pub file: String,
    pub line: usize,
    pub rule: String,
    pub message: String,
    pub severity: String,
}


// ---------------------------------------------------------------------------
// models of steps and conditions, and copies
// ---------------------------------------------------------------------------

/// The model of a condition.
pub enum CondView {
    Exists { path: Seq<char> },
    Contains { path: Seq<char>, pattern: Seq<char>, regex: bool },
    GrepHasResults { ref_: usize },
    StepOk { ref_: usize },
    StepFailed { ref_: usize },
    FileChanged { path: Seq<char>, since: Seq<char> },
    Not { condition: Box<CondView> },
    And { conditions: Seq<CondView> },
    Or { conditions: Seq<CondView> },
}

/// The model of a condition.
pub open spec fn cond_view(c: Condition) -> CondView
    decreases c,
{
    match c {
        Condition::Exists { path } => CondView::Exists { path: path@ },
        Condition::Contains { path, pattern, regex } => CondView::Contains {
            path: path@,
            pattern: pattern@,
            regex,
        },
        Condition::GrepHasResults { ref_ } => CondView::GrepHasResults { ref_ },
        Condition::StepOk { ref_ } => CondView::StepOk { ref_ },
        Condition::StepFailed { ref_ } => CondView::StepFailed { ref_ },
        Condition::FileChanged { path, since } => CondView::FileChanged {
            path: path@,
            since: since@,
        },
        Condition::Not { condition } => CondView::Not { condition: Box::new(cond_view(*condition)) },
        Condition::And { conditions } => CondView::And { conditions: cond_views(conditions@) },
        Condition::Or { conditions } => CondView::Or { conditions: cond_views(conditions@) },
    }
}

/// The models of a sequence of conditions.
pub open spec fn cond_views(s: Seq<Condition>) -> Seq<CondView>
    decreases s,
{
    if s.len() == 0 {
        Seq::empty()
    } else {
        seq![cond_view(s[0])] + cond_views(s.subrange(1, s.len() as int))
    }
}

/// Appending a condition appends its model.
pub proof fn lemma_cond_views_push(s: Seq<Condition>, x: Condition)
    ensures
        cond_views(s.push(x)) == cond_views(s).push(cond_view(x)),
    decreases s.len(),
{
    let t = s.push(x);
    assert(t[0] == if s.len() == 0 { x } else { s[0] });
    if s.len() == 0 {
        assert(t.subrange(1, t.len() as int) =~= Seq::<Condition>::empty());
        assert(cond_views(t.subrange(1, t.len() as int)) == Seq::<CondView>::empty());
        assert(cond_views(t) =~= seq![cond_view(x)]);
        assert(cond_views(s) == Seq::<CondView>::empty());
    } else {
        let s1 = s.subrange(1, s.len() as int);
        assert(t.subrange(1, t.len() as int) =~= s1.push(x));
        lemma_cond_views_push(s1, x);
        assert(cond_views(t) == seq![cond_view(s[0])] + cond_views(s1.push(x)));
        assert(cond_views(s) == seq![cond_view(s[0])] + cond_views(s1));
        assert(cond_views(t) =~= cond_views(s).push(cond_view(x)));
    }
}

/// The length of the models is the length of the sequence.
pub proof fn lemma_cond_views_len(s: Seq<Condition>)
    ensures
        cond_views(s).len() == s.len(),
    decreases s.len(),
{
    if s.len() > 0 {
        lemma_cond_views_len(s.subrange(1, s.len() as int));
    }
}

/// The model of element `i`.
pub proof fn lemma_cond_views_index(s: Seq<Condition>, i: int)
    requires
        0 <= i < s.len(),
    ensures
        cond_views(s)[i] == cond_view(s[i]),
    decreases i,
{
    lemma_cond_views_len(s);
    if i > 0 {
        let t = s.subrange(1, s.len() as int);
        lemma_cond_views_index(t, i - 1);
        assert(t[i - 1] == s[i]);
    }
}

/// The model of what an `each` step iterates over.
pub enum EachOverView {
    List(Seq<Seq<char>>),
    Ref(usize, Seq<char>),
}

pub open spec fn over_view(o: EachOver) -> EachOverView {
    match o {
        EachOver::List(items) => EachOverView::List(views(items@)),
        EachOver::Ref(r) => EachOverView::Ref(r.ref_, r.pick@),
    }
}

/// The edits of a `patch` step by their characters.
pub open spec fn edits_view(v: Seq<PatchEdit>) -> Seq<(Seq<char>, Seq<char>)> {
    v.map_values(|e: PatchEdit| (e.find@, e.replace@))
}

/// A copy of a list of strings.
pub fn copy_strings(v: &Vec<String>) -> (r: Vec<String>)
    ensures
        views(r@) == views(v@),
{
    let mut r: Vec<String> = Vec::new();
    let mut i: usize = 0;
    while i < v.len()
        invariant
            i <= v.len(),
            views(r@) == views(v@).take(i as int),
        decreases v.len() - i,
    {
        let ghost prev = r@;
        r.push(v[i].clone());
        assert(views(r@) =~= views(prev).push(v@[i as int]@));
        assert(views(v@).take(i + 1) =~= views(v@).take(i as int).push(v@[i as int]@));
        i = i + 1;
    }
    assert(views(v@).take(v.len() as int) =~= views(v@));
    r
}

/// A copy of a list of pairs of strings.
pub fn copy_pairs(v: &Vec<(String, String)>) -> (r: Vec<(String, String)>)
    ensures
        pair_views(r@) == pair_views(v@),
{
    let mut r: Vec<(String, String)> = Vec::new();
    let mut i: usize = 0;
    while i < v.len()
        invariant
            i <= v.len(),
            pair_views(r@) == pair_views(v@).take(i as int),
        decreases v.len() - i,
    {
        let ghost prev = r@;
        r.push((v[i].0.clone(), v[i].1.clone()));
        assert(pair_views(r@) =~= pair_views(prev).push((v@[i as int].0@, v@[i as int].1@)));
        assert(pair_views(v@).take(i + 1) =~= pair_views(v@).take(i as int).push(
            (v@[i as int].0@, v@[i as int].1@),
        ));
        i = i + 1;
    }
    assert(pair_views(v@).take(v.len() as int) =~= pair_views(v@));
    r
}

/// A copy of the edits of a `patch` step.
pub fn copy_edits(v: &Vec<PatchEdit>) -> (r: Vec<PatchEdit>)
    ensures
        edits_view(r@) == edits_view(v@),
{
    let mut r: Vec<PatchEdit> = Vec::new();
    let mut i: usize = 0;
    while i < v.len()
        invariant
            i <= v.len(),
            edits_view(r@) == edits_view(v@).take(i as int),
        decreases v.len() - i,
    {
        let ghost prev = r@;
        r.push(PatchEdit { find: v[i].find.clone(), replace: v[i].replace.clone() });
        assert(edits_view(r@) =~= edits_view(prev).push((v@[i as int].find@, v@[i as int].replace@)));
        assert(edits_view(v@).take(i + 1) =~= edits_view(v@).take(i as int).push(
            (v@[i as int].find@, v@[i as int].replace@),
        ));
        i = i + 1;
    }
    assert(edits_view(v@).take(v.len() as int) =~= edits_view(v@));
    r
}

/// A copy of an optional string.
pub fn copy_opt(o: &Option<String>) -> (r: Option<String>)
    ensures
        opt_text(r) == opt_text(*o),
{
    match o {
        Some(s) => Some(s.clone()),
        None => None,
    }
}

/// A copy of what an `each` step iterates over.
pub fn copy_over(o: &EachOver) -> (r: EachOver)
    ensures
        over_view(r) == over_view(*o),
{
    match o {
        EachOver::List(items) => EachOver::List(copy_strings(items)),
        EachOver::Ref(r) => EachOver::Ref(EachRef { ref_: r.ref_, pick: r.pick.clone() }),
    }
}

/// A copy of a condition.
pub fn copy_condition(c: &Condition) -> (r: Condition)
    ensures
        cond_view(r) == cond_view(*c),
    decreases c,
{
    match c {
        Condition::Exists { path } => Condition::Exists { path: path.clone() },
        Condition::Contains { path, pattern, regex } => Condition::Contains {
            path: path.clone(),
            pattern: pattern.clone(),
            regex: *regex,
        },
        Condition::GrepHasResults { ref_ } => Condition::GrepHasResults { ref_: *ref_ },
        Condition::StepOk { ref_ } => Condition::StepOk { ref_: *ref_ },
        Condition::StepFailed { ref_ } => Condition::StepFailed { ref_: *ref_ },
        Condition::FileChanged { path, since } => Condition::FileChanged {
            path: path.clone(),
            since: since.clone(),
        },
        Condition::Not { condition } => Condition::Not {
            condition: Box::new(copy_condition(condition)),
        },
        Condition::And { conditions } => Condition::And { conditions: copy_conditions(conditions) },
        Condition::Or { conditions } => Condition::Or { conditions: copy_conditions(conditions) },
    }
}

/// A copy of a list of conditions.
pub fn copy_conditions(v: &Vec<Condition>) -> (r: Vec<Condition>)
    ensures
        cond_views(r@) == cond_views(v@),
    decreases v,
{
    let mut r: Vec<Condition> = Vec::new();
    let mut i: usize = 0;
    while i < v.len()
        invariant
            i <= v.len(),
            cond_views(r@) == cond_views(v@.take(i as int)),
        decreases v.len() - i,
    {
        proof {
            vstd::std_specs::vec::axiom_vec_index_decreases(*v, i as int);
        }
        let c = copy_condition(&v[i]);
        proof {
            lemma_cond_views_push(r@, c);
            lemma_cond_views_push(v@.take(i as int), v@[i as int]);
            assert(v@.take(i + 1) =~= v@.take(i as int).push(v@[i as int]));
        }
        r.push(c);
        i = i + 1;
    }
    assert(v@.take(v.len() as int) =~= v@);
    r
}

/// The models of a sequence of steps.
pub open spec fn step_views(s: Seq<Step>) -> Seq<StepView>
    decreases s,
{
    if s.len() == 0 {
        Seq::empty()
    } else {
        seq![step_view(s[0])] + step_views(s.subrange(1, s.len() as int))
    }
}

/// Appending a step appends its model.
pub proof fn lemma_step_views_push(s: Seq<Step>, x: Step)
    ensures
        step_views(s.push(x)) == step_views(s).push(step_view(x)),
    decreases s.len(),
{
    let t = s.push(x);
    assert(t[0] == if s.len() == 0 { x } else { s[0] });
    if s.len() == 0 {
        assert(t.subrange(1, t.len() as int) =~= Seq::<Step>::empty());
        assert(step_views(t.subrange(1, t.len() as int)) == Seq::<StepView>::empty());
        assert(step_views(t) =~= seq![step_view(x)]);
        assert(step_views(s) == Seq::<StepView>::empty());
    } else {
        let s1 = s.subrange(1, s.len() as int);
        assert(t.subrange(1, t.len() as int) =~= s1.push(x));
        lemma_step_views_push(s1, x);
        assert(step_views(t) == seq![step_view(s[0])] + step_views(s1.push(x)));
        assert(step_views(s) == seq![step_view(s[0])] + step_views(s1));
        assert(step_views(t) =~= step_views(s).push(step_view(x)));
    }
}

/// The model of a step: its fields by their characters and models.
pub enum StepView {
    Bash { id: Seq<char>, depends_on: Seq<Seq<char>>, cmd: Seq<char>, timeout_ms: Option<u64>, retry: Option<RetryConfig> },
    Read { id: Seq<char>, depends_on: Seq<Seq<char>>, path: Seq<char>, max_bytes: Option<usize>, encoding: Option<Seq<char>>, filter_imports: Option<Seq<char>>, filter_exports: Option<Seq<char>>, since: Option<Seq<char>> },
    Write { id: Seq<char>, depends_on: Seq<Seq<char>>, path: Seq<char>, content: Seq<char>, create_dirs: bool },
    Patch { id: Seq<char>, depends_on: Seq<Seq<char>>, path: Seq<char>, edits: Seq<(Seq<char>, Seq<char>)> },
    Mv { id: Seq<char>, depends_on: Seq<Seq<char>>, from: Seq<char>, to: Seq<char> },
    Cp { id: Seq<char>, depends_on: Seq<Seq<char>>, from: Seq<char>, to: Seq<char>, recursive: bool },
    Rm { id: Seq<char>, depends_on: Seq<Seq<char>>, path: Seq<char>, recursive: bool },
    Mkdir { id: Seq<char>, depends_on: Seq<Seq<char>>, path: Seq<char> },
    Grep { id: Seq<char>, depends_on: Seq<Seq<char>>, pattern: Seq<char>, path: Seq<char>, ext: Seq<Seq<char>>, regex: bool, context_lines: Option<usize> },
    Replace { id: Seq<char>, depends_on: Seq<Seq<char>>, pattern: Seq<char>, replacement: Seq<char>, path: Seq<char>, ext: Seq<Seq<char>>, regex: bool, case_sensitive: bool, glob: Option<Seq<char>>, whole_word: bool },
    Scan { id: Seq<char>, depends_on: Seq<Seq<char>>, path: Seq<char>, depth: usize, included: Seq<Seq<char>>, output: ScanOutput },
    Summarize { id: Seq<char>, depends_on: Seq<Seq<char>>, path: Seq<char>, focus: Seq<char> },
    Extract { id: Seq<char>, depends_on: Seq<Seq<char>>, path: Seq<char>, pick: Seq<Seq<char>> },
    Diff { id: Seq<char>, depends_on: Seq<Seq<char>>, a: Seq<char>, b: Seq<char>, format: DiffFormat },
    Lint { id: Seq<char>, depends_on: Seq<Seq<char>>, path: Seq<char>, tool: LintTool },
    Template { id: Seq<char>, depends_on: Seq<Seq<char>>, name: Seq<char>, builtin: Seq<char>, source: Seq<char>, output: Seq<char>, vars: Seq<(Seq<char>, Seq<char>)> },
    Snapshot { id: Seq<char>, depends_on: Seq<Seq<char>>, path: Seq<char>, snapshot_id: Seq<char> },
    Restore { id: Seq<char>, depends_on: Seq<Seq<char>>, snapshot_id: Seq<char> },
    Git { id: Seq<char>, depends_on: Seq<Seq<char>>, op: GitOp, args: Seq<Seq<char>> },
    Http { id: Seq<char>, depends_on: Seq<Seq<char>>, method: Seq<char>, url: Seq<char>, headers: Seq<(Seq<char>, Seq<char>)>, expect_status: u16, body: Option<Seq<char>> },
    Import { id: Seq<char>, depends_on: Seq<Seq<char>>, path: Seq<char>, add: Seq<Seq<char>>, remove: Seq<Seq<char>>, organize: bool },
    If { id: Seq<char>, depends_on: Seq<Seq<char>>, condition: CondView, then: Seq<StepView>, else_: Seq<StepView> },
    Each { id: Seq<char>, depends_on: Seq<Seq<char>>, over: EachOverView, as_: Seq<char>, parallel: bool, step: Box<StepView> },
    Parallel { id: Seq<char>, depends_on: Seq<Seq<char>>, steps: Seq<StepView> },
}

/// The model of a step.
pub open spec fn step_view(s: Step) -> StepView
    decreases s,
{
    match s {
        Step::Bash { id, depends_on, cmd, timeout_ms, retry } => StepView::Bash {
            id: id@,
            depends_on: views(depends_on@),
            cmd: cmd@,
            timeout_ms: timeout_ms,
            retry: retry,
        },
        Step::Read { id, depends_on, path, max_bytes, encoding, filter_imports, filter_exports, since } => StepView::Read {
            id: id@,
            depends_on: views(depends_on@),
            path: path@,
            max_bytes: max_bytes,
            encoding: opt_text(encoding),
            filter_imports: opt_text(filter_imports),
            filter_exports: opt_text(filter_exports),
            since: opt_text(since),
        },
        Step::Write { id, depends_on, path, content, create_dirs } => StepView::Write {
            id: id@,
            depends_on: views(depends_on@),
            path: path@,
            content: content@,
            create_dirs: create_dirs,
        },
        Step::Patch { id, depends_on, path, edits } => StepView::Patch {
            id: id@,
            depends_on: views(depends_on@),
            path: path@,
            edits: edits_view(edits@),
        },
        Step::Mv { id, depends_on, from, to } => StepView::Mv {
            id: id@,
            depends_on: views(depends_on@),
            from: from@,
            to: to@,
        },
        Step::Cp { id, depends_on, from, to, recursive } => StepView::Cp {
            id: id@,
            depends_on: views(depends_on@),
            from: from@,
            to: to@,
            recursive: recursive,
        },
        Step::Rm { id, depends_on, path, recursive } => StepView::Rm {
            id: id@,
            depends_on: views(depends_on@),
            path: path@,
            recursive: recursive,
        },
        Step::Mkdir { id, depends_on, path } => StepView::Mkdir {
            id: id@,
            depends_on: views(depends_on@),
            path: path@,
        },
        Step::Grep { id, depends_on, pattern, path, ext, regex, context_lines } => StepView::Grep {
            id: id@,
            depends_on: views(depends_on@),
            pattern: pattern@,
            path: path@,
            ext: views(ext@),
            regex: regex,
            context_lines: context_lines,
        },
        Step::Replace { id, depends_on, pattern, replacement, path, ext, regex, case_sensitive, glob, whole_word } => StepView::Replace {
            id: id@,
            depends_on: views(depends_on@),
            pattern: pattern@,
            replacement: replacement@,
            path: path@,
            ext: views(ext@),
            regex: regex,
            case_sensitive: case_sensitive,
            glob: opt_text(glob),
            whole_word: whole_word,
        },
        Step::Scan { id, depends_on, path, depth, included, output } => StepView::Scan {
            id: id@,
            depends_on: views(depends_on@),
            path: path@,
            depth: depth,
            included: views(included@),
            output: output,
        },
        Step::Summarize { id, depends_on, path, focus } => StepView::Summarize {
            id: id@,
            depends_on: views(depends_on@),
            path: path@,
            focus: focus@,
        },
        Step::Extract { id, depends_on, path, pick } => StepView::Extract {
            id: id@,
            depends_on: views(depends_on@),
            path: path@,
            pick: views(pick@),
        },
        Step::Diff { id, depends_on, a, b, format } => StepView::Diff {
            id: id@,
            depends_on: views(depends_on@),
            a: a@,
            b: b@,
            format: format,
        },
        Step::Lint { id, depends_on, path, tool } => StepView::Lint {
            id: id@,
            depends_on: views(depends_on@),
            path: path@,
            tool: tool,
        },
        Step::Template { id, depends_on, name, builtin, source, output, vars } => StepView::Template {
            id: id@,
            depends_on: views(depends_on@),
            name: name@,
            builtin: builtin@,
            source: source@,
            output: output@,
            vars: pair_views(vars@),
        },
        Step::Snapshot { id, depends_on, path, snapshot_id } => StepView::Snapshot {
            id: id@,
            depends_on: views(depends_on@),
            path: path@,
            snapshot_id: snapshot_id@,
        },
        Step::Restore { id, depends_on, snapshot_id } => StepView::Restore {
            id: id@,
            depends_on: views(depends_on@),
            snapshot_id: snapshot_id@,
        },
        Step::Git { id, depends_on, op, args } => StepView::Git {
            id: id@,
            depends_on: views(depends_on@),
            op: op,
            args: views(args@),
        },
        Step::Http { id, depends_on, method, url, headers, expect_status, body } => StepView::Http {
            id: id@,
            depends_on: views(depends_on@),
            method: method@,
            url: url@,
            headers: pair_views(headers@),
            expect_status: expect_status,
            body: opt_text(body),
        },
        Step::Import { id, depends_on, path, add, remove, organize } => StepView::Import {
            id: id@,
            depends_on: views(depends_on@),
            path: path@,
            add: views(add@),
            remove: views(remove@),
            organize: organize,
        },
        Step::If { id, depends_on, condition, then, else_ } => StepView::If {
            id: id@,
            depends_on: views(depends_on@),
            condition: cond_view(condition),
            then: step_views(then@),
            else_: step_views(else_@),
        },
        Step::Each { id, depends_on, over, as_, parallel, step } => StepView::Each {
            id: id@,
            depends_on: views(depends_on@),
            over: over_view(over),
            as_: as_@,
            parallel: parallel,
            step: Box::new(step_view(*step)),
        },
        Step::Parallel { id, depends_on, steps } => StepView::Parallel {
            id: id@,
            depends_on: views(depends_on@),
            steps: step_views(steps@),
        },
    }
}


} // verus!
