//! Running a pipeline: the decisions between steps.
//!
//! Executing a single step is the caller's part (it touches files, processes
//! and the network).  What is decided here: how `each` substitutes its item
//! into a step, whether an `if` condition holds, which results make up an
//! `if`, `each` or `parallel` step, and how a run proceeds and ends.
use crate::refs::{has_grep_results, has_grep_results_spec, placeholder, step_failed, step_has_status, step_ok, substitute_vars};
use crate::json::{Json, JsonView};
use crate::results::{Output, StepResult, StepTypeResult};
use crate::schema::{step_view, step_views, lemma_step_views_push, StepView, Step, copy_strings, copy_opt, copy_edits, copy_pairs, copy_condition, copy_over, Condition, EachOver, EachOverView, cond_view, cond_views, CondView, lemma_cond_views_index, lemma_cond_views_len};
use crate::text::{opt_text, pair_views, replace_all_spec, views};
use vstd::prelude::*;

verus! {

/// `s` with every `{{var}}` replaced by `val`.
pub open spec fn subst_text(s: Seq<char>, var: Seq<char>, val: Seq<char>) -> Seq<char> {
    replace_all_spec(s, placeholder(var), val)
}

/// The models of a sequence of steps, each substituted.
pub open spec fn subst_views(s: Seq<StepView>, var: Seq<char>, val: Seq<char>) -> Seq<StepView>
    decreases s,
{
    if s.len() == 0 {
        Seq::empty()
    } else {
        seq![subst_view(s[0], var, val)] + subst_views(s.subrange(1, s.len() as int), var, val)
    }
}

proof fn lemma_subst_views_push(s: Seq<StepView>, x: StepView, var: Seq<char>, val: Seq<char>)
    ensures
        subst_views(s.push(x), var, val) == subst_views(s, var, val).push(subst_view(x, var, val)),
    decreases s.len(),
{
    let t = s.push(x);
    assert(t[0] == if s.len() == 0 { x } else { s[0] });
    if s.len() == 0 {
        assert(t.subrange(1, t.len() as int) =~= Seq::<StepView>::empty());
        assert(subst_views(t.subrange(1, t.len() as int), var, val) == Seq::<StepView>::empty());
        assert(subst_views(t, var, val) =~= seq![subst_view(x, var, val)]);
        assert(subst_views(s, var, val) == Seq::<StepView>::empty());
    } else {
        let s1 = s.subrange(1, s.len() as int);
        assert(t.subrange(1, t.len() as int) =~= s1.push(x));
        lemma_subst_views_push(s1, x, var, val);
        assert(subst_views(t, var, val) == seq![subst_view(s[0], var, val)] + subst_views(
            s1.push(x),
            var,
            val,
        ));
        assert(subst_views(s, var, val) == seq![subst_view(s[0], var, val)] + subst_views(
            s1,
            var,
            val,
        ));
        assert(subst_views(t, var, val) =~= subst_views(s, var, val).push(subst_view(x, var, val)));
    }
}

/// The model of a step with `{{var}}` replaced by `val` in the fields that
/// name what the step works on; nested steps are substituted too.
pub open spec fn subst_view(s: StepView, var: Seq<char>, val: Seq<char>) -> StepView
    decreases s,
{
    match s {
        StepView::Bash { id, depends_on, cmd, timeout_ms, retry } => StepView::Bash {
            id: id,
            depends_on: depends_on,
            cmd: subst_text(cmd, var, val),
            timeout_ms: timeout_ms,
            retry: retry,
        },
        StepView::Read { id, depends_on, path, max_bytes, encoding, filter_imports, filter_exports, since } => StepView::Read {
            id: id,
            depends_on: depends_on,
            path: subst_text(path, var, val),
            max_bytes: max_bytes,
            encoding: encoding,
            filter_imports: filter_imports,
            filter_exports: filter_exports,
            since: since,
        },
        StepView::Write { id, depends_on, path, content, create_dirs } => StepView::Write {
            id: id,
            depends_on: depends_on,
            path: subst_text(path, var, val),
            content: subst_text(content, var, val),
            create_dirs: create_dirs,
        },
        StepView::Patch { id, depends_on, path, edits } => StepView::Patch {
            id: id,
            depends_on: depends_on,
            path: subst_text(path, var, val),
            edits: edits,
        },
        StepView::Mv { id, depends_on, from, to } => StepView::Mv {
            id: id,
            depends_on: depends_on,
            from: subst_text(from, var, val),
            to: subst_text(to, var, val),
        },
        StepView::Cp { id, depends_on, from, to, recursive } => StepView::Cp {
            id: id,
            depends_on: depends_on,
            from: subst_text(from, var, val),
            to: subst_text(to, var, val),
            recursive: recursive,
        },
        StepView::Rm { id, depends_on, path, recursive } => StepView::Rm {
            id: id,
            depends_on: depends_on,
            path: subst_text(path, var, val),
            recursive: recursive,
        },
        StepView::Mkdir { id, depends_on, path } => StepView::Mkdir {
            id: id,
            depends_on: depends_on,
            path: subst_text(path, var, val),
        },
        StepView::Grep { id, depends_on, pattern, path, ext, regex, context_lines } => StepView::Grep {
            id: id,
            depends_on: depends_on,
            pattern: subst_text(pattern, var, val),
            path: subst_text(path, var, val),
            ext: ext,
            regex: regex,
            context_lines: context_lines,
        },
        StepView::Replace { id, depends_on, pattern, replacement, path, ext, regex, case_sensitive, glob, whole_word } => StepView::Replace {
            id: id,
            depends_on: depends_on,
            pattern: subst_text(pattern, var, val),
            replacement: subst_text(replacement, var, val),
            path: subst_text(path, var, val),
            ext: ext,
            regex: regex,
            case_sensitive: case_sensitive,
            glob: glob,
            whole_word: whole_word,
        },
        StepView::Scan { id, depends_on, path, depth, included, output } => StepView::Scan {
            id: id,
            depends_on: depends_on,
            path: subst_text(path, var, val),
            depth: depth,
            included: included,
            output: output,
        },
        StepView::Summarize { id, depends_on, path, focus } => StepView::Summarize {
            id: id,
            depends_on: depends_on,
            path: subst_text(path, var, val),
            focus: focus,
        },
        StepView::Extract { id, depends_on, path, pick } => StepView::Extract {
            id: id,
            depends_on: depends_on,
            path: subst_text(path, var, val),
            pick: pick,
        },
        StepView::Diff { id, depends_on, a, b, format } => StepView::Diff {
            id: id,
            depends_on: depends_on,
            a: subst_text(a, var, val),
            b: subst_text(b, var, val),
            format: format,
        },
        StepView::Lint { id, depends_on, path, tool } => StepView::Lint {
            id: id,
            depends_on: depends_on,
            path: subst_text(path, var, val),
            tool: tool,
        },
        StepView::Template { id, depends_on, name, builtin, source, output, vars } => StepView::Template {
            id: id,
            depends_on: depends_on,
            name: name,
            builtin: builtin,
            source: source,
            output: subst_text(output, var, val),
            vars: vars,
        },
        StepView::Snapshot { id, depends_on, path, snapshot_id } => StepView::Snapshot {
            id: id,
            depends_on: depends_on,
            path: subst_text(path, var, val),
            snapshot_id: snapshot_id,
        },
        StepView::Restore { id, depends_on, snapshot_id } => StepView::Restore {
            id: id,
            depends_on: depends_on,
            snapshot_id: subst_text(snapshot_id, var, val),
        },
        StepView::Git { id, depends_on, op, args } => StepView::Git {
            id: id,
            depends_on: depends_on,
            op: op,
            args: args.map_values(|a: Seq<char>| subst_text(a, var, val)),
        },
        StepView::Http { id, depends_on, method, url, headers, expect_status, body } => StepView::Http {
            id: id,
            depends_on: depends_on,
            method: method,
            url: subst_text(url, var, val),
            headers: headers,
            expect_status: expect_status,
            body: body,
        },
        StepView::Import { id, depends_on, path, add, remove, organize } => StepView::Import {
            id: id,
            depends_on: depends_on,
            path: path,
            add: add,
            remove: remove,
            organize: organize,
        },
        StepView::If { id, depends_on, condition, then, else_ } => StepView::If {
            id: id,
            depends_on: depends_on,
            condition: condition,
            then: subst_views(then, var, val),
            else_: subst_views(else_, var, val),
        },
        StepView::Each { id, depends_on, over, as_, parallel, step } => StepView::Each {
            id: id,
            depends_on: depends_on,
            over: over,
            as_: as_,
            parallel: parallel,
            step: Box::new(subst_view(*step, var, val)),
        },
        StepView::Parallel { id, depends_on, steps } => StepView::Parallel {
            id: id,
            depends_on: depends_on,
            steps: subst_views(steps, var, val),
        },
    }
}


/// Every string of the list with `{{var}}` replaced by `val`.
pub fn substitute_all(v: &Vec<String>, var: &str, val: &str) -> (r: Vec<String>)
    ensures
        views(r@) == views(v@).map_values(|a: Seq<char>| subst_text(a, var@, val@)),
{
    let mut r: Vec<String> = Vec::new();
    let mut i: usize = 0;
    while i < v.len()
        invariant
            i <= v.len(),
            views(r@) == views(v@).take(i as int).map_values(|a: Seq<char>| subst_text(a, var@, val@)),
        decreases v.len() - i,
    {
        let x = substitute_vars(v[i].as_str(), var, val);
        let ghost prev = r@;
        r.push(x);
        assert(views(r@) =~= views(prev).push(x@));
        assert(views(v@).take(i + 1).map_values(|a: Seq<char>| subst_text(a, var@, val@)) =~= views(
            v@,
        ).take(i as int).map_values(|a: Seq<char>| subst_text(a, var@, val@)).push(
            subst_text(v@[i as int]@, var@, val@),
        ));
        i = i + 1;
    }
    assert(views(v@).take(v.len() as int) =~= views(v@));
    r
}

/// Every step of the list substituted.
pub fn substitute_steps(v: &Vec<Step>, var: &str, val: &str) -> (r: Vec<Step>)
    ensures
        step_views(r@) == subst_views(step_views(v@), var@, val@),
    decreases v,
{
    let mut r: Vec<Step> = Vec::new();
    let mut i: usize = 0;
    while i < v.len()
        invariant
            i <= v.len(),
            step_views(r@) == subst_views(step_views(v@.take(i as int)), var@, val@),
        decreases v.len() - i,
    {
        proof {
            vstd::std_specs::vec::axiom_vec_index_decreases(*v, i as int);
        }
        let x = substitute_step(&v[i], var, val);
        proof {
            lemma_step_views_push(r@, x);
            lemma_step_views_push(v@.take(i as int), v@[i as int]);
            lemma_subst_views_push(step_views(v@.take(i as int)), step_view(v@[i as int]), var@, val@);
            assert(v@.take(i + 1) =~= v@.take(i as int).push(v@[i as int]));
        }
        r.push(x);
        i = i + 1;
    }
    assert(v@.take(v.len() as int) =~= v@);
    r
}

/// `step` with `{{var}}` replaced by `val` in the fields that name what the
/// step works on; nested steps are substituted too.
pub fn substitute_step(step: &Step, var: &str, val: &str) -> (r: Step)
    ensures
        step_view(r) == subst_view(step_view(*step), var@, val@),
    decreases step,
{
    match step {
        Step::Bash { id, depends_on, cmd, timeout_ms, retry } => {
            Step::Bash {
                id: id.clone(),
                depends_on: copy_strings(depends_on),
                cmd: substitute_vars(cmd.as_str(), var, val),
                timeout_ms: *timeout_ms,
                retry: *retry,
            }
        },
        Step::Read { id, depends_on, path, max_bytes, encoding, filter_imports, filter_exports, since } => {
            Step::Read {
                id: id.clone(),
                depends_on: copy_strings(depends_on),
                path: substitute_vars(path.as_str(), var, val),
                max_bytes: *max_bytes,
                encoding: copy_opt(encoding),
                filter_imports: copy_opt(filter_imports),
                filter_exports: copy_opt(filter_exports),
                since: copy_opt(since),
            }
        },
        Step::Write { id, depends_on, path, content, create_dirs } => {
            Step::Write {
                id: id.clone(),
                depends_on: copy_strings(depends_on),
                path: substitute_vars(path.as_str(), var, val),
                content: substitute_vars(content.as_str(), var, val),
                create_dirs: *create_dirs,
            }
        },
        Step::Patch { id, depends_on, path, edits } => {
            Step::Patch {
                id: id.clone(),
                depends_on: copy_strings(depends_on),
                path: substitute_vars(path.as_str(), var, val),
                edits: copy_edits(edits),
            }
        },
        Step::Mv { id, depends_on, from, to } => {
            Step::Mv {
                id: id.clone(),
                depends_on: copy_strings(depends_on),
                from: substitute_vars(from.as_str(), var, val),
                to: substitute_vars(to.as_str(), var, val),
            }
        },
        Step::Cp { id, depends_on, from, to, recursive } => {
            Step::Cp {
                id: id.clone(),
                depends_on: copy_strings(depends_on),
                from: substitute_vars(from.as_str(), var, val),
                to: substitute_vars(to.as_str(), var, val),
                recursive: *recursive,
            }
        },
        Step::Rm { id, depends_on, path, recursive } => {
            Step::Rm {
                id: id.clone(),
                depends_on: copy_strings(depends_on),
                path: substitute_vars(path.as_str(), var, val),
                recursive: *recursive,
            }
        },
        Step::Mkdir { id, depends_on, path } => {
            Step::Mkdir {
                id: id.clone(),
                depends_on: copy_strings(depends_on),
                path: substitute_vars(path.as_str(), var, val),
            }
        },
        Step::Grep { id, depends_on, pattern, path, ext, regex, context_lines } => {
            Step::Grep {
                id: id.clone(),
                depends_on: copy_strings(depends_on),
                pattern: substitute_vars(pattern.as_str(), var, val),
                path: substitute_vars(path.as_str(), var, val),
                ext: copy_strings(ext),
                regex: *regex,
                context_lines: *context_lines,
            }
        },
        Step::Replace { id, depends_on, pattern, replacement, path, ext, regex, case_sensitive, glob, whole_word } => {
            Step::Replace {
                id: id.clone(),
                depends_on: copy_strings(depends_on),
                pattern: substitute_vars(pattern.as_str(), var, val),
                replacement: substitute_vars(replacement.as_str(), var, val),
                path: substitute_vars(path.as_str(), var, val),
                ext: copy_strings(ext),
                regex: *regex,
                case_sensitive: *case_sensitive,
                glob: copy_opt(glob),
                whole_word: *whole_word,
            }
        },
        Step::Scan { id, depends_on, path, depth, included, output } => {
            Step::Scan {
                id: id.clone(),
                depends_on: copy_strings(depends_on),
                path: substitute_vars(path.as_str(), var, val),
                depth: *depth,
                included: copy_strings(included),
                output: *output,
            }
        },
        Step::Summarize { id, depends_on, path, focus } => {
            Step::Summarize {
                id: id.clone(),
                depends_on: copy_strings(depends_on),
                path: substitute_vars(path.as_str(), var, val),
                focus: focus.clone(),
            }
        },
        Step::Extract { id, depends_on, path, pick } => {
            Step::Extract {
                id: id.clone(),
                depends_on: copy_strings(depends_on),
                path: substitute_vars(path.as_str(), var, val),
                pick: copy_strings(pick),
            }
        },
        Step::Diff { id, depends_on, a, b, format } => {
            Step::Diff {
                id: id.clone(),
                depends_on: copy_strings(depends_on),
                a: substitute_vars(a.as_str(), var, val),
                b: substitute_vars(b.as_str(), var, val),
                format: *format,
            }
        },
        Step::Lint { id, depends_on, path, tool } => {
            Step::Lint {
                id: id.clone(),
                depends_on: copy_strings(depends_on),
                path: substitute_vars(path.as_str(), var, val),
                tool: *tool,
            }
        },
        Step::Template { id, depends_on, name, builtin, source, output, vars } => {
            Step::Template {
                id: id.clone(),
                depends_on: copy_strings(depends_on),
                name: name.clone(),
                builtin: builtin.clone(),
                source: source.clone(),
                output: substitute_vars(output.as_str(), var, val),
                vars: copy_pairs(vars),
            }
        },
        Step::Snapshot { id, depends_on, path, snapshot_id } => {
            Step::Snapshot {
                id: id.clone(),
                depends_on: copy_strings(depends_on),
                path: substitute_vars(path.as_str(), var, val),
                snapshot_id: snapshot_id.clone(),
            }
        },
        Step::Restore { id, depends_on, snapshot_id } => {
            Step::Restore {
                id: id.clone(),
                depends_on: copy_strings(depends_on),
                snapshot_id: substitute_vars(snapshot_id.as_str(), var, val),
            }
        },
        Step::Git { id, depends_on, op, args } => {
            Step::Git {
                id: id.clone(),
                depends_on: copy_strings(depends_on),
                op: *op,
                args: substitute_all(args, var, val),
            }
        },
        Step::Http { id, depends_on, method, url, headers, expect_status, body } => {
            Step::Http {
                id: id.clone(),
                depends_on: copy_strings(depends_on),
                method: method.clone(),
                url: substitute_vars(url.as_str(), var, val),
                headers: copy_pairs(headers),
                expect_status: *expect_status,
                body: copy_opt(body),
            }
        },
        Step::Import { id, depends_on, path, add, remove, organize } => {
            Step::Import {
                id: id.clone(),
                depends_on: copy_strings(depends_on),
                path: path.clone(),
                add: copy_strings(add),
                remove: copy_strings(remove),
                organize: *organize,
            }
        },
        Step::If { id, depends_on, condition, then, else_ } => {
            Step::If {
                id: id.clone(),
                depends_on: copy_strings(depends_on),
                condition: copy_condition(condition),
                then: substitute_steps(then, var, val),
                else_: substitute_steps(else_, var, val),
            }
        },
        Step::Each { id, depends_on, over, as_, parallel, step: inner } => {
            Step::Each {
                id: id.clone(),
                depends_on: copy_strings(depends_on),
                over: copy_over(over),
                as_: as_.clone(),
                parallel: *parallel,
                step: Box::new(substitute_step(inner, var, val)),
            }
        },
        Step::Parallel { id, depends_on, steps } => {
            Step::Parallel {
                id: id.clone(),
                depends_on: copy_strings(depends_on),
                steps: substitute_steps(steps, var, val),
            }
        },
    }
}

// ---------------------------------------------------------------------------
// conditions
// ---------------------------------------------------------------------------

/// What the caller looks at for a condition: whether a path exists, what a
/// file holds, or when a file was last modified.  Paths are relative to the
/// working directory.
#[derive(Debug, Clone, Copy, PartialEq, Eq, Structural)]
pub enum ProbeKind {
    Exists,
    Read,
    Modified,
}

/// One look the caller takes for a condition.
#[derive(Debug)]
pub struct Probe {
    pub kind: ProbeKind,
    pub path: String,
}

/// What a look found: whether the path exists; the file's text, if it could
/// be read; its modification time (seconds and nanoseconds since the Unix
/// epoch, UTC), if it could be had.
#[derive(Debug)]
pub enum Fact {
    Exists(bool),
    Content(Option<String>),
    Modified(Option<(i64, u32)>),
}

/// The model of a fact.
pub enum FactView {
    Exists(bool),
    Content(Option<Seq<char>>),
    Modified(Option<(i64, u32)>),
}

pub open spec fn fact_view(f: Fact) -> FactView {
    match f {
        Fact::Exists(b) => FactView::Exists(b),
        Fact::Content(t) => FactView::Content(opt_text(t)),
        Fact::Modified(m) => FactView::Modified(m),
    }
}

pub open spec fn fact_views(s: Seq<Fact>) -> Seq<FactView> {
    s.map_values(|f: Fact| fact_view(f))
}

/// The looks a condition needs, in order, left to right.
pub open spec fn probe_list(c: CondView) -> Seq<(ProbeKind, Seq<char>)>
    decreases c,
{
    match c {
        CondView::Exists { path } => seq![(ProbeKind::Exists, path)],
        CondView::Contains { path, .. } => seq![(ProbeKind::Read, path)],
        CondView::FileChanged { path, .. } => seq![(ProbeKind::Modified, path)],
        CondView::Not { condition } => probe_list(*condition),
        CondView::And { conditions } => probe_lists(conditions),
        CondView::Or { conditions } => probe_lists(conditions),
        _ => Seq::empty(),
    }
}

pub open spec fn probe_lists(cs: Seq<CondView>) -> Seq<(ProbeKind, Seq<char>)>
    decreases cs,
{
    if cs.len() == 0 {
        Seq::empty()
    } else {
        probe_list(cs[0]) + probe_lists(cs.subrange(1, cs.len() as int))
    }
}

/// The instant an RFC 3339 date and time denotes, as seconds and nanoseconds
/// since the Unix epoch in UTC (`None` when it does not parse).
pub uninterp spec fn rfc3339_instant(s: Seq<char>) -> Option<(i64, u32)>;

/// `chrono::DateTime::parse_from_rfc3339`, converted to UTC and taken as
/// seconds and nanoseconds: the contract claims only that the result is the
/// one named for `s`.
#[verifier::external_body]
fn parse_rfc3339(s: &str) -> (r: Option<(i64, u32)>)
    ensures
        r == rfc3339_instant(s@),
{
    match chrono::DateTime::parse_from_rfc3339(s) {
        Ok(t) => {
            let u = t.with_timezone(&chrono::Utc);
            Some((u.timestamp(), u.timestamp_subsec_nanos()))
        },
        Err(_) => None,
    }
}

/// `t` is strictly later than `s`.
pub open spec fn later(t: (i64, u32), s: (i64, u32)) -> bool {
    t.0 > s.0 || (t.0 == s.0 && t.1 > s.1)
}

/// Whether a condition holds, given the facts its looks found (in the order
/// of `probe_list`) and the results of the steps run so far.  A fact of the
/// wrong kind, or a missing one, makes its leaf false.
pub open spec fn eval_cond(c: CondView, facts: Seq<FactView>, results: Seq<StepResult>) -> bool
    decreases c,
{
    match c {
        CondView::Exists { .. } => facts.len() > 0 && facts[0] == FactView::Exists(true),
        CondView::Contains { pattern, .. } => facts.len() > 0 && match facts[0] {
            FactView::Content(Some(text)) => crate::text::contains_spec(text, pattern),
            _ => false,
        },
        CondView::GrepHasResults { ref_ } => has_grep_results_spec(ref_ as int, results),
        CondView::StepOk { ref_ } => step_has_status(ref_ as int, results, "ok"@),
        CondView::StepFailed { ref_ } => step_has_status(ref_ as int, results, "error"@),
        CondView::FileChanged { since, .. } => facts.len() > 0 && match facts[0] {
            FactView::Modified(Some(t)) => match rfc3339_instant(since) {
                Some(s) => later(t, s),
                None => false,
            },
            _ => false,
        },
        CondView::Not { condition } => !eval_cond(*condition, facts, results),
        CondView::And { conditions } => eval_all(conditions, facts, results),
        CondView::Or { conditions } => eval_any(conditions, facts, results),
    }
}

/// All conditions hold, each given its own share of the facts.
pub open spec fn eval_all(cs: Seq<CondView>, facts: Seq<FactView>, results: Seq<StepResult>) -> bool
    decreases cs,
{
    if cs.len() == 0 {
        true
    } else {
        let n = probe_list(cs[0]).len() as int;
        eval_cond(cs[0], facts.take(n), results) && eval_all(
            cs.subrange(1, cs.len() as int),
            facts.skip(n),
            results,
        )
    }
}

/// Some condition holds, each given its own share of the facts.
pub open spec fn eval_any(cs: Seq<CondView>, facts: Seq<FactView>, results: Seq<StepResult>) -> bool
    decreases cs,
{
    if cs.len() == 0 {
        false
    } else {
        let n = probe_list(cs[0]).len() as int;
        eval_cond(cs[0], facts.take(n), results) || eval_any(
            cs.subrange(1, cs.len() as int),
            facts.skip(n),
            results,
        )
    }
}

/// A look by its kind and path's characters.
pub open spec fn probe_view(p: Probe) -> (ProbeKind, Seq<char>) {
    (p.kind, p.path@)
}

pub open spec fn probe_views(s: Seq<Probe>) -> Seq<(ProbeKind, Seq<char>)> {
    s.map_values(|p: Probe| probe_view(p))
}

/// Adds the looks condition `c` needs to `out`.
#[verifier::loop_isolation(false)]
fn push_probes(c: &Condition, out: &mut Vec<Probe>)
    ensures
        probe_views(final(out)@) == probe_views(old(out)@) + probe_list(cond_view(*c)),
    decreases c,
{
    let ghost start = probe_views(out@);
    match c {
        Condition::Exists { path } => {
            out.push(Probe { kind: ProbeKind::Exists, path: path.clone() });
            assert(probe_views(out@) =~= start + probe_list(cond_view(*c)));
        },
        Condition::Contains { path, .. } => {
            out.push(Probe { kind: ProbeKind::Read, path: path.clone() });
            assert(probe_views(out@) =~= start + probe_list(cond_view(*c)));
        },
        Condition::FileChanged { path, .. } => {
            out.push(Probe { kind: ProbeKind::Modified, path: path.clone() });
            assert(probe_views(out@) =~= start + probe_list(cond_view(*c)));
        },
        Condition::Not { condition } => {
            push_probes(condition, out);
        },
        Condition::And { conditions } | Condition::Or { conditions } => {
            proof {
                if c is And {
                    assert(*conditions == c->And_conditions);
                    assert(decreases_to!(*c => c->And_conditions));
                } else {
                    assert(*conditions == c->Or_conditions);
                    assert(decreases_to!(*c => c->Or_conditions));
                }
            }
            let ghost cs = cond_views(conditions@);
            proof {
                lemma_cond_views_len(conditions@);
                assert(cs.subrange(0, cs.len() as int) =~= cs);
            }
            let mut k: usize = 0;
            while k < conditions.len()
                invariant
                    k <= conditions.len(),
                    cs == cond_views(conditions@),
                    cs.len() == conditions@.len(),
                    start + probe_lists(cs) == probe_views(out@) + probe_lists(
                        cs.subrange(k as int, cs.len() as int),
                    ),
                decreases conditions.len() - k,
            {
                proof {
                    vstd::std_specs::vec::axiom_vec_index_decreases(*conditions, k as int);
                    lemma_cond_views_index(conditions@, k as int);
                    let rest = cs.subrange(k as int, cs.len() as int);
                    assert(rest[0] == cs[k as int]);
                    assert(rest.subrange(1, rest.len() as int) =~= cs.subrange(
                        k + 1,
                        cs.len() as int,
                    ));
                }
                let ghost before = probe_views(out@);
                push_probes(&conditions[k], out);
                proof {
                    let rest = cs.subrange(k as int, cs.len() as int);
                    assert(probe_lists(rest) == probe_list(cs[k as int]) + probe_lists(
                        cs.subrange(k + 1, cs.len() as int),
                    ));
                    assert(before + probe_lists(rest) =~= probe_views(out@) + probe_lists(
                        cs.subrange(k + 1, cs.len() as int),
                    ));
                }
                k = k + 1;
            }
            assert(cs.subrange(cs.len() as int, cs.len() as int) =~= Seq::<CondView>::empty());
            assert(probe_views(out@) =~= start + probe_lists(cs));
        },
        _ => {
            assert(probe_views(out@) =~= start + probe_list(cond_view(*c)));
        },
    }
}

/// The looks condition `c` needs, in order.
pub fn probes(c: &Condition) -> (r: Vec<Probe>)
    ensures
        probe_views(r@) == probe_list(cond_view(*c)),
{
    let mut out: Vec<Probe> = Vec::new();
    push_probes(c, &mut out);
    assert(probe_views(Seq::<Probe>::empty()) =~= Seq::<(ProbeKind, Seq<char>)>::empty());
    assert(probe_views(out@) =~= probe_list(cond_view(*c)));
    out
}

/// Evaluates `c` with the facts from position `at` on; returns the outcome
/// and the position after the facts it used.
#[verifier::loop_isolation(false)]
fn eval_from(c: &Condition, facts: &[Fact], at: usize, results: &[StepResult]) -> (r: (bool, usize))
    requires
        at + probe_list(cond_view(*c)).len() <= facts@.len(),
    ensures
        r.1 == at + probe_list(cond_view(*c)).len(),
        r.0 == eval_cond(cond_view(*c), fact_views(facts@).subrange(at as int, r.1 as int), results@),
    decreases c,
{
    let ghost fs = fact_views(facts@);
    match c {
        Condition::Exists { .. } => {
            let b = match &facts[at] {
                Fact::Exists(e) => *e,
                _ => false,
            };
            assert(fs.subrange(at as int, at + 1)[0] == fact_view(facts@[at as int]));
            (b, at + 1)
        },
        Condition::Contains { pattern, .. } => {
            let b = match &facts[at] {
                Fact::Content(Some(text)) => crate::text::contains_str(text.as_str(), pattern.as_str()),
                _ => false,
            };
            assert(fs.subrange(at as int, at + 1)[0] == fact_view(facts@[at as int]));
            (b, at + 1)
        },
        Condition::FileChanged { since, .. } => {
            let b = match &facts[at] {
                Fact::Modified(Some(t)) => match parse_rfc3339(since.as_str()) {
                    Some(s) => t.0 > s.0 || (t.0 == s.0 && t.1 > s.1),
                    None => false,
                },
                _ => false,
            };
            assert(fs.subrange(at as int, at + 1)[0] == fact_view(facts@[at as int]));
            (b, at + 1)
        },
        Condition::GrepHasResults { ref_ } => (has_grep_results(*ref_, results), at),
        Condition::StepOk { ref_ } => (step_ok(*ref_, results), at),
        Condition::StepFailed { ref_ } => (step_failed(*ref_, results), at),
        Condition::Not { condition } => {
            let (b, next) = eval_from(condition, facts, at, results);
            (!b, next)
        },
        Condition::And { conditions } | Condition::Or { conditions } => {
            let is_and = match c {
                Condition::And { .. } => true,
                _ => false,
            };
            proof {
                if c is And {
                    assert(*conditions == c->And_conditions);
                    assert(decreases_to!(*c => c->And_conditions));
                } else {
                    assert(*conditions == c->Or_conditions);
                    assert(decreases_to!(*c => c->Or_conditions));
                }
            }
            let ghost cs = cond_views(conditions@);
            let ghost e = at + probe_lists(cs).len();
            proof {
                lemma_cond_views_len(conditions@);
                assert(cs.subrange(0, cs.len() as int) =~= cs);
            }
            let mut acc = is_and;
            let mut pos = at;
            let mut k: usize = 0;
            while k < conditions.len()
                invariant
                    k <= conditions.len(),
                    cs == cond_views(conditions@),
                    cs.len() == conditions@.len(),
                    fs == fact_views(facts@),
                    e == at + probe_lists(cs).len(),
                    e <= facts@.len(),
                    at <= pos,
                    pos + probe_lists(cs.subrange(k as int, cs.len() as int)).len() == e,
                    is_and ==> eval_all(cs, fs.subrange(at as int, e), results@) == (acc
                        && eval_all(cs.subrange(k as int, cs.len() as int), fs.subrange(pos as int, e), results@)),
                    !is_and ==> eval_any(cs, fs.subrange(at as int, e), results@) == (acc
                        || eval_any(cs.subrange(k as int, cs.len() as int), fs.subrange(pos as int, e), results@)),
                decreases conditions.len() - k,
            {
                let ghost rest = cs.subrange(k as int, cs.len() as int);
                let ghost n = probe_list(cs[k as int]).len() as int;
                proof {
                    vstd::std_specs::vec::axiom_vec_index_decreases(*conditions, k as int);
                    lemma_cond_views_index(conditions@, k as int);
                    assert(rest[0] == cs[k as int]);
                    assert(rest.subrange(1, rest.len() as int) =~= cs.subrange(k + 1, cs.len() as int));
                    assert(fs.subrange(pos as int, e).take(n) =~= fs.subrange(pos as int, pos + n));
                    assert(fs.subrange(pos as int, e).skip(n) =~= fs.subrange(pos + n, e));
                }
                let (b, next) = eval_from(&conditions[k], facts, pos, results);
                if is_and {
                    acc = acc && b;
                } else {
                    acc = acc || b;
                }
                pos = next;
                k = k + 1;
            }
            assert(cs.subrange(cs.len() as int, cs.len() as int) =~= Seq::<CondView>::empty());
            (acc, pos)
        },
    }
}

/// Whether condition `c` holds, given the facts found for its looks (see
/// `probes`) and the results of the steps run so far.
pub fn eval_condition(c: &Condition, facts: &[Fact], results: &[StepResult]) -> (r: bool)
    requires
        facts@.len() == probe_list(cond_view(*c)).len(),
    ensures
        r == eval_cond(cond_view(*c), fact_views(facts@), results@),
{
    let (b, end) = eval_from(c, facts, 0, results);
    assert(fact_views(facts@).subrange(0, end as int) =~= fact_views(facts@));
    b
}

// ---------------------------------------------------------------------------
// composite steps
// ---------------------------------------------------------------------------

/// Every result has status `ok`.
pub open spec fn all_ok(results: Seq<StepResult>) -> bool {
    forall|i: int| 0 <= i < results.len() ==> (#[trigger] results[i]).status@ == "ok"@
}

/// The status of a composite step: `ok` when all its sub-steps are.
pub open spec fn composite_status(results: Seq<StepResult>) -> Seq<char> {
    if all_ok(results) {
        "ok"@
    } else {
        "partial"@
    }
}

/// `"ok"` when every result is ok, else `"partial"`.
pub fn composite_status_of(results: &Vec<StepResult>) -> (r: String)
    ensures
        r@ == composite_status(results@),
{
    let mut i: usize = 0;
    while i < results.len()
        invariant
            i <= results.len(),
            forall|j: int| 0 <= j < i ==> (#[trigger] results@[j]).status@ == "ok"@,
        decreases results.len() - i,
    {
        if !crate::text::same_text(results[i].status.as_str(), "ok") {
            return crate::text::owned("partial");
        }
        i = i + 1;
    }
    crate::text::owned("ok")
}

/// The steps an `if` runs: `then` when the condition holds, else `else_`.
pub fn branch_steps<'a>(condition_met: bool, then: &'a Vec<Step>, else_: &'a Vec<Step>) -> (r: &'a Vec<Step>)
    ensures
        r == if condition_met {
            then
        } else {
            else_
        },
{
    if condition_met {
        then
    } else {
        else_
    }
}

/// The record of an `if` step.
pub fn if_result(index: usize, condition_met: bool, results: Vec<StepResult>, duration_ms: u64) -> (r: StepResult)
    ensures
        r.index == index,
        r.step_type matches StepTypeResult::If { condition_met: c, branch, results: rs } && c
            == condition_met && branch@ == (if condition_met {
            "then"@
        } else {
            "else"@
        }) && rs == results,
        r.status@ == composite_status(results@),
        r.duration_ms == duration_ms,
        r.stopped_pipeline is None,
{
    let status = composite_status_of(&results);
    let branch = if condition_met {
        crate::text::owned("then")
    } else {
        crate::text::owned("else")
    };
    StepResult {
        index,
        step_type: StepTypeResult::If { condition_met, branch, results },
        status,
        duration_ms,
        stopped_pipeline: None,
    }
}

/// The record of an `each` step.
pub fn each_result(index: usize, items: Vec<String>, results: Vec<StepResult>, duration_ms: u64) -> (r: StepResult)
    ensures
        r.index == index,
        r.step_type matches StepTypeResult::Each { items: it, results: rs } && it == items && rs
            == results,
        r.status@ == composite_status(results@),
        r.duration_ms == duration_ms,
        r.stopped_pipeline is None,
{
    let status = composite_status_of(&results);
    StepResult {
        index,
        step_type: StepTypeResult::Each { items, results },
        status,
        duration_ms,
        stopped_pipeline: None,
    }
}

/// The record of a `parallel` step.
pub fn parallel_result(index: usize, results: Vec<StepResult>, duration_ms: u64) -> (r: StepResult)
    ensures
        r.index == index,
        r.step_type matches StepTypeResult::Parallel { results: rs } && rs == results,
        r.status@ == composite_status(results@),
        r.duration_ms == duration_ms,
        r.stopped_pipeline is None,
{
    let status = composite_status_of(&results);
    StepResult {
        index,
        step_type: StepTypeResult::Parallel { results },
        status,
        duration_ms,
        stopped_pipeline: None,
    }
}

/// The strings among the elements of an array value; nothing for any other
/// value or none.
pub open spec fn string_items(v: Option<JsonView>) -> Seq<Seq<char>> {
    match v {
        Some(JsonView::Array(items)) => strings_among(items),
        _ => Seq::empty(),
    }
}

pub open spec fn strings_among(items: Seq<JsonView>) -> Seq<Seq<char>>
    decreases items.len(),
{
    if items.len() == 0 {
        Seq::empty()
    } else {
        let r = strings_among(items.drop_last());
        match items.last() {
            JsonView::Str(s) => r.push(s),
            _ => r,
        }
    }
}

/// The model of what an `each` step iterates over, given earlier results.
pub open spec fn each_items_spec(over: EachOverView, results: Seq<StepResult>) -> Seq<Seq<char>> {
    match over {
        EachOverView::List(items) => items,
        EachOverView::Ref(ref_, pick) => string_items(
            crate::refs::resolve_ref_spec(ref_ as int, pick, results),
        ),
    }
}

/// The items an `each` step iterates over: its list, or the strings of the
/// array a reference resolves to.
pub fn each_items(over: &EachOver, results: &[StepResult]) -> (r: Vec<String>)
    ensures
        views(r@) == each_items_spec(crate::schema::over_view(*over), results@),
{
    match over {
        EachOver::List(list) => copy_strings(list),
        EachOver::Ref(r) => {
            let resolved = crate::refs::resolve_ref(r.ref_, r.pick.as_str(), results);
            let mut out: Vec<String> = Vec::new();
            match &resolved {
                Some(Json::Array(items)) => {
                    let ghost vs = crate::json::json_views(items@);
                    proof {
                        crate::json::lemma_views_len(items@);
                    }
                    let mut i: usize = 0;
                    while i < items.len()
                        invariant
                            i <= items.len(),
                            vs == crate::json::json_views(items@),
                            vs.len() == items@.len(),
                            views(out@) == strings_among(vs.take(i as int)),
                        decreases items.len() - i,
                    {
                        proof {
                            crate::json::lemma_views_index(items@, i as int);
                            assert(vs.take(i + 1).drop_last() =~= vs.take(i as int));
                            assert(vs.take(i + 1).last() == vs[i as int]);
                        }
                        match &items[i] {
                            Json::Str(t) => {
                                let ghost prev = out@;
                                out.push(t.clone());
                                assert(views(out@) =~= views(prev).push(t@));
                            },
                            _ => {},
                        }
                        i = i + 1;
                    }
                    assert(vs.take(items.len() as int) =~= vs);
                },
                _ => {},
            }
            out
        },
    }
}

// ---------------------------------------------------------------------------
// the run
// ---------------------------------------------------------------------------

/// The state of a run between steps: the results so far, how many executed
/// steps succeeded and failed, and whether the run has stopped.
#[derive(Debug)]
pub struct RunState {
    pub results: Vec<StepResult>,
    pub steps_ok: usize,
    pub steps_failed: usize,
    pub stopped: bool,
}

/// The status of a finished run, as decided from its counts.
pub open spec fn run_status(stopped: bool, steps_ok: usize, steps_failed: usize, n_results: nat) -> Seq<char> {
    if stopped || steps_failed > 0 {
        if steps_ok == n_results {
            "ok"@
        } else {
            "partial"@
        }
    } else {
        "ok"@
    }
}

/// The record of a step not run because the run had stopped.
pub open spec fn is_skipped_record(r: StepResult, index: usize) -> bool {
    &&& r.index == index
    &&& r.step_type matches StepTypeResult::Bash { cmd, stdout, stderr, exit_code } && cmd@
        == Seq::<char>::empty() && stdout@ == Seq::<char>::empty() && stderr@
        == "Skipped due to previous error"@ && exit_code == -1
    &&& r.status@ == "skipped"@
    &&& r.duration_ms == 0
    &&& r.stopped_pipeline == Some(true)
}

impl RunState {
    /// The counts agree with the results: executed steps are counted once,
    /// and a run only stops after a failure.
    pub open spec fn wf(&self) -> bool {
        &&& self.steps_ok + self.steps_failed <= self.results@.len()
        &&& self.stopped ==> self.steps_failed > 0
    }

    pub fn new() -> (s: Self)
        ensures
            s.wf(),
            s.results@.len() == 0,
            s.steps_ok == 0,
            s.steps_failed == 0,
            !s.stopped,
    {
        RunState { results: Vec::new(), steps_ok: 0, steps_failed: 0, stopped: false }
    }

    /// Records step `index` as skipped.
    pub fn skip(&mut self, index: usize)
        requires
            old(self).wf(),
            old(self).results@.len() < usize::MAX,
        ensures
            final(self).wf(),
            final(self).results@.len() == old(self).results@.len() + 1,
            final(self).results@.take(old(self).results@.len() as int) == old(self).results@,
            is_skipped_record(final(self).results@.last(), index),
            final(self).steps_ok == old(self).steps_ok,
            final(self).steps_failed == old(self).steps_failed,
            final(self).stopped == old(self).stopped,
            old(self).stopped ==> forall|o: StepResult, stop_on_error: bool|
                #[trigger] run_step(*old(self), *final(self), index, o, stop_on_error),
    {
        let r = StepResult {
            index,
            step_type: StepTypeResult::Bash {
                cmd: String::new(),
                stdout: String::new(),
                stderr: crate::text::owned("Skipped due to previous error"),
                exit_code: -1,
            },
            status: crate::text::owned("skipped"),
            duration_ms: 0,
            stopped_pipeline: Some(true),
        };
        let ghost before = self.results@;
        self.results.push(r);
        assert(self.results@.take(before.len() as int) =~= before);
    }

    /// Records the result of an executed step; a failure stops the run when
    /// `stop_on_error` is set.
    pub fn record(&mut self, result: StepResult, stop_on_error: bool)
        requires
            old(self).wf(),
            old(self).results@.len() < usize::MAX,
        ensures
            final(self).wf(),
            final(self).results@ == old(self).results@.push(result),
            result.status@ == "ok"@ ==> {
                &&& final(self).steps_ok == old(self).steps_ok + 1
                &&& final(self).steps_failed == old(self).steps_failed
                &&& final(self).stopped == old(self).stopped
            },
            result.status@ != "ok"@ ==> {
                &&& final(self).steps_ok == old(self).steps_ok
                &&& final(self).steps_failed == old(self).steps_failed + 1
                &&& final(self).stopped == (old(self).stopped || stop_on_error)
            },
            !old(self).stopped ==> forall|index: usize|
                #[trigger] run_step(*old(self), *final(self), index, result, stop_on_error),
    {
        if crate::text::same_text(result.status.as_str(), "ok") {
            self.steps_ok = self.steps_ok + 1;
        } else {
            self.steps_failed = self.steps_failed + 1;
            if stop_on_error {
                self.stopped = true;
            }
        }
        self.results.push(result);
    }

    /// The outcome of the run over `steps_total` steps.
    pub fn finish(self, steps_total: usize, duration_ms: u64) -> (out: Output)
        ensures
            out.status@ == run_status(self.stopped, self.steps_ok, self.steps_failed, self.results@.len()),
            out.steps_total == steps_total,
            out.steps_ok == self.steps_ok,
            out.steps_failed == self.steps_failed,
            out.duration_ms == duration_ms,
            out.results == self.results,
    {
        let status = if self.stopped || self.steps_failed > 0 {
            if self.steps_ok == self.results.len() {
                crate::text::owned("ok")
            } else {
                crate::text::owned("partial")
            }
        } else {
            crate::text::owned("ok")
        };
        Output {
            status,
            steps_total,
            steps_ok: self.steps_ok,
            steps_failed: self.steps_failed,
            duration_ms,
            results: self.results,
        }
    }
}

/// The exit code of a finished run: success when its status is `ok`,
/// partial otherwise.
pub fn exit_code_for(status: &str) -> (r: crate::error::ExitCode)
    ensures
        r == (if status@ == "ok"@ { crate::error::ExitCode::Success } else { crate::error::ExitCode::Partial }),
{
    if crate::text::same_text(status, "ok") {
        crate::error::ExitCode::Success
    } else {
        crate::error::ExitCode::Partial
    }
}

/// A run ends `ok` exactly when none of its executed steps failed.
pub proof fn lemma_run_ok_iff_no_failure(s: RunState)
    requires
        s.wf(),
    ensures
        (run_status(s.stopped, s.steps_ok, s.steps_failed, s.results@.len()) == "ok"@) <==> (
        s.steps_failed == 0),
{
    reveal_strlit("ok");
    reveal_strlit("partial");
    assert("ok"@.len() != "partial"@.len());
}

/// One step of a run, from `prev` to `next`: a stopped run records step
/// `index` as skipped and counts nothing; a running one records `outcome`,
/// what executing the step gave, counts it as ok or failed, and stops on a
/// failure when `stop_on_error` is set.
pub open spec fn run_step(
    prev: RunState,
    next: RunState,
    index: usize,
    outcome: StepResult,
    stop_on_error: bool,
) -> bool {
    if prev.stopped {
        &&& next.results@.len() == prev.results@.len() + 1
        &&& next.results@.drop_last() == prev.results@
        &&& is_skipped_record(next.results@.last(), index)
        &&& next.steps_ok == prev.steps_ok
        &&& next.steps_failed == prev.steps_failed
        &&& next.stopped == prev.stopped
    } else {
        &&& next.results@ == prev.results@.push(outcome)
        &&& outcome.status@ == "ok"@ ==> {
            &&& next.steps_ok == prev.steps_ok + 1
            &&& next.steps_failed == prev.steps_failed
            &&& next.stopped == prev.stopped
        }
        &&& outcome.status@ != "ok"@ ==> {
            &&& next.steps_ok == prev.steps_ok
            &&& next.steps_failed == prev.steps_failed + 1
            &&& next.stopped == (prev.stopped || stop_on_error)
        }
    }
}

/// `states` is a run over steps whose execution would give `outcomes`: it
/// starts from a new state and takes one [`run_step`] per step, step `i`
/// under index `i`.
pub open spec fn is_run(states: Seq<RunState>, outcomes: Seq<StepResult>, stop_on_error: bool) -> bool {
    &&& states.len() == outcomes.len() + 1
    &&& states[0].results@.len() == 0
    &&& states[0].steps_ok == 0
    &&& states[0].steps_failed == 0
    &&& !states[0].stopped
    &&& forall|i: int|
        #![trigger outcomes[i]]
        0 <= i < outcomes.len() ==> run_step(states[i], states[i + 1], i as usize, outcomes[i], stop_on_error)
}

/// How many of `rs` have status `ok`.
pub open spec fn count_ok(rs: Seq<StepResult>) -> nat
    decreases rs.len(),
{
    if rs.len() == 0 {
        0
    } else {
        count_ok(rs.drop_last()) + if rs.last().status@ == "ok"@ {
            1nat
        } else {
            0nat
        }
    }
}

/// What holds of the state after the first `m` steps of a run.
spec fn run_prefix_facts(states: Seq<RunState>, outcomes: Seq<StepResult>, stop_on_error: bool, m: int) -> bool {
    let st = states[m];
    let rs = st.results@;
    &&& rs.len() == m
    &&& forall|i: int| 0 <= i < m ==> (#[trigger] rs[i]).index == i
    &&& st.steps_ok == count_ok(rs)
    &&& st.wf()
    &&& st.stopped ==> stop_on_error
    &&& (stop_on_error && exists|k: int| 0 <= k < m && (#[trigger] rs[k]).status@ != "ok"@) ==> st.stopped
    &&& !stop_on_error ==> rs == outcomes.take(m)
    &&& forall|k: int, j: int|
        #![trigger rs[k], rs[j]]
        0 <= k < j < m && stop_on_error && rs[k].status@ != "ok"@ ==> is_skipped_record(rs[j], j as usize)
}

proof fn lemma_run_prefix(states: Seq<RunState>, outcomes: Seq<StepResult>, stop_on_error: bool, m: int)
    requires
        is_run(states, outcomes, stop_on_error),
        forall|i: int| 0 <= i < outcomes.len() ==> (#[trigger] outcomes[i]).index == i,
        outcomes.len() < usize::MAX,
        0 <= m <= outcomes.len(),
    ensures
        run_prefix_facts(states, outcomes, stop_on_error, m),
    decreases m,
{
    reveal_strlit("ok");
    if m == 0 {
        assert(states[0].results@ =~= outcomes.take(0));
    } else {
        let i = m - 1;
        lemma_run_prefix(states, outcomes, stop_on_error, i);
        let prev = states[i];
        let st = states[m];
        let o = outcomes[i];
        assert(run_step(states[i], states[i + 1], i as usize, o, stop_on_error));
        let pr = prev.results@;
        let rs = st.results@;
        assert(rs.drop_last() =~= pr);
        assert forall|k: int| 0 <= k < i implies rs[k] == pr[k] by {
            assert(rs.drop_last()[k] == rs[k]);
        }
        assert(count_ok(rs) == count_ok(pr) + if rs.last().status@ == "ok"@ { 1nat } else { 0nat });
        if prev.stopped {
            assert(rs.last().status@ == "skipped"@);
            reveal_strlit("skipped");
            assert("skipped"@.len() != "ok"@.len());
            assert(rs.last().status@ != "ok"@);
        } else {
            assert(rs.last() == o);
            if !stop_on_error {
                assert(rs =~= outcomes.take(m));
            }
        }
        assert forall|k: int| 0 <= k < m implies (#[trigger] rs[k]).index == k by {
            if k < i {
                assert(rs[k] == pr[k]);
            }
        }
        if stop_on_error && exists|k: int| 0 <= k < m && (#[trigger] rs[k]).status@ != "ok"@ {
            let k = choose|k: int| 0 <= k < m && (#[trigger] rs[k]).status@ != "ok"@;
            if k < i {
                assert(pr[k] == rs[k]);
                assert(prev.stopped);
            }
        }
        assert forall|k: int, j: int|
            #![trigger rs[k], rs[j]]
            0 <= k < j < m && stop_on_error && rs[k].status@ != "ok"@ implies is_skipped_record(
            rs[j],
            j as usize,
        ) by {
            assert(rs[k] == pr[k]);
            if j < i {
                assert(rs[j] == pr[j]);
            } else {
                assert(pr[k].status@ != "ok"@);
                assert(prev.stopped);
            }
        }
    }
}

/// A run over `n` steps, whose executed steps give results under their own
/// index, records one result per step, in order and under its index; counts
/// as ok exactly the results whose status is `ok`; ends with status `ok`
/// exactly when no executed step failed; with `stop_on_error`, records every
/// step after the first that was not ok as skipped, with `stopped_pipeline`
/// set; and without it records every step's own result.
pub proof fn lemma_run_law(states: Seq<RunState>, outcomes: Seq<StepResult>, stop_on_error: bool)
    requires
        is_run(states, outcomes, stop_on_error),
        forall|i: int| 0 <= i < outcomes.len() ==> (#[trigger] outcomes[i]).index == i,
        outcomes.len() < usize::MAX,
    ensures
        ({
            let f = states.last();
            let rs = f.results@;
            &&& rs.len() == outcomes.len()
            &&& forall|i: int| 0 <= i < rs.len() ==> (#[trigger] rs[i]).index == i
            &&& f.steps_ok == count_ok(rs)
            &&& (run_status(f.stopped, f.steps_ok, f.steps_failed, rs.len()) == "ok"@) <==> (f.steps_failed == 0)
            &&& forall|k: int, j: int|
                #![trigger rs[k], rs[j]]
                0 <= k < j < rs.len() && stop_on_error && rs[k].status@ != "ok"@ ==> is_skipped_record(rs[j], j as usize)
            &&& !stop_on_error ==> rs == outcomes
        }),
{
    let n = outcomes.len() as int;
    lemma_run_prefix(states, outcomes, stop_on_error, n);
    assert(states.last() == states[n]);
    assert(outcomes.take(n) =~= outcomes);
    lemma_run_ok_iff_no_failure(states[n]);
}

} // verus!
