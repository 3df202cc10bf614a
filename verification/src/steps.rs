//! What the primitive steps decide around their outside work: the commands
//! they run, the paths they use, and the records they produce from what the
//! work gave.
use crate::json::{entries_map, json_views, lemma_views_push, obj_insert, Json, JsonView};
use crate::results::{strs_json, StepResult, StepTypeResult};
use crate::schema::{DiffFormat, FileContent, FileSummary, GitOp, PatchEdit};
use crate::text::{
    chars_of, contains_chars, contains_spec, contains_str, dec, lines_of, lines_spec, owned, push_dec,
    push_str, replace_all, replace_all_spec, same_text, starts_with_chars, starts_with_spec, string_of,
    trim_chars, trim_spec, views, vviews,
};
use vstd::prelude::*;

verus! {

/// `"ok"` when `ok`, else `"error"`.
pub open spec fn ok_or_error(ok: bool) -> Seq<char> {
    if ok {
        "ok"@
    } else {
        "error"@
    }
}

fn status_of(ok: bool) -> (r: String)
    ensures
        r@ == ok_or_error(ok),
{
    if ok {
        owned("ok")
    } else {
        owned("error")
    }
}

/// What running a process gave: its output and exit code (-1 when it was
/// ended by a signal), or the reason it could not be started.
#[derive(Debug)]
pub enum ProcessOutcome {
    Ran { stdout: String, stderr: String, exit_code: i32 },
    Failed(String),
}

// ---------------------------------------------------------------------------
// bash
// ---------------------------------------------------------------------------

/// The program and arguments that run a shell command: `cmd /C` on Windows,
/// `sh -c` elsewhere.
pub fn shell_command(cmd: &str, windows: bool) -> (r: (String, Vec<String>))
    ensures
        windows ==> r.0@ == "cmd"@ && views(r.1@) == seq!["/C"@, cmd@],
        !windows ==> r.0@ == "sh"@ && views(r.1@) == seq!["-c"@, cmd@],
{
    let mut args: Vec<String> = Vec::new();
    if windows {
        args.push(owned("/C"));
        args.push(owned(cmd));
        assert(views(args@) =~= seq!["/C"@, cmd@]);
        (owned("cmd"), args)
    } else {
        args.push(owned("-c"));
        args.push(owned(cmd));
        assert(views(args@) =~= seq!["-c"@, cmd@]);
        (owned("sh"), args)
    }
}

/// The record of a `bash` step: ok when the command exited with 0.
pub fn bash_result(cmd: &str, outcome: ProcessOutcome, duration_ms: u64) -> (r: StepResult)
    ensures
        r.index == 0,
        r.stopped_pipeline is None,
        r.duration_ms == duration_ms,
        match outcome {
            ProcessOutcome::Ran { stdout, stderr, exit_code } => {
                &&& r.step_type matches StepTypeResult::Bash { cmd: c, stdout: o, stderr: e, exit_code: x } && c@ == cmd@ && o == stdout && e == stderr && x == exit_code
                &&& r.status@ == ok_or_error(exit_code == 0)
            },
            ProcessOutcome::Failed(err) => {
                &&& r.step_type matches StepTypeResult::Bash { cmd: c, stdout: o, stderr: e, exit_code: x } && c@ == cmd@ && o@ == Seq::<char>::empty() && e == err && x == -1
                &&& r.status@ == "error"@
            },
        },
{
    match outcome {
        ProcessOutcome::Ran { stdout, stderr, exit_code } => StepResult {
            index: 0,
            step_type: StepTypeResult::Bash { cmd: owned(cmd), stdout, stderr, exit_code },
            status: status_of(exit_code == 0),
            duration_ms,
            stopped_pipeline: None,
        },
        ProcessOutcome::Failed(err) => StepResult {
            index: 0,
            step_type: StepTypeResult::Bash {
                cmd: owned(cmd),
                stdout: String::new(),
                stderr: err,
                exit_code: -1,
            },
            status: owned("error"),
            duration_ms,
            stopped_pipeline: None,
        },
    }
}

// ---------------------------------------------------------------------------
// files
// ---------------------------------------------------------------------------

/// The record of a `mkdir` step.
pub fn mkdir_result(path: &str, ok: bool, duration_ms: u64) -> (r: StepResult)
    ensures
        r.index == 0,
        r.step_type matches StepTypeResult::Mkdir { path: p } && p@ == path@,
        r.status@ == ok_or_error(ok),
        r.duration_ms == duration_ms,
        r.stopped_pipeline is None,
{
    StepResult {
        index: 0,
        step_type: StepTypeResult::Mkdir { path: owned(path) },
        status: status_of(ok),
        duration_ms,
        stopped_pipeline: None,
    }
}

/// The record of an `mv` step.
pub fn mv_result(from: &str, to: &str, ok: bool, duration_ms: u64) -> (r: StepResult)
    ensures
        r.index == 0,
        r.step_type matches StepTypeResult::Mv { from: f, to: t } && f@ == from@ && t@ == to@,
        r.status@ == ok_or_error(ok),
        r.duration_ms == duration_ms,
        r.stopped_pipeline is None,
{
    StepResult {
        index: 0,
        step_type: StepTypeResult::Mv { from: owned(from), to: owned(to) },
        status: status_of(ok),
        duration_ms,
        stopped_pipeline: None,
    }
}

/// The record of a `read` step: an error when some file could not be read.
pub fn read_result(path: &str, files: Vec<FileContent>, read_failed: bool, duration_ms: u64) -> (r: StepResult)
    ensures
        r.index == 0,
        r.step_type matches StepTypeResult::Read { path: p, files: f, files_filtered, filter_reason } && p@ == path@ && f == files && files_filtered == 0 && filter_reason is None,
        r.status@ == ok_or_error(!read_failed),
        r.duration_ms == duration_ms,
        r.stopped_pipeline is None,
{
    StepResult {
        index: 0,
        step_type: StepTypeResult::Read {
            path: owned(path),
            files,
            files_filtered: 0,
            filter_reason: None,
        },
        status: status_of(!read_failed),
        duration_ms,
        stopped_pipeline: None,
    }
}

/// The archive of snapshot `id`, relative to the working directory.
pub fn snapshot_file(id: &str) -> (r: String)
    ensures
        r@ == ".rok/snapshots/"@ + id@ + ".tar.gz"@,
{
    let mut r = owned(".rok/snapshots/");
    push_str(&mut r, id);
    push_str(&mut r, ".tar.gz");
    r
}

/// The record of a `snapshot` step.
pub fn snapshot_result(path: &str, id: &str, archived: bool, duration_ms: u64) -> (r: StepResult)
    ensures
        r.index == 0,
        r.step_type matches StepTypeResult::Snapshot { path: p, id: i, archived: a } && p@ == path@ && i@ == id@ && a == archived,
        r.status@ == ok_or_error(archived),
        r.duration_ms == duration_ms,
        r.stopped_pipeline is None,
{
    StepResult {
        index: 0,
        step_type: StepTypeResult::Snapshot { path: owned(path), id: owned(id), archived },
        status: status_of(archived),
        duration_ms,
        stopped_pipeline: None,
    }
}

/// The record of a `restore` step.
pub fn restore_result(id: &str, restored: bool, duration_ms: u64) -> (r: StepResult)
    ensures
        r.index == 0,
        r.step_type matches StepTypeResult::Restore { id: i, restored: x } && i@ == id@ && x == restored,
        r.status@ == ok_or_error(restored),
        r.duration_ms == duration_ms,
        r.stopped_pipeline is None,
{
    StepResult {
        index: 0,
        step_type: StepTypeResult::Restore { id: owned(id), restored },
        status: status_of(restored),
        duration_ms,
        stopped_pipeline: None,
    }
}

/// The record of a `template` step.
pub fn template_result(output: &str, rendered: bool, duration_ms: u64) -> (r: StepResult)
    ensures
        r.index == 0,
        r.step_type matches StepTypeResult::Template { output: o, rendered: x } && o@ == output@ && x == rendered,
        r.status@ == ok_or_error(rendered),
        r.duration_ms == duration_ms,
        r.stopped_pipeline is None,
{
    StepResult {
        index: 0,
        step_type: StepTypeResult::Template { output: owned(output), rendered },
        status: status_of(rendered),
        duration_ms,
        stopped_pipeline: None,
    }
}

/// The record of an `import` step; a missing file is an error with nothing
/// changed.
pub fn import_result(path: &str, found: bool, added: Vec<String>, removed: Vec<String>, organize: bool, duration_ms: u64) -> (r: StepResult)
    ensures
        r.index == 0,
        found ==> (r.step_type matches StepTypeResult::Import { path: p, added: a, removed: d, organized: o } && p@ == path@ && a == added && d == removed && o == organize),
        !found ==> (r.step_type matches StepTypeResult::Import { path: p, added: a, removed: d, organized: o } && p@ == path@ && a@.len() == 0 && d@.len() == 0 && !o),
        r.status@ == ok_or_error(found),
        found ==> r.duration_ms == duration_ms,
        !found ==> r.duration_ms == 0,
        r.stopped_pipeline is None,
{
    if found {
        StepResult {
            index: 0,
            step_type: StepTypeResult::Import { path: owned(path), added, removed, organized: organize },
            status: owned("ok"),
            duration_ms,
            stopped_pipeline: None,
        }
    } else {
        StepResult {
            index: 0,
            step_type: StepTypeResult::Import {
                path: owned(path),
                added: Vec::new(),
                removed: Vec::new(),
                organized: false,
            },
            status: owned("error"),
            duration_ms: 0,
            stopped_pipeline: None,
        }
    }
}

// ---------------------------------------------------------------------------
// patch and diff
// ---------------------------------------------------------------------------

/// The edits applied in order: each one whose `find` the content holds
/// replaces every occurrence; gives the content and how many applied.
pub open spec fn edits_spec(content: Seq<char>, edits: Seq<PatchEdit>) -> (Seq<char>, nat)
    decreases edits.len(),
{
    if edits.len() == 0 {
        (content, 0)
    } else {
        let (c, n) = edits_spec(content, edits.drop_last());
        let e = edits.last();
        if contains_spec(c, e.find@) {
            (replace_all_spec(c, e.find@, e.replace@), n + 1)
        } else {
            (c, n)
        }
    }
}

/// Applies the edits of a `patch` step.
pub fn apply_edits(content: &str, edits: &[PatchEdit]) -> (r: (String, usize))
    ensures
        r.0@ == edits_spec(content@, edits@).0,
        r.1 == edits_spec(content@, edits@).1,
{
    let mut c = owned(content);
    let mut n: usize = 0;
    let mut i: usize = 0;
    while i < edits.len()
        invariant
            i <= edits.len(),
            n <= i,
            (c@, n as nat) == edits_spec(content@, edits@.take(i as int)),
        decreases edits.len() - i,
    {
        assert(edits@.take(i + 1).drop_last() =~= edits@.take(i as int));
        assert(edits@.take(i + 1).last() == edits@[i as int]);
        if contains_str(c.as_str(), edits[i].find.as_str()) {
            c = replace_all(c.as_str(), edits[i].find.as_str(), edits[i].replace.as_str());
            n = n + 1;
        }
        i = i + 1;
    }
    assert(edits@.take(edits.len() as int) =~= edits@);
    (c, n)
}

/// A unified diff between two texts, line by line, under the given header
/// names.
pub uninterp spec fn unified_diff_text(a: Seq<char>, b: Seq<char>, name_a: Seq<char>, name_b: Seq<char>) -> Seq<char>;

/// `similar::TextDiff::from_lines(a, b).unified_diff().header(name_a,
/// name_b).to_string()`: the contract claims only that the result is the
/// one named for the arguments.
#[verifier::external_body]
pub(crate) fn unified_diff(a: &str, b: &str, name_a: &str, name_b: &str) -> (r: String)
    ensures
        r@ == unified_diff_text(a@, b@, name_a@, name_b@),
{
    similar::TextDiff::from_lines(a, b).unified_diff().header(name_a, name_b).to_string()
}

/// The record of a `patch` step, with the diff between the old and new
/// content; an error when the new content could not be written.
pub fn patch_result(path: &str, original: &str, content: &str, edits_applied: usize, written: bool, duration_ms: u64) -> (r: StepResult)
    ensures
        r.index == 0,
        r.step_type matches StepTypeResult::Patch { path: p, edits_applied: n, diff: Some(d) } && p@ == path@ && n == edits_applied && d@ == unified_diff_text(original@, content@, "a"@, "b"@),
        r.status@ == ok_or_error(written),
        r.duration_ms == duration_ms,
        r.stopped_pipeline is None,
{
    let d = unified_diff(original, content, "a", "b");
    StepResult {
        index: 0,
        step_type: StepTypeResult::Patch { path: owned(path), edits_applied, diff: Some(d) },
        status: status_of(written),
        duration_ms,
        stopped_pipeline: None,
    }
}

/// An operation of a line diff (`similar::DiffOp`): where it starts in the
/// old and new texts and how many lines it covers in each.
#[derive(Debug, Clone, Copy)]
pub enum LineOp {
    Equal { old_index: usize, new_index: usize, len: usize },
    Delete { old_index: usize, old_len: usize, new_index: usize },
    Insert { old_index: usize, new_index: usize, new_len: usize },
    Replace { old_index: usize, old_len: usize, new_index: usize, new_len: usize },
}

/// The operations of a line diff of `a` into `b`, in groups with three
/// lines of context (`grouped_ops(3)`).
pub uninterp spec fn line_diff_groups(a: Seq<char>, b: Seq<char>) -> Seq<Seq<LineOp>>;

/// `similar::TextDiff::from_lines(a, b).grouped_ops(3)`, each operation
/// taken over field for field: the contract claims only that the result is
/// the one named for the texts.
#[verifier::external_body]
fn grouped_line_ops(a: &str, b: &str) -> (r: Vec<Vec<LineOp>>)
    ensures
        r@.map_values(|g: Vec<LineOp>| g@) == line_diff_groups(a@, b@),
{
    similar::TextDiff::from_lines(a, b).grouped_ops(3).into_iter().map(|g| g.into_iter().map(|op| match op {
        similar::DiffOp::Equal { old_index, new_index, len } => LineOp::Equal { old_index, new_index, len },
        similar::DiffOp::Delete { old_index, old_len, new_index } => LineOp::Delete { old_index, old_len, new_index },
        similar::DiffOp::Insert { old_index, new_index, new_len } => LineOp::Insert { old_index, new_index, new_len },
        similar::DiffOp::Replace { old_index, old_len, new_index, new_len } => LineOp::Replace { old_index, old_len, new_index, new_len },
    }).collect()).collect()
}

/// The operations of the groups, one group after another.
pub open spec fn flatten_ops(groups: Seq<Seq<LineOp>>) -> Seq<LineOp>
    decreases groups.len(),
{
    if groups.len() == 0 {
        Seq::empty()
    } else {
        flatten_ops(groups.drop_last()) + groups.last()
    }
}

/// The old start of an operation (`DiffOp::old_range().start`).
pub open spec fn old_start(op: LineOp) -> usize {
    match op {
        LineOp::Equal { old_index, .. } => old_index,
        LineOp::Delete { old_index, .. } => old_index,
        LineOp::Insert { old_index, .. } => old_index,
        LineOp::Replace { old_index, .. } => old_index,
    }
}

/// The lines an operation adds: its changes of kind `Insert`
/// (`iter_changes` gives a replacement's deletions, then its insertions).
pub open spec fn inserted(op: LineOp) -> nat {
    match op {
        LineOp::Insert { new_len, .. } => new_len as nat,
        LineOp::Replace { new_len, .. } => new_len as nat,
        _ => 0,
    }
}

/// The lines an operation removes: its changes of kind `Delete`.
pub open spec fn deleted(op: LineOp) -> nat {
    match op {
        LineOp::Delete { old_len, .. } => old_len as nat,
        LineOp::Replace { old_len, .. } => old_len as nat,
        _ => 0,
    }
}

pub open spec fn sum_inserted(ops: Seq<LineOp>) -> nat
    decreases ops.len(),
{
    if ops.len() == 0 {
        0
    } else {
        sum_inserted(ops.drop_last()) + inserted(ops.last())
    }
}

pub open spec fn sum_deleted(ops: Seq<LineOp>) -> nat
    decreases ops.len(),
{
    if ops.len() == 0 {
        0
    } else {
        sum_deleted(ops.drop_last()) + deleted(ops.last())
    }
}

/// The operations of a line diff of `a` into `b`, in order.
pub open spec fn line_diff_ops(a: Seq<char>, b: Seq<char>) -> Seq<LineOp> {
    flatten_ops(line_diff_groups(a, b))
}

/// The changed sections named in a diff record: the start of the first
/// operation, if there is one.
pub open spec fn sections_spec(ops: Seq<LineOp>) -> Seq<Seq<char>> {
    if ops.len() == 0 {
        Seq::empty()
    } else {
        seq!["line "@ + dec(old_start(ops[0]) as nat)]
    }
}

/// The record of a `diff` step over two texts: lines added and removed,
/// where the changes start, and the unified diff when asked for.  `None`
/// when the counts do not fit in `usize`.
pub fn diff_result(a: &str, b: &str, a_text: &str, b_text: &str, format: DiffFormat, duration_ms: u64) -> (r: Option<StepResult>)
    ensures
        ({
            let ops = line_diff_ops(a_text@, b_text@);
            let added = sum_inserted(ops);
            let removed = sum_deleted(ops);
            match r {
                Some(res) => {
                    &&& res.step_type matches StepTypeResult::Diff { a: x, b: y, added: ad, removed: rm, changed_sections: cs, is_identical, unified_diff: u }
                        && x@ == a@ && y@ == b@ && ad == added && rm == removed
                        && views(cs@) == sections_spec(ops)
                        && is_identical == (added == 0 && removed == 0)
                        && (format == DiffFormat::Unified ==> (u matches Some(t) && t@ == unified_diff_text(a_text@, b_text@, a@, b@)))
                        && (format != DiffFormat::Unified ==> u is None)
                    &&& res.status@ == "ok"@
                    &&& res.index == 0
                    &&& res.duration_ms == duration_ms
                    &&& res.stopped_pipeline is None
                },
                None => added > usize::MAX || removed > usize::MAX,
            }
        }),
{
    let groups = grouped_line_ops(a_text, b_text);
    let ghost gv = groups@.map_values(|g: Vec<LineOp>| g@);
    let mut ops: Vec<LineOp> = Vec::new();
    let mut gi: usize = 0;
    assert(gv.take(0) =~= Seq::<Seq<LineOp>>::empty());
    while gi < groups.len()
        invariant
            gi <= groups@.len(),
            gv == groups@.map_values(|g: Vec<LineOp>| g@),
            ops@ == flatten_ops(gv.take(gi as int)),
        decreases groups.len() - gi,
    {
        let g = &groups[gi];
        let ghost before = ops@;
        let mut k: usize = 0;
        while k < g.len()
            invariant
                k <= g@.len(),
                ops@ == before + g@.take(k as int),
            decreases g.len() - k,
        {
            ops.push(g[k]);
            assert(g@.take(k + 1) =~= g@.take(k as int).push(g@[k as int]));
            k = k + 1;
        }
        assert(g@.take(g@.len() as int) =~= g@);
        assert(gv.take(gi + 1).drop_last() =~= gv.take(gi as int));
        assert(gv.take(gi + 1).last() == g@);
        gi = gi + 1;
    }
    assert(gv.take(groups@.len() as int) =~= gv);
    let ghost ov = ops@;
    let mut added: u128 = 0;
    let mut removed: u128 = 0;
    let mut i: usize = 0;
    while i < ops.len()
        invariant
            i <= ops.len(),
            ov == ops@,
            added == sum_inserted(ov.take(i as int)),
            removed == sum_deleted(ov.take(i as int)),
            added <= i * usize::MAX,
            removed <= i * usize::MAX,
        decreases ops.len() - i,
    {
        assert(ov.take(i + 1).drop_last() =~= ov.take(i as int));
        assert(ov.take(i + 1).last() == ops@[i as int]);
        let (ins, del): (usize, usize) = match ops[i] {
            LineOp::Equal { .. } => (0, 0),
            LineOp::Delete { old_len, .. } => (0, old_len),
            LineOp::Insert { new_len, .. } => (new_len, 0),
            LineOp::Replace { old_len, new_len, .. } => (new_len, old_len),
        };
        let ghost m = usize::MAX as int;
        assert((i + 1) * m == i * m + m) by (nonlinear_arith);
        assert(i * m + m <= m * m) by (nonlinear_arith)
            requires
                0 <= i < m,
        ;
        assert(m * m < 0x1_0000_0000_0000_0000_0000_0000_0000_0000 - 1) by (nonlinear_arith)
            requires
                0 < m <= 0xffff_ffff_ffff_ffff,
        ;
        assert(added + ins <= (i + 1) * m);
        assert(removed + del <= (i + 1) * m);
        added = added + ins as u128;
        removed = removed + del as u128;
        i = i + 1;
    }
    assert(ov.take(ops.len() as int) =~= ov);
    if added > usize::MAX as u128 || removed > usize::MAX as u128 {
        return None;
    }
    let mut sections: Vec<String> = Vec::new();
    if ops.len() > 0 {
        let start = match ops[0] {
            LineOp::Equal { old_index, .. } => old_index,
            LineOp::Delete { old_index, .. } => old_index,
            LineOp::Insert { old_index, .. } => old_index,
            LineOp::Replace { old_index, .. } => old_index,
        };
        let mut s = owned("line ");
        push_dec(&mut s, start as u64);
        sections.push(s);
        assert(views(sections@) =~= seq!["line "@ + dec(old_start(ops@[0]) as nat)]);
    } else {
        assert(views(sections@) =~= Seq::<Seq<char>>::empty());
    }
    let unified = match format {
        DiffFormat::Unified => Some(unified_diff(a_text, b_text, a, b)),
        _ => None,
    };
    let ad = added as usize;
    let rm = removed as usize;
    Some(StepResult {
        index: 0,
        step_type: StepTypeResult::Diff {
            a: owned(a),
            b: owned(b),
            added: ad,
            removed: rm,
            changed_sections: sections,
            is_identical: ad == 0 && rm == 0,
            unified_diff: unified,
        },
        status: owned("ok"),
        duration_ms,
        stopped_pipeline: None,
    })
}


// ---------------------------------------------------------------------------
// git
// ---------------------------------------------------------------------------

/// The git subcommand of each operation.
pub open spec fn git_word(op: GitOp) -> Seq<char> {
    match op {
        GitOp::Status => "status"@,
        GitOp::Diff => "diff"@,
        GitOp::Log => "log"@,
        GitOp::Add => "add"@,
        GitOp::Commit => "commit"@,
        GitOp::Branch => "branch"@,
    }
}

pub fn git_op_name(op: GitOp) -> (r: &'static str)
    ensures
        r@ == git_word(op),
{
    match op {
        GitOp::Status => "status",
        GitOp::Diff => "diff",
        GitOp::Log => "log",
        GitOp::Add => "add",
        GitOp::Commit => "commit",
        GitOp::Branch => "branch",
    }
}

/// The arguments git is run with: `status --porcelain` for a status (the
/// step's arguments are not used), otherwise the subcommand and the step's
/// arguments.
pub fn git_command_args(op: GitOp, args: &[String]) -> (r: Vec<String>)
    ensures
        op == GitOp::Status ==> views(r@) == seq!["status"@, "--porcelain"@],
        op != GitOp::Status ==> views(r@) == seq![git_word(op)] + views(args@),
{
    let mut r: Vec<String> = Vec::new();
    match op {
        GitOp::Status => {
            r.push(owned("status"));
            r.push(owned("--porcelain"));
            assert(views(r@) =~= seq!["status"@, "--porcelain"@]);
        },
        _ => {
            r.push(owned(git_op_name(op)));
            let mut i: usize = 0;
            while i < args.len()
                invariant
                    i <= args.len(),
                    views(r@) == seq![git_word(op)] + views(args@).take(i as int),
                decreases args.len() - i,
            {
                let ghost before = r@;
                r.push(args[i].clone());
                assert(views(r@) =~= views(before).push(args@[i as int]@));
                assert(views(args@).take(i + 1) =~= views(args@).take(i as int).push(args@[i as int]@));
                i = i + 1;
            }
            assert(views(args@).take(args.len() as int) =~= views(args@));
        },
    }
    r
}

/// The lines of a text as a JSON array of strings.
pub open spec fn lines_json(t: Seq<char>) -> JsonView {
    JsonView::Array(lines_spec(t).map_values(|l: Seq<char>| JsonView::Str(l)))
}

fn lines_to_json(t: &str) -> (r: (Json, bool))
    ensures
        r.0@ == lines_json(t@),
        r.1 == (lines_spec(t@).len() == 0),
{
    let cv = chars_of(t);
    let ls = lines_of(cv.as_slice());
    let mut out: Vec<Json> = Vec::new();
    let mut i: usize = 0;
    while i < ls.len()
        invariant
            i <= ls.len(),
            vviews(ls@) == lines_spec(t@),
            json_views(out@) == vviews(ls@).take(i as int).map_values(|l: Seq<char>| JsonView::Str(l)),
        decreases ls.len() - i,
    {
        let x = Json::Str(string_of(ls[i].as_slice()));
        proof {
            lemma_views_push(out@, x);
        }
        out.push(x);
        assert(vviews(ls@).take(i + 1).map_values(|l: Seq<char>| JsonView::Str(l)) =~= vviews(ls@).take(
            i as int,
        ).map_values(|l: Seq<char>| JsonView::Str(l)).push(JsonView::Str(ls@[i as int]@)));
        i = i + 1;
    }
    assert(vviews(ls@).take(ls.len() as int) =~= vviews(ls@));
    (Json::Array(out), ls.len() == 0)
}

/// What a git step reports: the files of a clean or dirty status, the
/// branches, the commits, or the output; or the error.
pub open spec fn git_output_json(op: GitOp, outcome: ProcessOutcome) -> JsonView {
    match outcome {
        ProcessOutcome::Ran { stdout, stderr, exit_code } => if exit_code == 0 {
            match op {
                GitOp::Status => JsonView::Object(
                    map!["files"@ => lines_json(stdout@), "clean"@ => JsonView::Bool(lines_spec(stdout@).len() == 0)],
                ),
                GitOp::Branch => JsonView::Object(map!["branches"@ => lines_json(stdout@)]),
                GitOp::Log => JsonView::Object(map!["commits"@ => lines_json(stdout@)]),
                _ => JsonView::Object(map!["output"@ => JsonView::Str(stdout@)]),
            }
        } else {
            JsonView::Object(
                map!["error"@ => JsonView::Str(stderr@), "exit_code"@ => crate::json::int_view(exit_code as i64)],
            )
        },
        ProcessOutcome::Failed(e) => JsonView::Object(map!["error"@ => JsonView::Str(e@)]),
    }
}

/// The record of a `git` step: ok when git exited with 0.
pub fn git_result(op: GitOp, outcome: ProcessOutcome, duration_ms: u64) -> (r: StepResult)
    ensures
        r.index == 0,
        r.step_type matches StepTypeResult::Git { op: o, output } && o@ == git_word(op) && output@ == git_output_json(op, outcome),
        r.status@ == ok_or_error(outcome matches ProcessOutcome::Ran { exit_code, .. } && exit_code == 0),
        r.duration_ms == duration_ms,
        r.stopped_pipeline is None,
{
    let mut e: Vec<(String, Json)> = Vec::new();
    let ok = match &outcome {
        ProcessOutcome::Ran { stdout, stderr, exit_code } => {
            if *exit_code == 0 {
                match op {
                    GitOp::Status => {
                        let (files, empty) = lines_to_json(stdout.as_str());
                        obj_insert(&mut e, "files", files);
                        obj_insert(&mut e, "clean", Json::Bool(empty));
                    },
                    GitOp::Branch => {
                        let (bs, _) = lines_to_json(stdout.as_str());
                        obj_insert(&mut e, "branches", bs);
                    },
                    GitOp::Log => {
                        let (cs, _) = lines_to_json(stdout.as_str());
                        obj_insert(&mut e, "commits", cs);
                    },
                    _ => {
                        obj_insert(&mut e, "output", Json::Str(stdout.clone()));
                    },
                }
                true
            } else {
                obj_insert(&mut e, "error", Json::Str(stderr.clone()));
                obj_insert(&mut e, "exit_code", Json::integer(*exit_code as i64));
                false
            }
        },
        ProcessOutcome::Failed(err) => {
            obj_insert(&mut e, "error", Json::Str(err.clone()));
            false
        },
    };
    StepResult {
        index: 0,
        step_type: StepTypeResult::Git { op: owned(git_op_name(op)), output: Json::Object(e) },
        status: status_of(ok),
        duration_ms,
        stopped_pipeline: None,
    }
}

// ---------------------------------------------------------------------------
// http
// ---------------------------------------------------------------------------

/// The request methods an `http` step can send.
#[derive(Debug, Clone, Copy, PartialEq, Eq, Structural)]
pub enum HttpVerb {
    Get,
    Post,
    Put,
    Delete,
    Patch,
    Head,
}

/// The verb a method name (uppercased) stands for; anything unknown is GET.
pub open spec fn verb_spec(method_upper: Seq<char>) -> HttpVerb {
    if method_upper == "POST"@ {
        HttpVerb::Post
    } else if method_upper == "PUT"@ {
        HttpVerb::Put
    } else if method_upper == "DELETE"@ {
        HttpVerb::Delete
    } else if method_upper == "PATCH"@ {
        HttpVerb::Patch
    } else if method_upper == "HEAD"@ {
        HttpVerb::Head
    } else {
        HttpVerb::Get
    }
}

/// The verb of a method name, in any case.
pub fn http_verb(method: &str) -> (r: HttpVerb)
    ensures
        r == verb_spec(crate::casing::upper(method@)),
{
    let m = crate::casing::str_to_uppercase(method);
    let s = m.as_str();
    if same_text(s, "POST") {
        HttpVerb::Post
    } else if same_text(s, "PUT") {
        HttpVerb::Put
    } else if same_text(s, "DELETE") {
        HttpVerb::Delete
    } else if same_text(s, "PATCH") {
        HttpVerb::Patch
    } else if same_text(s, "HEAD") {
        HttpVerb::Head
    } else {
        HttpVerb::Get
    }
}

/// The record of an `http` step: ok when the status is the expected one; a
/// request that failed has status 0 and the error as its body.
pub fn http_result(
    method: &str,
    url: &str,
    expect_status: u16,
    response: Result<(u16, Option<String>), String>,
    duration_ms: u64,
) -> (r: StepResult)
    ensures
        r.index == 0,
        r.duration_ms == duration_ms,
        r.stopped_pipeline is None,
        match response {
            Ok((status, body)) => {
                &&& r.step_type matches StepTypeResult::Http { method: m, url: u, status: s, body: b } && m@ == method@ && u@ == url@ && s == status && b == body
                &&& r.status@ == ok_or_error(status == expect_status)
            },
            Err(e) => {
                &&& r.step_type matches StepTypeResult::Http { method: m, url: u, status: s, body: b } && m@ == method@ && u@ == url@ && s == 0 && b == Some(e)
                &&& r.status@ == "error"@
            },
        },
{
    match response {
        Ok((status, body)) => StepResult {
            index: 0,
            step_type: StepTypeResult::Http { method: owned(method), url: owned(url), status, body },
            status: status_of(status == expect_status),
            duration_ms,
            stopped_pipeline: None,
        },
        Err(e) => StepResult {
            index: 0,
            step_type: StepTypeResult::Http {
                method: owned(method),
                url: owned(url),
                status: 0,
                body: Some(e),
            },
            status: owned("error"),
            duration_ms,
            stopped_pipeline: None,
        },
    }
}


// ---------------------------------------------------------------------------
// read
// ---------------------------------------------------------------------------

/// A `read` path with a `*` is a glob pattern over the working directory.
pub fn is_glob_path(path: &str) -> (r: bool)
    ensures
        r == contains_spec(path@, "*"@),
{
    contains_str(path, "*")
}

/// Whether `globset::Glob::new` accepts a pattern and a `globset::GlobSet`
/// of it builds (its regex compiles within globset's limits).
pub uninterp spec fn glob_valid(pattern: Seq<char>) -> bool;

/// Whether the glob set built of a pattern matches a path.
pub uninterp spec fn glob_match(pattern: Seq<char>, path: Seq<char>) -> bool;

/// `globset::Glob::new(pattern)`, added alone to a `globset::GlobSetBuilder`
/// whose `build` reports a pattern it cannot compile as an error, then the
/// set's `is_match` on `path`: the contract claims only that there is an
/// answer exactly when the pattern is accepted and builds, and that it is
/// the one named for the pattern and path.
#[verifier::external_body]
fn glob_is_match(pattern: &str, path: &str) -> (r: Option<bool>)
    ensures
        r is Some <==> glob_valid(pattern@),
        r matches Some(b) ==> b == glob_match(pattern@, path@),
{
    let g = globset::Glob::new(pattern).ok()?;
    let set = globset::GlobSetBuilder::new().add(g).build().ok()?;
    Some(set.is_match(path))
}

/// The paths a glob pattern matches, in order; `None` when the pattern is
/// not a valid glob.
pub fn filter_by_glob(pattern: &str, paths: &[String]) -> (r: Option<Vec<String>>)
    ensures
        r is Some <==> glob_valid(pattern@),
        r matches Some(v) ==> views(v@) == views(paths@).filter(|p: Seq<char>| glob_match(pattern@, p)),
{
    if glob_is_match(pattern, "").is_none() {
        return None;
    }
    let ghost keep = |p: Seq<char>| glob_match(pattern@, p);
    let mut out: Vec<String> = Vec::new();
    let mut i: usize = 0;
    while i < paths.len()
        invariant
            i <= paths.len(),
            glob_valid(pattern@),
            keep == (|p: Seq<char>| glob_match(pattern@, p)),
            views(out@) == views(paths@).take(i as int).filter(keep),
        decreases paths.len() - i,
    {
        let ghost before = out@;
        proof {
            let t = views(paths@).take(i + 1);
            assert(t.drop_last() =~= views(paths@).take(i as int));
            assert(t.last() == paths@[i as int]@);
            reveal(Seq::filter);
            assert(t.filter(keep) == if keep(t.last()) {
                t.drop_last().filter(keep).push(t.last())
            } else {
                t.drop_last().filter(keep)
            });
        }
        let hit = match glob_is_match(pattern, paths[i].as_str()) {
            Some(b) => b,
            None => false,
        };
        if hit {
            out.push(paths[i].clone());
            assert(views(out@) =~= views(before).push(paths@[i as int]@));
        }
        i = i + 1;
    }
    assert(views(paths@).take(paths.len() as int) =~= views(paths@));
    Some(out)
}

// ---------------------------------------------------------------------------
// extract
// ---------------------------------------------------------------------------

/// What each path of `pick` selects from `v`, by path (`null` where it
/// selects nothing); of a path named twice the first is kept.
pub open spec fn pick_map(v: JsonView, pick: Seq<Seq<char>>) -> Map<Seq<char>, JsonView>
    decreases pick.len(),
{
    if pick.len() == 0 {
        Map::empty()
    } else {
        pick_map(v, pick.subrange(1, pick.len() as int)).insert(
            pick[0],
            match crate::refs::jsonpath(v, pick[0]) {
                Some(x) => x,
                None => JsonView::Null,
            },
        )
    }
}

/// The data an `extract` step reports of a parsed document: the whole
/// document when nothing is picked, else an object of what each path picks.
pub open spec fn extract_spec(v: JsonView, pick: Seq<Seq<char>>) -> JsonView {
    if pick.len() == 0 {
        v
    } else {
        JsonView::Object(pick_map(v, pick))
    }
}

proof fn lemma_pick_entries(out: Seq<(String, Json)>, v: JsonView, pick: Seq<Seq<char>>)
    requires
        out.len() == pick.len(),
        forall|j: int|
            0 <= j < pick.len() ==> out[j].0@ == pick[j] && (#[trigger] out[j].1)@ == match crate::refs::jsonpath(
                v,
                pick[j],
            ) {
                Some(x) => x,
                None => JsonView::Null,
            },
    ensures
        entries_map(out) == pick_map(v, pick),
    decreases pick.len(),
{
    if pick.len() > 0 {
        let o1 = out.subrange(1, out.len() as int);
        let p1 = pick.subrange(1, pick.len() as int);
        assert forall|j: int| 0 <= j < p1.len() implies o1[j].0@ == p1[j] && (#[trigger] o1[j].1)@
            == match crate::refs::jsonpath(v, p1[j]) {
            Some(x) => x,
            None => JsonView::Null,
        } by {
            assert(o1[j] == out[j + 1]);
            assert(p1[j] == pick[j + 1]);
        }
        lemma_pick_entries(o1, v, p1);
        assert(out[0].1@ == match crate::refs::jsonpath(v, pick[0]) {
            Some(x) => x,
            None => JsonView::Null,
        });
    }
}

/// The data an `extract` step reports of a parsed document.
pub fn extract_data(value: &Json, pick: &Vec<String>) -> (r: Json)
    ensures
        r@ == extract_spec(value@, views(pick@)),
{
    if pick.len() == 0 {
        return value.copy();
    }
    let mut out: Vec<(String, Json)> = Vec::new();
    let mut i: usize = 0;
    while i < pick.len()
        invariant
            i <= pick.len(),
            out@.len() == i,
            forall|j: int|
                0 <= j < i ==> out@[j].0@ == views(pick@)[j] && (#[trigger] out@[j].1)@
                    == match crate::refs::jsonpath(value@, views(pick@)[j]) {
                    Some(x) => x,
                    None => JsonView::Null,
                },
        decreases pick.len() - i,
    {
        let x = match crate::refs::resolve_jsonpath(value, pick[i].as_str()) {
            Some(x) => x,
            None => Json::Null,
        };
        out.push((pick[i].clone(), x));
        i = i + 1;
    }
    proof {
        lemma_pick_entries(out@, value@, views(pick@));
    }
    Json::Object(out)
}

// ---------------------------------------------------------------------------
// summarize
// ---------------------------------------------------------------------------

/// A line that imports: it starts with `import `, `use ` or `from `.
pub open spec fn import_line(l: Seq<char>) -> bool {
    starts_with_spec(l, "import "@) || starts_with_spec(l, "use "@) || starts_with_spec(l, "from "@)
}

/// A line that exports: it starts with `export ` or `pub `.
pub open spec fn export_line(l: Seq<char>) -> bool {
    starts_with_spec(l, "export "@) || starts_with_spec(l, "pub "@)
}

/// A line that declares a function: it holds `fn ` or `function `, or
/// starts with `def `.
pub open spec fn function_line(l: Seq<char>) -> bool {
    contains_spec(l, "fn "@) || contains_spec(l, "function "@) || starts_with_spec(l, "def "@)
}

/// The lines of a text, each trimmed.
pub open spec fn trimmed_lines(t: Seq<char>) -> Seq<Seq<char>> {
    lines_spec(t).map_values(|l: Seq<char>| trim_spec(l))
}

proof fn lemma_filter_step(s: Seq<Seq<char>>, i: int, f: spec_fn(Seq<char>) -> bool)
    requires
        0 <= i < s.len(),
    ensures
        s.take(i + 1).filter(f) == if f(s[i]) {
            s.take(i).filter(f).push(s[i])
        } else {
            s.take(i).filter(f)
        },
{
    let t = s.take(i + 1);
    assert(t.drop_last() =~= s.take(i));
    assert(t.last() == s[i]);
    reveal(Seq::filter);
}

/// What a `summarize` step reports of a file's text: its trimmed lines that
/// import, export and declare functions, in order, how many lines it has,
/// and the time it was last modified.
pub fn summarize_content(content: &str, last_modified: String) -> (r: FileSummary)
    ensures
        views(r.imports@) == trimmed_lines(content@).filter(|l: Seq<char>| import_line(l)),
        views(r.exports@) == trimmed_lines(content@).filter(|l: Seq<char>| export_line(l)),
        views(r.functions@) == trimmed_lines(content@).filter(|l: Seq<char>| function_line(l)),
        r.types_used@.len() == 0,
        r.line_count == lines_spec(content@).len(),
        r.last_modified == last_modified,
{
    let v = chars_of(content);
    let lines = lines_of(v.as_slice());
    let ghost t = trimmed_lines(content@);
    let ghost fi = |l: Seq<char>| import_line(l);
    let ghost fe = |l: Seq<char>| export_line(l);
    let ghost ff = |l: Seq<char>| function_line(l);
    let mut imports: Vec<String> = Vec::new();
    let mut exports: Vec<String> = Vec::new();
    let mut functions: Vec<String> = Vec::new();
    let mut i: usize = 0;
    while i < lines.len()
        invariant
            i <= lines@.len(),
            vviews(lines@) == lines_spec(content@),
            t == trimmed_lines(content@),
            t.len() == lines@.len(),
            fi == (|l: Seq<char>| import_line(l)),
            fe == (|l: Seq<char>| export_line(l)),
            ff == (|l: Seq<char>| function_line(l)),
            views(imports@) == t.take(i as int).filter(fi),
            views(exports@) == t.take(i as int).filter(fe),
            views(functions@) == t.take(i as int).filter(ff),
        decreases lines.len() - i,
    {
        let l = trim_chars(lines[i].as_slice());
        assert(l@ == t[i as int]) by {
            assert(vviews(lines@)[i as int] == lines@[i as int]@);
        }
        proof {
            lemma_filter_step(t, i as int, fi);
            lemma_filter_step(t, i as int, fe);
            lemma_filter_step(t, i as int, ff);
        }
        let imp = starts_with_chars(&l, &chars_of("import ")) || starts_with_chars(&l, &chars_of("use "))
            || starts_with_chars(&l, &chars_of("from "));
        let exp = starts_with_chars(&l, &chars_of("export ")) || starts_with_chars(&l, &chars_of("pub "));
        let fun = contains_chars(&l, &chars_of("fn ")) || contains_chars(&l, &chars_of("function "))
            || starts_with_chars(&l, &chars_of("def "));
        let ghost pi = imports@;
        let ghost pe = exports@;
        let ghost pf = functions@;
        if imp {
            let w = string_of(&l);
            imports.push(w);
            assert(views(imports@) =~= views(pi).push(w@));
        }
        if exp {
            let w = string_of(&l);
            exports.push(w);
            assert(views(exports@) =~= views(pe).push(w@));
        }
        if fun {
            let w = string_of(&l);
            functions.push(w);
            assert(views(functions@) =~= views(pf).push(w@));
        }
        i = i + 1;
    }
    assert(t.take(lines.len() as int) =~= t);
    FileSummary {
        imports,
        exports,
        functions,
        types_used: Vec::new(),
        line_count: lines.len(),
        last_modified,
    }
}

} // verus!
