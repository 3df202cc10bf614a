//! What a dry run shows: one line per step, saying what it would do.
use crate::schema::{GitOp, Step};
use crate::text::{dec, owned, push_dec, push_str};
use vstd::prelude::*;

verus! {

/// The name of a git operation as it is shown.
pub open spec fn git_op_label(op: GitOp) -> Seq<char> {
    match op {
        GitOp::Status => "Status"@,
        GitOp::Diff => "Diff"@,
        GitOp::Log => "Log"@,
        GitOp::Add => "Add"@,
        GitOp::Commit => "Commit"@,
        GitOp::Branch => "Branch"@,
    }
}

pub open spec fn bool_text(b: bool) -> Seq<char> {
    if b {
        "true"@
    } else {
        "false"@
    }
}

pub open spec fn opt_suffix(label: Seq<char>, o: Option<String>) -> Seq<char> {
    match o {
        Some(s) => " "@ + label + ":"@ + s@,
        None => Seq::empty(),
    }
}

/// The dry-run line of step `i`; `None` for the steps whose line shows a
/// condition or an `each` source in Rust's debug notation, which the caller
/// writes.
pub open spec fn preview(i: nat, s: Step) -> Option<Seq<char>> {
    let head = "  "@ + dec(i) + ": "@;
    match s {
        Step::Bash { cmd, .. } => Some(head + "bash "@ + cmd@),
        Step::Read { path, filter_imports, filter_exports, since, .. } => Some(
            head + "read "@ + path@ + opt_suffix("import"@, filter_imports) + opt_suffix("export"@, filter_exports)
                + opt_suffix("since"@, since),
        ),
        Step::Write { path, .. } => Some(head + "write "@ + path@),
        Step::Patch { path, .. } => Some(head + "patch "@ + path@),
        Step::Mv { from, to, .. } => Some(head + "mv "@ + from@ + " → "@ + to@),
        Step::Cp { from, to, .. } => Some(head + "cp "@ + from@ + " → "@ + to@),
        Step::Rm { path, .. } => Some(head + "rm "@ + path@),
        Step::Mkdir { path, .. } => Some(head + "mkdir "@ + path@),
        Step::Grep { pattern, path, .. } => Some(head + "grep "@ + pattern@ + " in "@ + path@),
        Step::Replace { pattern, path, .. } => Some(head + "replace "@ + pattern@ + " in "@ + path@),
        Step::Scan { path, .. } => Some(head + "scan "@ + path@),
        Step::Summarize { path, .. } => Some(head + "summarize "@ + path@),
        Step::Extract { path, .. } => Some(head + "extract "@ + path@),
        Step::Diff { a, b, .. } => Some(head + "diff "@ + a@ + " vs "@ + b@),
        Step::Lint { path, .. } => Some(head + "lint "@ + path@),
        Step::Template { builtin, source, output, .. } => Some(
            head + "template "@ + (if builtin@.len() == 0 { source@ } else { builtin@ }) + " -> "@ + output@,
        ),
        Step::Snapshot { path, snapshot_id, .. } => Some(head + "snapshot "@ + path@ + " @ "@ + snapshot_id@),
        Step::Restore { snapshot_id, .. } => Some(head + "restore "@ + snapshot_id@),
        Step::Git { op, .. } => Some(head + "git "@ + git_op_label(op)),
        Step::Http { method, url, .. } => Some(head + "http "@ + method@ + " "@ + url@),
        Step::Import { path, add, remove, organize, .. } => Some(
            head + "import "@ + path@ + " (add: "@ + dec(add@.len()) + ", remove: "@ + dec(remove@.len())
                + ", organize: "@ + bool_text(organize) + ")"@,
        ),
        Step::If { .. } => None,
        Step::Each { .. } => None,
        Step::Parallel { steps, .. } => Some(head + "parallel ("@ + dec(steps@.len()) + " steps)"@),
    }
}

fn push_opt(s: &mut String, label: &str, o: &Option<String>)
    ensures
        final(s)@ == old(s)@ + opt_suffix(label@, *o),
{
    match o {
        Some(v) => {
            push_str(s, " ");
            push_str(s, label);
            push_str(s, ":");
            push_str(s, v.as_str());
        },
        None => {},
    }
}

fn git_label(op: GitOp) -> (r: &'static str)
    ensures
        r@ == git_op_label(op),
{
    match op {
        GitOp::Status => "Status",
        GitOp::Diff => "Diff",
        GitOp::Log => "Log",
        GitOp::Add => "Add",
        GitOp::Commit => "Commit",
        GitOp::Branch => "Branch",
    }
}

fn with2(s: &mut String, a: &str, b: &str)
    ensures
        final(s)@ == old(s)@ + a@ + b@,
{
    push_str(s, a);
    push_str(s, b);
}

/// The line a dry run shows for step `i` (see `preview`).
pub fn dry_run_line(i: usize, step: &Step) -> (r: Option<String>)
    ensures
        match preview(i as nat, *step) {
            Some(t) => r matches Some(x) && x@ == t,
            None => r is None,
        },
{
    let mut s = owned("  ");
    push_dec(&mut s, i as u64);
    push_str(&mut s, ": ");
    match step {
        Step::Bash { cmd, .. } => with2(&mut s, "bash ", cmd.as_str()),
        Step::Read { path, filter_imports, filter_exports, since, .. } => {
            with2(&mut s, "read ", path.as_str());
            push_opt(&mut s, "import", filter_imports);
            push_opt(&mut s, "export", filter_exports);
            push_opt(&mut s, "since", since);
        },
        Step::Write { path, .. } => with2(&mut s, "write ", path.as_str()),
        Step::Patch { path, .. } => with2(&mut s, "patch ", path.as_str()),
        Step::Mv { from, to, .. } => {
            with2(&mut s, "mv ", from.as_str());
            with2(&mut s, " → ", to.as_str());
        },
        Step::Cp { from, to, .. } => {
            with2(&mut s, "cp ", from.as_str());
            with2(&mut s, " → ", to.as_str());
        },
        Step::Rm { path, .. } => with2(&mut s, "rm ", path.as_str()),
        Step::Mkdir { path, .. } => with2(&mut s, "mkdir ", path.as_str()),
        Step::Grep { pattern, path, .. } => {
            with2(&mut s, "grep ", pattern.as_str());
            with2(&mut s, " in ", path.as_str());
        },
        Step::Replace { pattern, path, .. } => {
            with2(&mut s, "replace ", pattern.as_str());
            with2(&mut s, " in ", path.as_str());
        },
        Step::Scan { path, .. } => with2(&mut s, "scan ", path.as_str()),
        Step::Summarize { path, .. } => with2(&mut s, "summarize ", path.as_str()),
        Step::Extract { path, .. } => with2(&mut s, "extract ", path.as_str()),
        Step::Diff { a, b, .. } => {
            with2(&mut s, "diff ", a.as_str());
            with2(&mut s, " vs ", b.as_str());
        },
        Step::Lint { path, .. } => with2(&mut s, "lint ", path.as_str()),
        Step::Template { builtin, source, output, .. } => {
            let which = if builtin.unicode_len() == 0 { source.as_str() } else { builtin.as_str() };
            with2(&mut s, "template ", which);
            with2(&mut s, " -> ", output.as_str());
        },
        Step::Snapshot { path, snapshot_id, .. } => {
            with2(&mut s, "snapshot ", path.as_str());
            with2(&mut s, " @ ", snapshot_id.as_str());
        },
        Step::Restore { snapshot_id, .. } => with2(&mut s, "restore ", snapshot_id.as_str()),
        Step::Git { op, .. } => with2(&mut s, "git ", git_label(*op)),
        Step::Http { method, url, .. } => {
            with2(&mut s, "http ", method.as_str());
            with2(&mut s, " ", url.as_str());
        },
        Step::Import { path, add, remove, organize, .. } => {
            with2(&mut s, "import ", path.as_str());
            push_str(&mut s, " (add: ");
            push_dec(&mut s, add.len() as u64);
            push_str(&mut s, ", remove: ");
            push_dec(&mut s, remove.len() as u64);
            with2(&mut s, ", organize: ", if *organize { "true" } else { "false" });
            push_str(&mut s, ")");
        },
        Step::If { .. } => {
            return None;
        },
        Step::Each { .. } => {
            return None;
        },
        Step::Parallel { steps, .. } => {
            push_str(&mut s, "parallel (");
            push_dec(&mut s, steps.len() as u64);
            push_str(&mut s, " steps)");
        },
    }
    Some(s)
}

/// The first line of a dry run.
pub fn dry_run_header(n: usize) -> (r: String)
    ensures
        r@ == "Dry run - would execute "@ + dec(n as nat) + " steps:"@,
{
    let mut s = owned("Dry run - would execute ");
    push_dec(&mut s, n as u64);
    push_str(&mut s, " steps:");
    s
}

} // verus!
