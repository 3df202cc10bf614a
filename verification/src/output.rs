//! The human-readable report of a run, as styled text: each piece of text
//! with the color it is shown in (by name) and whether it is bold.  Putting
//! the styles on a terminal is the caller's part.
use crate::json::{entries_map, json_text, json_to_string, Json, JsonView};
use crate::casing::{str_to_uppercase, upper};
use crate::cli::OutputFormat;
use crate::results::{Output, StepResult, StepTypeResult};
use crate::text::{
    push_char,
    dec, lemma_lex_asym, lemma_lex_total, lemma_lex_trans, lex_lt, owned, push_dec, push_str,
    same_text, trim_spec, trim_str, views, join_spec, join_strings, chars_less,
};
use vstd::prelude::*;

verus! {

/// A piece of styled text.
#[derive(Debug)]
pub struct Segment {
    pub text: String,
    pub color: Option<String>,
    pub bold: bool,
}

/// A piece of styled text by its characters.
pub open spec fn seg_view(s: Segment) -> (Seq<char>, Option<Seq<char>>, bool) {
    (s.text@, crate::text::opt_text(s.color), s.bold)
}

pub open spec fn seg_views(s: Seq<Segment>) -> Seq<(Seq<char>, Option<Seq<char>>, bool)> {
    s.map_values(|x: Segment| seg_view(x))
}

pub open spec fn plain(t: Seq<char>) -> (Seq<char>, Option<Seq<char>>, bool) {
    (t, None, false)
}

pub open spec fn bold(t: Seq<char>) -> (Seq<char>, Option<Seq<char>>, bool) {
    (t, None, true)
}

pub open spec fn colored(t: Seq<char>, c: Seq<char>, b: bool) -> (Seq<char>, Option<Seq<char>>, bool) {
    (t, Some(c), b)
}

/// A signed number in decimal.
pub open spec fn idec(x: int) -> Seq<char> {
    if x < 0 {
        "-"@ + dec((-x) as nat)
    } else {
        dec(x as nat)
    }
}

fn push_idec(s: &mut String, x: i32)
    ensures
        final(s)@ == old(s)@ + idec(x as int),
{
    if x < 0 {
        push_str(s, "-");
        let m = (-(x as i64)) as u64;
        push_dec(s, m);
    } else {
        push_dec(s, x as u64);
    }
}

/// `"ok"` or `"failed"`.
pub open spec fn ok_failed(b: bool) -> Seq<char> {
    if b {
        "ok"@
    } else {
        "failed"@
    }
}

/// The Debug form of a string (quoted, with escapes).
pub uninterp spec fn str_debug(s: Seq<char>) -> Seq<char>;

/// `format!("{:?}", s)` for a string: the contract claims only that the
/// result is the one named for the string.
#[verifier::external_body]
fn debug_quoted(s: &str) -> (r: String)
    ensures
        r@ == str_debug(s@),
{
    format!("{:?}", s)
}

// ---------------------------------------------------------------------------
// the keys of an object, sorted
// ---------------------------------------------------------------------------

/// `ks` lists the keys of `m`, each once, in sorted order.
pub open spec fn sorted_keys(ks: Seq<Seq<char>>, m: Map<Seq<char>, JsonView>) -> bool {
    &&& forall|i: int, j: int| 0 <= i < j < ks.len() ==> lex_lt(ks[i], ks[j])
    &&& forall|k: Seq<char>| m.dom().contains(k) <==> ks.contains(k)
}

/// The keys listed for an extracted value: those of an object, none else.
pub open spec fn listed_keys(ks: Seq<Seq<char>>, v: JsonView) -> bool {
    match v {
        JsonView::Object(m) => sorted_keys(ks, m),
        _ => ks.len() == 0,
    }
}

proof fn lemma_entries_dom(s: Seq<(String, Json)>, k: Seq<char>)
    ensures
        entries_map(s).dom().contains(k) <==> exists|i: int| 0 <= i < s.len() && s[i].0@ == k,
    decreases s.len(),
{
    if s.len() > 0 {
        let t = s.subrange(1, s.len() as int);
        lemma_entries_dom(t, k);
        if exists|i: int| 0 <= i < t.len() && t[i].0@ == k {
            let i = choose|i: int| 0 <= i < t.len() && t[i].0@ == k;
            assert(s[i + 1] == t[i]);
        }
        if exists|i: int| 0 <= i < s.len() && s[i].0@ == k {
            let i = choose|i: int| 0 <= i < s.len() && s[i].0@ == k;
            if i > 0 {
                assert(t[i - 1] == s[i]);
            }
        }
    }
}

/// Inserts `k` into a strictly sorted list unless it is there.
fn insert_key(ks: &mut Vec<String>, k: &String)
    requires
        forall|i: int, j: int| 0 <= i < j < old(ks)@.len() ==> lex_lt(old(ks)@[i]@, old(ks)@[j]@),
    ensures
        forall|i: int, j: int| 0 <= i < j < final(ks)@.len() ==> lex_lt(final(ks)@[i]@, final(ks)@[j]@),
        forall|x: Seq<char>| #[trigger] views(final(ks)@).contains(x) <==> (views(old(ks)@).contains(x) || x == k@),
{
    let ghost before = views(ks@);
    let kc = crate::text::chars_of(k.as_str());
    let mut p: usize = 0;
    while p < ks.len() && chars_less(crate::text::chars_of(ks[p].as_str()).as_slice(), kc.as_slice())
        invariant
            p <= ks.len(),
            ks@ == old(ks)@,
            kc@ == k@,
            forall|i: int| 0 <= i < p ==> lex_lt(ks@[i]@, k@),
        decreases ks.len() - p,
    {
        p = p + 1;
    }
    if p < ks.len() && same_text(ks[p].as_str(), k.as_str()) {
        assert(views(ks@)[p as int] == k@);
        assert(views(ks@).contains(k@));
        assert(views(ks@) == before);
    } else {
        proof {
            if p < ks.len() {
                lemma_lex_total(ks@[p as int]@, k@);
            }
        }
        let ghost old_ks = ks@;
        let kk = k.clone();
        ks.insert(p, kk);
        assert(views(ks@) =~= before.insert(p as int, k@));
        assert forall|i: int, j: int| 0 <= i < j < ks@.len() implies lex_lt(ks@[i]@, ks@[j]@) by {
            if j < p {
                assert(ks@[i] == old_ks[i] && ks@[j] == old_ks[j]);
            } else if j == p {
                assert(ks@[i] == old_ks[i]);
            } else if i == p {
                assert(ks@[j] == old_ks[j - 1]);
                if j - 1 > p {
                    assert(lex_lt(old_ks[p as int]@, old_ks[j - 1]@));
                    lemma_lex_trans(k@, old_ks[p as int]@, old_ks[j - 1]@);
                }
            } else if i < p {
                assert(ks@[i] == old_ks[i] && ks@[j] == old_ks[j - 1]);
            } else {
                assert(ks@[i] == old_ks[i - 1] && ks@[j] == old_ks[j - 1]);
            }
        }
        proof {
            lemma_insert_contains(before, p as int, k@);
        }
    }
    assert(forall|x: Seq<char>| #[trigger] views(ks@).contains(x) <==> (before.contains(x) || x == k@));
}

proof fn lemma_insert_contains(s: Seq<Seq<char>>, p: int, x: Seq<char>)
    requires
        0 <= p <= s.len(),
    ensures
        forall|y: Seq<char>| s.insert(p, x).contains(y) <==> (s.contains(y) || y == x),
{
    let t = s.insert(p, x);
    assert forall|y: Seq<char>| t.contains(y) <==> (s.contains(y) || y == x) by {
        if t.contains(y) {
            let i = choose|i: int| 0 <= i < t.len() && t[i] == y;
            if i < p {
                assert(s[i] == y);
            } else if i > p {
                assert(s[i - 1] == y);
            }
        }
        if s.contains(y) {
            let i = choose|i: int| 0 <= i < s.len() && s[i] == y;
            if i < p {
                assert(t[i] == y);
            } else {
                assert(t[i + 1] == y);
            }
        }
        if y == x {
            assert(t[p] == y);
        }
    }
}

/// Two strictly sorted lists of the same keys are the same list.
pub proof fn lemma_sorted_keys_unique(a: Seq<Seq<char>>, b: Seq<Seq<char>>, m: Map<Seq<char>, JsonView>)
    requires
        sorted_keys(a, m),
        sorted_keys(b, m),
    ensures
        a == b,
{
    lemma_sorted_same(a, b);
}

proof fn lemma_sorted_same(a: Seq<Seq<char>>, b: Seq<Seq<char>>)
    requires
        forall|i: int, j: int| 0 <= i < j < a.len() ==> lex_lt(a[i], a[j]),
        forall|i: int, j: int| 0 <= i < j < b.len() ==> lex_lt(b[i], b[j]),
        forall|k: Seq<char>| a.contains(k) <==> b.contains(k),
    ensures
        a == b,
    decreases a.len(),
{
    if a.len() == 0 {
        if b.len() > 0 {
            assert(b.contains(b[0]));
        }
        assert(a =~= b);
    } else {
        assert(a.contains(a[0]));
        assert(b.len() > 0);
        assert(b.contains(b[0]));
        let i = choose|i: int| 0 <= i < a.len() && a[i] == b[0];
        let j = choose|j: int| 0 <= j < b.len() && b[j] == a[0];
        if i > 0 && j > 0 {
            lemma_lex_asym(a[0], b[0]);
        }
        assert(a[0] == b[0]);
        let a1 = a.drop_first();
        let b1 = b.drop_first();
        assert forall|k: Seq<char>| a1.contains(k) <==> b1.contains(k) by {
            if a1.contains(k) {
                let p = choose|p: int| 0 <= p < a1.len() && a1[p] == k;
                assert(a[p + 1] == k);
                assert(a.contains(k));
                lemma_lex_asym(a[0], k);
                let q = choose|q: int| 0 <= q < b.len() && b[q] == k;
                assert(q != 0);
                assert(b1[q - 1] == k);
            }
            if b1.contains(k) {
                let p = choose|p: int| 0 <= p < b1.len() && b1[p] == k;
                assert(b[p + 1] == k);
                assert(b.contains(k));
                lemma_lex_asym(b[0], k);
                let q = choose|q: int| 0 <= q < a.len() && a[q] == k;
                assert(q != 0);
                assert(a1[q - 1] == k);
            }
        }
        lemma_sorted_same(a1, b1);
        assert(a =~= seq![a[0]] + a1);
        assert(b =~= seq![b[0]] + b1);
    }
}

/// The keys listed for an extracted value: the one sorted list of them.
pub open spec fn object_keys(v: JsonView) -> Seq<Seq<char>> {
    choose|ks: Seq<Seq<char>>| listed_keys(ks, v)
}

/// The keys of an object, each once, sorted; none for another value.
fn sorted_keys_of(v: &Json) -> (r: Vec<String>)
    ensures
        listed_keys(views(r@), v@),
        views(r@) == object_keys(v@),
{
    let mut ks: Vec<String> = Vec::new();
    match v {
        Json::Object(entries) => {
            let mut i: usize = 0;
            while i < entries.len()
                invariant
                    i <= entries.len(),
                    forall|a: int, b: int| 0 <= a < b < ks@.len() ==> lex_lt(ks@[a]@, ks@[b]@),
                    forall|x: Seq<char>| views(ks@).contains(x) <==> exists|j: int| 0 <= j < i && entries@[j].0@ == x,
                decreases entries.len() - i,
            {
                insert_key(&mut ks, &entries[i].0);
                assert forall|x: Seq<char>| views(ks@).contains(x) <==> exists|j: int| 0 <= j < i + 1 && entries@[j].0@ == x by {
                    if x == entries@[i as int].0@ {
                        assert(0 <= i < i + 1 && entries@[i as int].0@ == x);
                    }
                    if exists|j: int| 0 <= j < i + 1 && entries@[j].0@ == x {
                        let j = choose|j: int| 0 <= j < i + 1 && entries@[j].0@ == x;
                        if j < i {
                            assert(exists|j2: int| 0 <= j2 < i && entries@[j2].0@ == x);
                        }
                    }
                }
                i = i + 1;
            }
            assert forall|x: Seq<char>| entries_map(entries@).dom().contains(x) <==> views(ks@).contains(x) by {
                lemma_entries_dom(entries@, x);
            }
            assert forall|a: int, b: int| 0 <= a < b < views(ks@).len() implies lex_lt(views(ks@)[a], views(ks@)[b]) by {
                assert(views(ks@)[a] == ks@[a]@ && views(ks@)[b] == ks@[b]@);
            }
        },
        _ => {},
    }
    proof {
        let w = views(ks@);
        assert(listed_keys(w, v@));
        let c = object_keys(v@);
        assert(listed_keys(c, v@));
        match v@ {
            JsonView::Object(m) => {
                lemma_sorted_keys_unique(w, c, m);
            },
            _ => {
                assert(w =~= c);
            },
        }
    }
    ks
}


// ---------------------------------------------------------------------------
// one line per step
// ---------------------------------------------------------------------------

pub type SegView = (Seq<char>, Option<Seq<char>>, bool);

/// How a result is described, given the keys listed for an extracted value.
pub open spec fn type_segments(t: StepTypeResult, keys: Seq<Seq<char>>) -> Seq<(Seq<char>, Option<Seq<char>>, bool)> {
    match t {
        StepTypeResult::Bash { cmd, stdout, exit_code, .. } => {
            let base = seq![plain("bash: "@), bold(cmd@)];
            let with_out = if stdout@.len() > 0 {
                base + seq![plain("\n        "@), colored(trim_spec(stdout@), "dimmed"@, false)]
            } else {
                base
            };
            if exit_code != 0 {
                with_out.push(plain(" [exit: "@ + idec(exit_code as int) + "]"@))
            } else {
                with_out
            }
        },
        StepTypeResult::Read { path, files, .. } => seq![
            plain("read: "@),
            bold(path@),
            plain(" → "@ + dec(files@.len()) + " files"@),
        ],
        StepTypeResult::Write { path, .. } => seq![plain("write: "@), bold(path@)],
        StepTypeResult::Patch { path, edits_applied, .. } => seq![
            plain("patch: "@),
            bold(path@),
            plain(" → "@ + dec(edits_applied as nat) + " edits"@),
        ],
        StepTypeResult::Mv { from, to } => seq![plain("mv: "@), bold(from@), plain(" → "@), bold(to@)],
        StepTypeResult::Cp { from, to } => seq![plain("cp: "@), bold(from@), plain(" → "@), bold(to@)],
        StepTypeResult::Rm { path } => seq![plain("rm: "@), bold(path@)],
        StepTypeResult::Mkdir { path } => seq![plain("mkdir: "@), bold(path@)],
        StepTypeResult::Grep { pattern, matches } => seq![
            plain("grep: "@),
            bold(pattern@),
            plain(" → "@ + dec(matches@.len()) + " matches"@),
        ],
        StepTypeResult::Replace { pattern, files_modified, total_replacements, .. } => seq![
            plain("replace: "@),
            bold(pattern@),
            plain(" → "@ + dec(files_modified as nat) + " files, "@ + dec(total_replacements as nat) + " replacements"@),
        ],
        StepTypeResult::Scan { path, file_count, stack, .. } => seq![
            plain("scan: "@),
            bold(path@),
            plain(" → "@ + dec(file_count as nat) + " files, stack: "@ + join_spec(views(stack@), ", "@)),
        ],
        StepTypeResult::Summarize { path, summary } => seq![
            plain("summarize: "@),
            bold(path@),
            plain(" → "@ + dec(summary.exports@.len()) + " exports, "@ + dec(summary.functions@.len()) + " functions"@),
        ],
        StepTypeResult::Extract { path, .. } => seq![
            plain("extract: "@),
            bold(path@),
            plain(" → keys: "@ + join_spec(keys, ", "@)),
        ],
        StepTypeResult::Diff { a, b, added, removed, .. } => seq![
            plain("diff: "@),
            bold(a@),
            plain(" → "@ + b@ + " +"@ + dec(added as nat) + " -"@ + dec(removed as nat)),
        ],
        StepTypeResult::Lint { errors_count, warnings_count, .. } => seq![
            plain("lint: "@ + dec(errors_count as nat) + " errors, "@ + dec(warnings_count as nat) + " warnings"@),
        ],
        StepTypeResult::Template { output, rendered } => seq![
            plain("template: "@),
            bold(output@),
            plain(" → "@ + ok_failed(rendered)),
        ],
        StepTypeResult::Snapshot { path, id, .. } => seq![plain("snapshot: "@), bold(path@), plain(" → "@ + id@)],
        StepTypeResult::Restore { id, restored } => seq![plain("restore: "@ + id@ + " → "@ + ok_failed(restored))],
        StepTypeResult::Git { op, output } => seq![
            plain("git "@ + str_debug(op@) + " → "@ + match crate::json::get_key(output@, "error"@) {
                Some(e) => json_text(e),
                None => "ok"@,
            }),
        ],
        StepTypeResult::Http { method, url, status, .. } => seq![
            plain("http: "@ + method@ + " "@ + url@ + " → "@ + dec(status as nat)),
        ],
        StepTypeResult::Import { path, added, removed, .. } => seq![
            plain("import: "@),
            bold(path@),
            plain(" → "@ + dec(added@.len()) + " added, "@ + dec(removed@.len()) + " removed"@),
        ],
        StepTypeResult::If { condition_met, branch, results } => seq![
            plain("if ("@ + (if condition_met { "true"@ } else { "false"@ }) + ") → "@ + branch@ + " ("@ + dec(results@.len()) + " steps)"@),
        ],
        StepTypeResult::Each { items, results } => seq![
            plain("each: "@ + dec(items@.len()) + " items → "@ + dec(results@.len()) + " results"@),
        ],
        StepTypeResult::Parallel { results } => seq![plain("parallel: "@ + dec(results@.len()) + " sub-steps"@)],
    }
}

/// The keys an extract result lists: those of the extracted object, sorted.
pub open spec fn keys_of(t: StepTypeResult) -> Seq<Seq<char>> {
    match t {
        StepTypeResult::Extract { data, .. } => object_keys(data@),
        _ => Seq::empty(),
    }
}

/// How a result is described.
pub open spec fn step_segments(t: StepTypeResult) -> Seq<(Seq<char>, Option<Seq<char>>, bool)> {
    type_segments(t, keys_of(t))
}

fn push_seg(v: &mut Vec<Segment>, text: String, color: Option<&str>, is_bold: bool)
    ensures
        seg_views(final(v)@) == seg_views(old(v)@).push(
            (
                text@,
                match color {
                    Some(c) => Some(c@),
                    None => None,
                },
                is_bold,
            ),
        ),
{
    let c = match color {
        Some(c) => Some(owned(c)),
        None => None,
    };
    let ghost before = seg_views(v@);
    v.push(Segment { text, color: c, bold: is_bold });
    assert(seg_views(v@) =~= before.push(seg_view(v@.last())));
}

/// A count in decimal.
fn count_text(prefix: &str, n: usize, suffix: &str) -> (r: String)
    ensures
        r@ == prefix@ + dec(n as nat) + suffix@,
{
    let mut r = owned(prefix);
    push_dec(&mut r, n as u64);
    push_str(&mut r, suffix);
    r
}

/// Describes a step result as styled text.
pub fn format_step_type(result: &StepResult) -> (r: Vec<Segment>)
    ensures
        seg_views(r@) == step_segments(result.step_type),
{
    let mut v: Vec<Segment> = Vec::new();
    match &result.step_type {
        StepTypeResult::Bash { cmd, stdout, exit_code, .. } => {
            push_seg(&mut v, owned("bash: "), None, false);
            push_seg(&mut v, cmd.clone(), None, true);
            if stdout.unicode_len() > 0 {
                push_seg(&mut v, owned("\n        "), None, false);
                push_seg(&mut v, trim_str(stdout.as_str()), Some("dimmed"), false);
            }
            if *exit_code != 0 {
                let mut t = owned(" [exit: ");
                push_idec(&mut t, *exit_code);
                push_str(&mut t, "]");
                push_seg(&mut v, t, None, false);
            }
        },
        StepTypeResult::Read { path, files, .. } => {
            push_seg(&mut v, owned("read: "), None, false);
            push_seg(&mut v, path.clone(), None, true);
            push_seg(&mut v, count_text(" → ", files.len(), " files"), None, false);
        },
        StepTypeResult::Write { path, .. } => {
            push_seg(&mut v, owned("write: "), None, false);
            push_seg(&mut v, path.clone(), None, true);
        },
        StepTypeResult::Patch { path, edits_applied, .. } => {
            push_seg(&mut v, owned("patch: "), None, false);
            push_seg(&mut v, path.clone(), None, true);
            push_seg(&mut v, count_text(" → ", *edits_applied, " edits"), None, false);
        },
        StepTypeResult::Mv { from, to } => {
            push_seg(&mut v, owned("mv: "), None, false);
            push_seg(&mut v, from.clone(), None, true);
            push_seg(&mut v, owned(" → "), None, false);
            push_seg(&mut v, to.clone(), None, true);
        },
        StepTypeResult::Cp { from, to } => {
            push_seg(&mut v, owned("cp: "), None, false);
            push_seg(&mut v, from.clone(), None, true);
            push_seg(&mut v, owned(" → "), None, false);
            push_seg(&mut v, to.clone(), None, true);
        },
        StepTypeResult::Rm { path } => {
            push_seg(&mut v, owned("rm: "), None, false);
            push_seg(&mut v, path.clone(), None, true);
        },
        StepTypeResult::Mkdir { path } => {
            push_seg(&mut v, owned("mkdir: "), None, false);
            push_seg(&mut v, path.clone(), None, true);
        },
        StepTypeResult::Grep { pattern, matches } => {
            push_seg(&mut v, owned("grep: "), None, false);
            push_seg(&mut v, pattern.clone(), None, true);
            push_seg(&mut v, count_text(" → ", matches.len(), " matches"), None, false);
        },
        StepTypeResult::Replace { pattern, files_modified, total_replacements, .. } => {
            push_seg(&mut v, owned("replace: "), None, false);
            push_seg(&mut v, pattern.clone(), None, true);
            let mut t = count_text(" → ", *files_modified, " files, ");
            push_dec(&mut t, *total_replacements as u64);
            push_str(&mut t, " replacements");
            push_seg(&mut v, t, None, false);
        },
        StepTypeResult::Scan { path, file_count, stack, .. } => {
            push_seg(&mut v, owned("scan: "), None, false);
            push_seg(&mut v, path.clone(), None, true);
            let mut t = count_text(" → ", *file_count, " files, stack: ");
            let j = join_strings(stack.as_slice(), ", ");
            push_str(&mut t, j.as_str());
            push_seg(&mut v, t, None, false);
        },
        StepTypeResult::Summarize { path, summary } => {
            push_seg(&mut v, owned("summarize: "), None, false);
            push_seg(&mut v, path.clone(), None, true);
            let mut t = count_text(" → ", summary.exports.len(), " exports, ");
            push_dec(&mut t, summary.functions.len() as u64);
            push_str(&mut t, " functions");
            push_seg(&mut v, t, None, false);
        },
        StepTypeResult::Extract { path, data } => {
            push_seg(&mut v, owned("extract: "), None, false);
            push_seg(&mut v, path.clone(), None, true);
            let keys = sorted_keys_of(data);
            let mut t = owned(" → keys: ");
            let j = join_strings(keys.as_slice(), ", ");
            push_str(&mut t, j.as_str());
            push_seg(&mut v, t, None, false);
        },
        StepTypeResult::Diff { a, b, added, removed, .. } => {
            push_seg(&mut v, owned("diff: "), None, false);
            push_seg(&mut v, a.clone(), None, true);
            let mut t = owned(" → ");
            push_str(&mut t, b.as_str());
            push_str(&mut t, " +");
            push_dec(&mut t, *added as u64);
            push_str(&mut t, " -");
            push_dec(&mut t, *removed as u64);
            push_seg(&mut v, t, None, false);
        },
        StepTypeResult::Lint { errors_count, warnings_count, .. } => {
            let mut t = count_text("lint: ", *errors_count, " errors, ");
            push_dec(&mut t, *warnings_count as u64);
            push_str(&mut t, " warnings");
            push_seg(&mut v, t, None, false);
        },
        StepTypeResult::Template { output, rendered } => {
            push_seg(&mut v, owned("template: "), None, false);
            push_seg(&mut v, output.clone(), None, true);
            let mut t = owned(" → ");
            push_str(&mut t, if *rendered { "ok" } else { "failed" });
            push_seg(&mut v, t, None, false);
        },
        StepTypeResult::Snapshot { path, id, .. } => {
            push_seg(&mut v, owned("snapshot: "), None, false);
            push_seg(&mut v, path.clone(), None, true);
            let mut t = owned(" → ");
            push_str(&mut t, id.as_str());
            push_seg(&mut v, t, None, false);
        },
        StepTypeResult::Restore { id, restored } => {
            let mut t = owned("restore: ");
            push_str(&mut t, id.as_str());
            push_str(&mut t, " → ");
            push_str(&mut t, if *restored { "ok" } else { "failed" });
            push_seg(&mut v, t, None, false);
        },
        StepTypeResult::Git { op, output } => {
            let mut t = owned("git ");
            let d = debug_quoted(op.as_str());
            push_str(&mut t, d.as_str());
            push_str(&mut t, " → ");
            match output.get_key("error") {
                Some(e) => {
                    let et = json_to_string(e);
                    push_str(&mut t, et.as_str());
                },
                None => {
                    push_str(&mut t, "ok");
                },
            }
            push_seg(&mut v, t, None, false);
        },
        StepTypeResult::Http { method, url, status, .. } => {
            let mut t = owned("http: ");
            push_str(&mut t, method.as_str());
            push_str(&mut t, " ");
            push_str(&mut t, url.as_str());
            push_str(&mut t, " → ");
            push_dec(&mut t, *status as u64);
            push_seg(&mut v, t, None, false);
        },
        StepTypeResult::Import { path, added, removed, .. } => {
            push_seg(&mut v, owned("import: "), None, false);
            push_seg(&mut v, path.clone(), None, true);
            let mut t = count_text(" → ", added.len(), " added, ");
            push_dec(&mut t, removed.len() as u64);
            push_str(&mut t, " removed");
            push_seg(&mut v, t, None, false);
        },
        StepTypeResult::If { condition_met, branch, results } => {
            let mut t = owned("if (");
            push_str(&mut t, if *condition_met { "true" } else { "false" });
            push_str(&mut t, ") → ");
            push_str(&mut t, branch.as_str());
            push_str(&mut t, " (");
            push_dec(&mut t, results.len() as u64);
            push_str(&mut t, " steps)");
            push_seg(&mut v, t, None, false);
        },
        StepTypeResult::Each { items, results } => {
            let mut t = count_text("each: ", items.len(), " items → ");
            push_dec(&mut t, results.len() as u64);
            push_str(&mut t, " results");
            push_seg(&mut v, t, None, false);
        },
        StepTypeResult::Parallel { results } => {
            push_seg(&mut v, count_text("parallel: ", results.len(), " sub-steps"), None, false);
        },
    }
    assert(seg_views(v@) =~= step_segments(result.step_type));
    v
}

// ---------------------------------------------------------------------------
// the whole report
// ---------------------------------------------------------------------------

/// The color of the run's status.
pub open spec fn run_color(status: Seq<char>) -> Seq<char> {
    if status == "ok"@ {
        "green"@
    } else if status == "partial"@ {
        "yellow"@
    } else {
        "red"@
    }
}

/// The color of a step's status.
pub open spec fn step_color(status: Seq<char>) -> Seq<char> {
    if status == "ok"@ {
        "green"@
    } else if status == "error"@ {
        "red"@
    } else if status == "skipped"@ {
        "yellow"@
    } else {
        "white"@
    }
}

/// `n` spaces.
pub open spec fn spaces(n: nat) -> Seq<char> {
    Seq::new(n, |i: int| ' ')
}

/// Text right-aligned in three columns (`{:>3}`).
pub open spec fn pad3(t: Seq<char>) -> Seq<char> {
    if t.len() < 3 {
        spaces((3 - t.len()) as nat) + t
    } else {
        t
    }
}

/// The first line of the report, and the blank line after it.
pub open spec fn header_segments(o: Output) -> Seq<(Seq<char>, Option<Seq<char>>, bool)> {
    let c = run_color(o.status@);
    seq![
        colored("●"@, c, true),
        plain(" ["@),
        colored(upper(o.status@), c, true),
        plain(
            "] "@ + dec(o.steps_total as nat) + " steps ("@ + dec(o.steps_ok as nat) + " ok, "@ + dec(
                o.steps_failed as nat,
            ) + " failed) in "@ + dec(o.duration_ms as nat) + "ms\n\n"@,
        ),
    ]
}

/// The line of one step.
pub open spec fn result_segments(r: StepResult) -> Seq<(Seq<char>, Option<Seq<char>>, bool)> {
    seq![
        plain("  ["@),
        colored(r.status@, step_color(r.status@), false),
        plain(pad3(dec(r.index as nat))),
        colored("ms"@, "dimmed"@, false),
        plain("] "@),
    ] + step_segments(r.step_type) + seq![plain("\n"@)]
}

/// The lines of the steps, in order.
pub open spec fn results_segments(rs: Seq<StepResult>) -> Seq<(Seq<char>, Option<Seq<char>>, bool)>
    decreases rs.len(),
{
    if rs.len() == 0 {
        Seq::empty()
    } else {
        results_segments(rs.drop_last()) + result_segments(rs.last())
    }
}

/// The human-readable report of a run.
pub open spec fn pretty_segments(o: Output) -> Seq<(Seq<char>, Option<Seq<char>>, bool)> {
    header_segments(o) + results_segments(o.results@)
}

fn run_color_of(status: &str) -> (r: &'static str)
    ensures
        r@ == run_color(status@),
{
    if same_text(status, "ok") {
        "green"
    } else if same_text(status, "partial") {
        "yellow"
    } else {
        "red"
    }
}

fn step_color_of(status: &str) -> (r: &'static str)
    ensures
        r@ == step_color(status@),
{
    if same_text(status, "ok") {
        "green"
    } else if same_text(status, "error") {
        "red"
    } else if same_text(status, "skipped") {
        "yellow"
    } else {
        "white"
    }
}

fn padded3(t: &str) -> (r: String)
    ensures
        r@ == pad3(t@),
{
    let n = t.unicode_len();
    let mut r = String::new();
    let mut i: usize = n;
    while i < 3
        invariant
            n == t@.len(),
            n <= i <= 3 || (n > 3 && i == n),
            r@ == spaces((i - n) as nat),
        decreases 3 - i,
    {
        push_char(&mut r, ' ');
        assert(r@ =~= spaces((i + 1 - n) as nat));
        i = i + 1;
    }
    push_str(&mut r, t);
    if n >= 3 {
        assert(r@ =~= t@);
    }
    r
}

/// The segments of one step's line, appended.
fn push_result(v: &mut Vec<Segment>, r: &StepResult)
    ensures
        seg_views(final(v)@) == seg_views(old(v)@) + result_segments(*r),
{
    let ghost before = seg_views(v@);
    push_seg(v, owned("  ["), None, false);
    push_seg(v, r.status.clone(), Some(step_color_of(r.status.as_str())), false);
    let idx = crate::text::dec_string(r.index as u64);
    push_seg(v, padded3(idx.as_str()), None, false);
    push_seg(v, owned("ms"), Some("dimmed"), false);
    push_seg(v, owned("] "), None, false);
    let ghost mid = seg_views(v@);
    let t = format_step_type(r);
    let mut i: usize = 0;
    while i < t.len()
        invariant
            i <= t@.len(),
            seg_views(t@) == step_segments(r.step_type),
            seg_views(v@) == mid + seg_views(t@).take(i as int),
        decreases t.len() - i,
    {
        let s = &t[i];
        let c = match &s.color {
            Some(c) => Some(c.as_str()),
            None => None,
        };
        push_seg(v, s.text.clone(), c, s.bold);
        assert(seg_views(t@).take(i + 1) =~= seg_views(t@).take(i as int).push(seg_view(t@[i as int])));
        i = i + 1;
    }
    assert(seg_views(t@).take(t@.len() as int) =~= seg_views(t@));
    push_seg(v, owned("\n"), None, false);
    assert(seg_views(v@) =~= before + result_segments(*r));
}

/// The report of a run as styled text: a header with the status and the
/// counts, then one line per step with its status, index and description.
pub fn format_pretty(output: &Output) -> (r: Vec<Segment>)
    ensures
        seg_views(r@) == pretty_segments(*output),
{
    let mut v: Vec<Segment> = Vec::new();
    let c = run_color_of(output.status.as_str());
    push_seg(&mut v, owned("●"), Some(c), true);
    push_seg(&mut v, owned(" ["), None, false);
    push_seg(&mut v, str_to_uppercase(output.status.as_str()), Some(c), true);
    let mut t = count_text("] ", output.steps_total, " steps (");
    push_dec(&mut t, output.steps_ok as u64);
    push_str(&mut t, " ok, ");
    push_dec(&mut t, output.steps_failed as u64);
    push_str(&mut t, " failed) in ");
    push_dec(&mut t, output.duration_ms);
    push_str(&mut t, "ms\n\n");
    push_seg(&mut v, t, None, false);
    assert(seg_views(v@) =~= header_segments(*output));
    let mut i: usize = 0;
    while i < output.results.len()
        invariant
            i <= output.results@.len(),
            seg_views(v@) == header_segments(*output) + results_segments(output.results@.take(i as int)),
        decreases output.results.len() - i,
    {
        push_result(&mut v, &output.results[i]);
        assert(output.results@.take(i + 1).drop_last() =~= output.results@.take(i as int));
        i = i + 1;
    }
    assert(output.results@.take(output.results@.len() as int) =~= output.results@);
    v
}

/// A report, ready to be written out.
#[derive(Debug)]
pub enum Report {
    /// Plain text (the JSON record, or nothing).
    Text(String),
    /// Styled lines.
    Styled(Vec<Segment>),
}

/// The report of a run in the chosen format: the run's JSON record as
/// compact text, fields in the record's order, the styled lines when it is
/// pretty, and nothing at all when it is silent.
pub fn format_output(output: &Output, format: OutputFormat) -> (r: Report)
    ensures
        format == OutputFormat::Json ==> (r matches Report::Text(t) && t@ == crate::record::output_text(
            *output,
        )),
        format == OutputFormat::Pretty ==> (r matches Report::Styled(v) && seg_views(v@) == pretty_segments(
            *output,
        )),
        format == OutputFormat::Silent ==> (r matches Report::Text(t) && t@.len() == 0),
{
    match format {
        OutputFormat::Json => Report::Text(output.record_text()),
        OutputFormat::Pretty => Report::Styled(format_pretty(output)),
        OutputFormat::Silent => Report::Text(String::new()),
    }
}

} // verus!
