//! References between steps: placeholders substituted into step fields.
use crate::json::{get_index, get_key, int_view, json_view, opt_json, Json, JsonView};
use crate::results::{
    count_json, file_summary_json, files_json, lint_errors_json, matches_json, opt_str_json,
    results_json, step_result_json, strs_json, StepResult, StepTypeResult,
};
use crate::text::{
    chars_of, find_char, lemma_find_char, owned, parse_u64, parse_u64_spec, push_str, replace_all,
    replace_all_spec, same_text, split_chars, split_spec, string_of, vviews, push_char, starts_with_spec,
};
use vstd::prelude::*;

verus! {

/// The placeholder that stands for variable `name`: `{{name}}`.
pub open spec fn placeholder(name: Seq<char>) -> Seq<char> {
    "{{"@ + name + "}}"@
}

/// `template` with every `{{var_name}}` replaced by `value`.
pub fn substitute_vars(template: &str, var_name: &str, value: &str) -> (r: String)
    ensures
        r@ == replace_all_spec(template@, placeholder(var_name@), value@),
{
    let mut pattern = owned("{{");
    push_str(&mut pattern, var_name);
    push_str(&mut pattern, "}}");
    replace_all(template, pattern.as_str(), value)
}

/// A template that does not mention a variable's placeholder is left as it
/// is by substituting that variable.
pub proof fn lemma_substitute_absent(template: Seq<char>, var_name: Seq<char>, value: Seq<char>)
    requires
        !crate::text::contains_spec(template, placeholder(var_name)),
    ensures
        replace_all_spec(template, placeholder(var_name), value) == template,
{
    reveal_strlit("{{");
    reveal_strlit("}}");
    lemma_replace_absent(template, placeholder(var_name), value);
}

proof fn lemma_replace_absent(s: Seq<char>, p: Seq<char>, r: Seq<char>)
    requires
        p.len() > 0,
        !crate::text::contains_spec(s, p),
    ensures
        crate::text::replace_spec(s, p, r) == s,
    decreases s.len(),
{
    if s.len() > 0 {
        assert(!crate::text::occurs_at(s, p, 0));
        let t = s.skip(1);
        assert forall|i: int| !crate::text::occurs_at(t, p, i) by {
            if crate::text::occurs_at(t, p, i) {
                assert(s.subrange(i + 1, i + 1 + p.len()) =~= t.subrange(i, i + p.len()));
                assert(crate::text::occurs_at(s, p, i + 1));
            }
        }
        lemma_replace_absent(t, p, r);
        assert(s =~= seq![s[0]] + t);
    }
}

// ---------------------------------------------------------------------------
// environment placeholders
// ---------------------------------------------------------------------------

/// `c` is a word character of the `regex` crate (`\w`, Unicode-aware): the
/// characters its `\w` matches.
pub uninterp spec fn regex_word(c: char) -> bool;

/// The length of the run of characters satisfying `word` that `s` starts
/// with.
pub open spec fn word_run(s: Seq<char>, word: spec_fn(char) -> bool) -> nat
    decreases s.len(),
{
    if s.len() > 0 && word(s[0]) {
        1 + word_run(s.skip(1), word)
    } else {
        0
    }
}

/// The length of the variable name of an `{{env.NAME}}` placeholder that
/// `s` starts with (a non-empty run of `word` characters), or 0 when `s`
/// starts with none.
pub open spec fn env_name_len(s: Seq<char>, word: spec_fn(char) -> bool) -> nat {
    let n = word_run(s.skip(6), word);
    if s.len() >= 6 && starts_with_spec(s, "{{env."@) && n > 0 && starts_with_spec(s.skip(6 + n as int), "}}"@) {
        n
    } else {
        0
    }
}

/// `s` with each `{{env.NAME}}` placeholder, scanned from the left and with
/// `NAME` made of `word` characters, replaced by the variable's value; a
/// placeholder of an unset variable is kept as it is.
pub open spec fn env_subst_by(s: Seq<char>, env: Map<Seq<char>, Seq<char>>, word: spec_fn(char) -> bool) -> Seq<char>
    decreases s.len(),
{
    if s.len() == 0 {
        s
    } else {
        let n = env_name_len(s, word);
        if n > 0 {
            proof {
                reveal_strlit("}}");
                lemma_word_run_bound(s.skip(6), word);
                assert(s.skip(6 + n as int).len() >= 2);
            }
            let name = s.subrange(6, 6 + n as int);
            let whole = s.take(8 + n as int);
            (if env.dom().contains(name) { env[name] } else { whole }) + env_subst_by(s.skip(8 + n as int), env, word)
        } else {
            seq![s[0]] + env_subst_by(s.skip(1), env, word)
        }
    }
}

/// `template` with each `{{env.NAME}}` placeholder, `NAME` made of the
/// characters `\w` matches, replaced by the variable's value; a placeholder
/// of an unset variable is kept as it is.
pub open spec fn env_subst(s: Seq<char>, env: Map<Seq<char>, Seq<char>>) -> Seq<char> {
    env_subst_by(s, env, |c: char| regex_word(c))
}

/// The word run a string starts with is within it, made of word
/// characters, and followed by none.
pub proof fn lemma_word_run_bound(s: Seq<char>, word: spec_fn(char) -> bool)
    ensures
        word_run(s, word) <= s.len(),
        forall|k: int| 0 <= k < word_run(s, word) ==> word(s[k]),
        word_run(s, word) < s.len() ==> !word(s[word_run(s, word) as int]),
    decreases s.len(),
{
    if s.len() > 0 && word(s[0]) {
        lemma_word_run_bound(s.skip(1), word);
        assert forall|k: int| 0 <= k < word_run(s, word) implies word(s[k]) by {
            if k > 0 {
                assert(s.skip(1)[k - 1] == s[k]);
            }
        }
        if word_run(s, word) < s.len() {
            assert(s.skip(1)[word_run(s.skip(1), word) as int] == s[word_run(s, word) as int]);
        }
    }
}

/// A template with no `{{env.` in it is left as it is.
pub proof fn lemma_env_subst_absent(template: Seq<char>, env: Map<Seq<char>, Seq<char>>)
    requires
        !crate::text::contains_spec(template, "{{env."@),
    ensures
        env_subst(template, env) == template,
{
    lemma_env_subst_by_absent(template, env, |c: char| regex_word(c));
}

proof fn lemma_env_subst_by_absent(template: Seq<char>, env: Map<Seq<char>, Seq<char>>, word: spec_fn(char) -> bool)
    requires
        !crate::text::contains_spec(template, "{{env."@),
    ensures
        env_subst_by(template, env, word) == template,
    decreases template.len(),
{
    let s = template;
    if s.len() > 0 {
        assert(!crate::text::occurs_at(s, "{{env."@, 0));
        assert(env_name_len(s, word) == 0);
        let t = s.skip(1);
        assert forall|i: int| !crate::text::occurs_at(t, "{{env."@, i) by {
            if crate::text::occurs_at(t, "{{env."@, i) {
                assert(s.subrange(i + 1, i + 1 + "{{env."@.len()) =~= t.subrange(i, i + "{{env."@.len()));
                assert(crate::text::occurs_at(s, "{{env."@, i + 1));
            }
        }
        lemma_env_subst_by_absent(t, env, word);
        assert(s =~= seq![s[0]] + t);
    }
}

/// What a placeholder `whole` naming `name` becomes: the variable's value in
/// `env` (the last assignment of a name wins), or the placeholder itself
/// when the variable is not set.
pub fn env_value(env: &[(String, String)], name: &str, whole: &str) -> (r: String)
    ensures
        r@ == (if crate::config::env_map(crate::text::pair_views(env@)).dom().contains(name@) {
            crate::config::env_map(crate::text::pair_views(env@))[name@]
        } else {
            whole@
        }),
{
    match crate::config::Config::lookup(env, name) {
        Some(v) => v,
        None => crate::text::owned(whole),
    }
}

/// `regex::Regex::new(r"\{\{env\.(\w+)\}\}")` and its `replace_all` on
/// `template`, each match replaced by [`env_value`] of its name and its
/// whole text.  `replace_all` replaces the non-overlapping matches found
/// from the left, each the leftmost one after the last; a match of this
/// pattern is `{{env.`, a run of `\w` characters that cannot stop before a
/// word character (the `}` that must follow is none), and `}}`.  The
/// contract states that result as [`env_subst`].
#[verifier::external_body]
fn regex_env_replace(template: &str, env: &[(String, String)]) -> (r: String)
    ensures
        r@ == env_subst_by(
            template@,
            crate::config::env_map(crate::text::pair_views(env@)),
            |c: char| regex_word(c),
        ),
{
    match regex::Regex::new(r"\{\{env\.(\w+)\}\}") {
        Ok(re) => re.replace_all(template, |caps: &regex::Captures| env_value(env, &caps[1], &caps[0])).to_string(),
        Err(_) => template.to_string(),
    }
}

/// Replaces each `{{env.NAME}}` placeholder by the variable's value in
/// `env` (the last assignment of a name wins); a placeholder of a variable
/// that is not set is left as it is.
pub fn substitute_env_vars(template: &str, env: &[(String, String)]) -> (r: String)
    ensures
        r@ == env_subst(template@, crate::config::env_map(crate::text::pair_views(env@))),
{
    regex_env_replace(template, env)
}

// ---------------------------------------------------------------------------
// reading values out of earlier results
// ---------------------------------------------------------------------------

/// The value an earlier step's result offers to references.
pub open spec fn ref_value(r: StepResult) -> JsonView {
    match r.step_type {
        StepTypeResult::Bash { stdout, stderr, exit_code, .. } => JsonView::Object(
            map![
                "stdout"@ => JsonView::Str(stdout@),
                "stderr"@ => JsonView::Str(stderr@),
                "exit_code"@ => int_view(exit_code as i64),
            ],
        ),
        StepTypeResult::Read { files, .. } => JsonView::Object(
            map!["files"@ => files_json(files@)],
        ),
        StepTypeResult::Grep { matches, .. } => JsonView::Object(
            map!["matches"@ => matches_json(matches@)],
        ),
        StepTypeResult::Replace { files_modified, total_replacements, .. } => JsonView::Object(
            map![
                "files_modified"@ => count_json(files_modified),
                "total_replacements"@ => count_json(total_replacements),
            ],
        ),
        StepTypeResult::Scan { .. } => JsonView::Object(map!["scan"@ => JsonView::Bool(true)]),
        StepTypeResult::Summarize { summary, .. } => JsonView::Object(
            map!["summary"@ => file_summary_json(summary)],
        ),
        StepTypeResult::Extract { data, .. } => json_view(data),
        StepTypeResult::Diff { added, removed, is_identical, .. } => JsonView::Object(
            map![
                "added"@ => count_json(added),
                "removed"@ => count_json(removed),
                "is_identical"@ => JsonView::Bool(is_identical),
            ],
        ),
        StepTypeResult::Lint { errors_count, warnings_count, errors } => JsonView::Object(
            map![
                "errors_count"@ => count_json(errors_count),
                "warnings_count"@ => count_json(warnings_count),
                "errors"@ => lint_errors_json(errors@),
            ],
        ),
        StepTypeResult::Http { status, body, .. } => JsonView::Object(
            map!["status"@ => JsonView::PosInt(status as u64), "body"@ => opt_str_json(body)],
        ),
        StepTypeResult::If { condition_met, results, .. } => JsonView::Object(
            map![
                "condition_met"@ => JsonView::Bool(condition_met),
                "results"@ => JsonView::Array(results_json(results@)),
            ],
        ),
        StepTypeResult::Each { items, results } => JsonView::Object(
            map![
                "items"@ => strs_json(items@),
                "results"@ => JsonView::Array(results_json(results@)),
            ],
        ),
        StepTypeResult::Parallel { results } => JsonView::Object(
            map!["results"@ => JsonView::Array(results_json(results@))],
        ),
        _ => JsonView::Object(map!["result"@ => step_result_json(r)]),
    }
}

/// `c` occurs in `s`.
pub open spec fn has_char(s: Seq<char>, c: char) -> bool {
    find_char(s, c) >= 0
}

/// The part of a path segment before its first `[`.
pub open spec fn key_of(part: Seq<char>) -> Seq<char> {
    let i = find_char(part, '[');
    if i < 0 {
        part
    } else {
        part.take(i)
    }
}

/// `s` without the copies of `c` it starts with.
pub open spec fn trim_start_char(s: Seq<char>, c: char) -> Seq<char>
    decreases s.len(),
{
    if s.len() > 0 && s[0] == c {
        trim_start_char(s.skip(1), c)
    } else {
        s
    }
}

/// `s` without the copies of `c` it ends with.
pub open spec fn trim_end_char(s: Seq<char>, c: char) -> Seq<char>
    decreases s.len(),
{
    if s.len() > 0 && s.last() == c {
        trim_end_char(s.drop_last(), c)
    } else {
        s
    }
}

/// An index as `str::parse::<usize>` reads it.
pub open spec fn parse_index(s: Seq<char>) -> Option<int> {
    match parse_u64_spec(s) {
        Some(n) => if n <= usize::MAX {
            Some(n as int)
        } else {
            None
        },
        None => None,
    }
}

/// The values under `key` of those items that are objects having one.
pub open spec fn picks(items: Seq<JsonView>, key: Seq<char>) -> Seq<JsonView>
    decreases items.len(),
{
    if items.len() == 0 {
        Seq::empty()
    } else {
        let rest = picks(items.drop_last(), key);
        match get_key(items.last(), key) {
            Some(v) => rest.push(v),
            None => rest,
        }
    }
}

/// Following the segments of a path from segment `i` on.  An empty segment
/// is skipped; a plain segment is an object key; a segment with `[` or `*`
/// is a key (possibly empty) then a bracket: `[n]` indexes an array, `[*]`
/// picks the next segment's key out of every element (or, last, stands for
/// the whole array).  A bracket on something that is not an array, or that
/// is neither `*` nor an index, is passed over.
pub open spec fn walk(cur: JsonView, parts: Seq<Seq<char>>, i: int) -> Option<JsonView>
    decreases parts.len() - i,
{
    if i < 0 || i >= parts.len() {
        Some(cur)
    } else {
        let part = parts[i];
        if part.len() == 0 {
            walk(cur, parts, i + 1)
        } else if has_char(part, '[') || has_char(part, '*') {
            let key = key_of(part);
            let found = if key.len() > 0 {
                get_key(cur, key)
            } else {
                Some(cur)
            };
            match found {
                None => None,
                Some(c) => {
                    let rest = part.skip(key.len() as int);
                    if rest.len() == 0 {
                        walk(c, parts, i + 1)
                    } else {
                        let b = trim_end_char(trim_start_char(rest, '['), ']');
                        match c {
                            JsonView::Array(items) => if b == "*"@ {
                                if i + 1 < parts.len() {
                                    Some(JsonView::Array(picks(items, parts[i + 1])))
                                } else {
                                    Some(c)
                                }
                            } else {
                                match parse_index(b) {
                                    Some(n) => match get_index(c, n) {
                                        Some(x) => walk(x, parts, i + 1),
                                        None => None,
                                    },
                                    None => walk(c, parts, i + 1),
                                }
                            },
                            _ => walk(c, parts, i + 1),
                        }
                    }
                },
            }
        } else {
            match get_key(cur, part) {
                Some(v) => walk(v, parts, i + 1),
                None => None,
            }
        }
    }
}

/// What a `.`-separated path picks out of a value.
pub open spec fn jsonpath(v: JsonView, path: Seq<char>) -> Option<JsonView> {
    walk(v, split_spec(path, '.'), 0)
}

/// What a reference to step `step_index` with path `pick` resolves to.
pub open spec fn resolve_ref_spec(step_index: int, pick: Seq<char>, results: Seq<StepResult>) -> Option<
    JsonView,
> {
    if step_index < 0 || step_index >= results.len() {
        None
    } else {
        let v = ref_value(results[step_index]);
        if pick.len() == 0 || pick == "*"@ {
            Some(v)
        } else {
            jsonpath(v, pick)
        }
    }
}

/// Whether `c` occurs in `v`.
fn has_char_exec(v: &[char], c: char) -> (r: bool)
    ensures
        r == has_char(v@, c),
{
    let mut i: usize = 0;
    while i < v.len()
        invariant
            i <= v.len(),
            forall|j: int| 0 <= j < i ==> v@[j] != c,
        decreases v.len() - i,
    {
        if v[i] == c {
            proof {
                lemma_find_char(v@, c);
                if find_char(v@, c) < 0 {
                    assert(v@[i as int] != c);
                }
            }
            return true;
        }
        i = i + 1;
    }
    proof {
        lemma_find_char(v@, c);
        if find_char(v@, c) >= 0 {
            assert(v@[find_char(v@, c)] == c);
        }
    }
    false
}

/// Where the key of a segment ends: its first `[`, or its end.
fn key_len(part: &[char]) -> (k: usize)
    ensures
        k <= part.len(),
        part@.take(k as int) == key_of(part@),
{
    let mut i: usize = 0;
    while i < part.len() && part[i] != '['
        invariant
            i <= part.len(),
            forall|j: int| 0 <= j < i ==> part@[j] != '[',
        decreases part.len() - i,
    {
        i = i + 1;
    }
    proof {
        lemma_find_char(part@, '[');
        if i < part.len() {
            if find_char(part@, '[') < i {
                assert(part@[find_char(part@, '[')] == '[');
            }
            assert(find_char(part@, '[') == i);
        } else {
            if find_char(part@, '[') >= 0 {
                assert(part@[find_char(part@, '[')] == '[');
            }
            assert(part@.take(i as int) =~= part@);
        }
    }
    i
}

/// The bracket of a segment: `rest` without leading `[` and trailing `]`.
fn bracket_of(rest: &[char]) -> (r: Vec<char>)
    ensures
        r@ == trim_end_char(trim_start_char(rest@, '['), ']'),
{
    let mut a: usize = 0;
    assert(rest@.skip(0) =~= rest@);
    while a < rest.len() && rest[a] == '['
        invariant
            a <= rest.len(),
            trim_start_char(rest@, '[') == trim_start_char(rest@.skip(a as int), '['),
        decreases rest.len() - a,
    {
        assert(rest@.skip(a as int).skip(1) =~= rest@.skip(a + 1));
        a = a + 1;
    }
    let ghost t = rest@.skip(a as int);
    assert(trim_start_char(t, '[') == t);
    let mut b: usize = rest.len();
    assert(t =~= rest@.subrange(a as int, b as int));
    while b > a && rest[b - 1] == ']'
        invariant
            a <= b <= rest.len(),
            trim_end_char(t, ']') == trim_end_char(rest@.subrange(a as int, b as int), ']'),
        decreases b,
    {
        assert(rest@.subrange(a as int, b as int).drop_last() =~= rest@.subrange(
            a as int,
            b - 1,
        ));
        b = b - 1;
    }
    crate::text::slice_chars(rest, a, b)
}

/// The values under `key` of those items that are objects having one.
fn picks_exec(items: &Vec<Json>, key: &str) -> (r: Vec<Json>)
    ensures
        crate::json::json_views(r@) == picks(crate::json::json_views(items@), key@),
{
    let mut out: Vec<Json> = Vec::new();
    let mut i: usize = 0;
    proof {
        crate::json::lemma_views_len(items@);
    }
    while i < items.len()
        invariant
            i <= items.len(),
            crate::json::json_views(items@).len() == items@.len(),
            crate::json::json_views(out@) == picks(
                crate::json::json_views(items@).take(i as int),
                key@,
            ),
        decreases items.len() - i,
    {
        proof {
            crate::json::lemma_views_index(items@, i as int);
            let vs = crate::json::json_views(items@);
            assert(vs.take(i + 1).drop_last() =~= vs.take(i as int));
            assert(vs.take(i + 1).last() == vs[i as int]);
        }
        match items[i].get_key(key) {
            Some(v) => {
                let c = v.copy();
                proof {
                    crate::json::lemma_views_push(out@, c);
                }
                out.push(c);
            },
            None => {},
        }
        i = i + 1;
    }
    assert(crate::json::json_views(items@).take(items.len() as int) =~= crate::json::json_views(
        items@,
    ));
    out
}

/// An index as `str::parse::<usize>` reads it.
fn parse_index_exec(b: &[char]) -> (r: Option<usize>)
    ensures
        r matches Some(n) ==> parse_index(b@) == Some(n as int),
        r is None ==> parse_index(b@) is None,
{
    match parse_u64(b) {
        Some(n) => if n <= usize::MAX as u64 {
            Some(n as usize)
        } else {
            None
        },
        None => None,
    }
}

/// What a `.`-separated path picks out of `value`.
pub fn resolve_jsonpath(value: &Json, path: &str) -> (r: Option<Json>)
    ensures
        opt_json(r) == jsonpath(value@, path@),
{
    let pv = chars_of(path);
    let parts = split_chars(pv.as_slice(), '.');
    let ghost ps = vviews(parts@);
    let mut current = value.copy();
    let mut i: usize = 0;
    while i < parts.len()
        invariant
            i <= parts.len(),
            ps == vviews(parts@),
            ps == split_spec(path@, '.'),
            jsonpath(value@, path@) == walk(current@, ps, i as int),
        decreases parts.len() - i,
    {
        let part = &parts[i];
        assert(ps[i as int] == part@);
        if part.len() == 0 {
            i = i + 1;
        } else if has_char_exec(part.as_slice(), '[') || has_char_exec(part.as_slice(), '*') {
            let k = key_len(part.as_slice());
            let key = crate::text::string_of_range(part.as_slice(), 0, k);
            assert(part@.subrange(0, k as int) =~= part@.take(k as int));
            if k > 0 {
                match current.get_key(key.as_str()) {
                    Some(v) => {
                        current = v.copy();
                    },
                    None => {
                        return None;
                    },
                }
            }
            let rest = crate::text::slice_chars(part.as_slice(), k, part.len());
            assert(rest@ =~= part@.skip(k as int));
            if rest.len() == 0 {
                i = i + 1;
            } else {
                let b = bracket_of(rest.as_slice());
                let is_arr = current.is_array();
                if is_arr {
                    let star = b.len() == 1 && b[0] == '*';
                    proof {
                        reveal_strlit("*");
                        if star {
                            assert(b@ =~= "*"@);
                        } else {
                            assert(b@ != "*"@);
                        }
                    }
                    if star {
                        if i + 1 < parts.len() {
                            let next = string_of(parts[i + 1].as_slice());
                            assert(ps[i + 1] == parts@[i + 1]@);
                            match &current {
                                Json::Array(items) => {
                                    let picked = picks_exec(items, next.as_str());
                                    return Some(Json::Array(picked));
                                },
                                _ => {
                                    return None;
                                },
                            }
                        } else {
                            return Some(current);
                        }
                    } else {
                        match parse_index_exec(b.as_slice()) {
                            Some(n) => {
                                match current.get_index(n) {
                                    Some(x) => {
                                        current = x.copy();
                                    },
                                    None => {
                                        return None;
                                    },
                                }
                            },
                            None => {},
                        }
                        i = i + 1;
                    }
                } else {
                    i = i + 1;
                }
            }
        } else {
            let key = string_of(part.as_slice());
            match current.get_key(key.as_str()) {
                Some(v) => {
                    current = v.copy();
                },
                None => {
                    return None;
                },
            }
            i = i + 1;
        }
    }
    Some(current)
}

/// The value an earlier step's result offers to references.
pub fn ref_value_of(r: &StepResult) -> (v: Json)
    ensures
        v@ == ref_value(*r),
{
    let mut e: Vec<(String, Json)> = Vec::new();
    match &r.step_type {
        StepTypeResult::Bash { stdout, stderr, exit_code, .. } => {
            crate::json::obj_insert(&mut e, "stdout", Json::Str(stdout.clone()));
            crate::json::obj_insert(&mut e, "stderr", Json::Str(stderr.clone()));
            crate::json::obj_insert(&mut e, "exit_code", Json::integer(*exit_code as i64));
        },
        StepTypeResult::Read { files, .. } => {
            crate::json::obj_insert(&mut e, "files", crate::results::files_to_json(files));
        },
        StepTypeResult::Grep { matches, .. } => {
            crate::json::obj_insert(&mut e, "matches", crate::results::matches_to_json(matches));
        },
        StepTypeResult::Replace { files_modified, total_replacements, .. } => {
            crate::json::obj_insert(&mut e, "files_modified", Json::PosInt(*files_modified as u64));
            crate::json::obj_insert(
                &mut e,
                "total_replacements",
                Json::PosInt(*total_replacements as u64),
            );
        },
        StepTypeResult::Scan { .. } => {
            crate::json::obj_insert(&mut e, "scan", Json::Bool(true));
        },
        StepTypeResult::Summarize { summary, .. } => {
            crate::json::obj_insert(&mut e, "summary", summary.to_json());
        },
        StepTypeResult::Extract { data, .. } => {
            return data.copy();
        },
        StepTypeResult::Diff { added, removed, is_identical, .. } => {
            crate::json::obj_insert(&mut e, "added", Json::PosInt(*added as u64));
            crate::json::obj_insert(&mut e, "removed", Json::PosInt(*removed as u64));
            crate::json::obj_insert(&mut e, "is_identical", Json::Bool(*is_identical));
        },
        StepTypeResult::Lint { errors_count, warnings_count, errors } => {
            crate::json::obj_insert(&mut e, "errors_count", Json::PosInt(*errors_count as u64));
            crate::json::obj_insert(&mut e, "warnings_count", Json::PosInt(*warnings_count as u64));
            crate::json::obj_insert(&mut e, "errors", crate::results::lint_errors_to_json(errors));
        },
        StepTypeResult::Http { status, body, .. } => {
            crate::json::obj_insert(&mut e, "status", Json::PosInt(*status as u64));
            let b = match body {
                Some(t) => Json::Str(t.clone()),
                None => Json::Null,
            };
            crate::json::obj_insert(&mut e, "body", b);
        },
        StepTypeResult::If { condition_met, results, .. } => {
            crate::json::obj_insert(&mut e, "condition_met", Json::Bool(*condition_met));
            crate::json::obj_insert(&mut e, "results", crate::results::results_to_json(results));
        },
        StepTypeResult::Each { items, results } => {
            crate::json::obj_insert(&mut e, "items", crate::results::strs_to_json(items));
            crate::json::obj_insert(&mut e, "results", crate::results::results_to_json(results));
        },
        StepTypeResult::Parallel { results } => {
            crate::json::obj_insert(&mut e, "results", crate::results::results_to_json(results));
        },
        _ => {
            crate::json::obj_insert(&mut e, "result", r.to_json());
        },
    }
    Json::Object(e)
}

/// Resolves a reference: the value of the result of step `step_index`, or
/// what `pick` picks out of it (`""` and `"*"` pick all of it).  `None` when
/// there is no such step or the path leads nowhere.
pub fn resolve_ref(step_index: usize, pick: &str, results: &[StepResult]) -> (r: Option<Json>)
    ensures
        opt_json(r) == resolve_ref_spec(step_index as int, pick@, results@),
{
    if step_index >= results.len() {
        return None;
    }
    let value = ref_value_of(&results[step_index]);
    proof {
        reveal_strlit("*");
    }
    if pick.unicode_len() == 0 || same_text(pick, "*") {
        return Some(value);
    }
    resolve_jsonpath(&value, pick)
}

/// Step `step_index` exists, is a `grep` step, and matched something.
pub open spec fn has_grep_results_spec(step_index: int, results: Seq<StepResult>) -> bool {
    0 <= step_index < results.len() && match results[step_index].step_type {
        StepTypeResult::Grep { matches, .. } => matches@.len() > 0,
        _ => false,
    }
}

pub fn has_grep_results(step_index: usize, results: &[StepResult]) -> (r: bool)
    ensures
        r == has_grep_results_spec(step_index as int, results@),
{
    if step_index < results.len() {
        match &results[step_index].step_type {
            StepTypeResult::Grep { matches, .. } => matches.len() > 0,
            _ => false,
        }
    } else {
        false
    }
}

/// Step `step_index` exists and its status is `status`.
pub open spec fn step_has_status(step_index: int, results: Seq<StepResult>, status: Seq<char>) -> bool {
    0 <= step_index < results.len() && results[step_index].status@ == status
}

/// Step `step_index` exists and succeeded.
pub fn step_ok(step_index: usize, results: &[StepResult]) -> (r: bool)
    ensures
        r == step_has_status(step_index as int, results@, "ok"@),
{
    step_index < results.len() && same_text(results[step_index].status.as_str(), "ok")
}

/// Step `step_index` exists and failed.
pub fn step_failed(step_index: usize, results: &[StepResult]) -> (r: bool)
    ensures
        r == step_has_status(step_index as int, results@, "error"@),
{
    step_index < results.len() && same_text(results[step_index].status.as_str(), "error")
}

// ---------------------------------------------------------------------------
// laws of reference values
// ---------------------------------------------------------------------------

/// A bash result's reference value carries its output, error output and
/// exit code.
pub proof fn lemma_ref_value_bash(r: StepResult)
    requires
        r.step_type is Bash,
    ensures
        get_key(ref_value(r), "stdout"@) == Some(JsonView::Str(r.step_type->stdout@)),
        get_key(ref_value(r), "stderr"@) == Some(JsonView::Str(r.step_type->stderr@)),
        get_key(ref_value(r), "exit_code"@) == Some(
            if r.step_type->exit_code >= 0 {
                JsonView::PosInt(r.step_type->exit_code as u64)
            } else {
                JsonView::NegInt(r.step_type->exit_code as i64)
            },
        ),
{
    reveal_strlit("stdout");
    reveal_strlit("stderr");
    reveal_strlit("exit_code");
    assert("stdout"@[3] != "stderr"@[3]);
    assert("stdout"@.len() != "exit_code"@.len());
    assert("stderr"@.len() != "exit_code"@.len());
}

/// A replace result's reference value carries its counts.
pub proof fn lemma_ref_value_replace(r: StepResult)
    requires
        r.step_type is Replace,
    ensures
        get_key(ref_value(r), "files_modified"@) == Some(JsonView::PosInt(r.step_type->files_modified as u64)),
        get_key(ref_value(r), "total_replacements"@) == Some(
            JsonView::PosInt(r.step_type->total_replacements as u64),
        ),
{
    reveal_strlit("files_modified");
    reveal_strlit("total_replacements");
    assert("files_modified"@.len() != "total_replacements"@.len());
}

/// A diff result's reference value carries its counts and whether the two
/// sides are identical.
pub proof fn lemma_ref_value_diff(r: StepResult)
    requires
        r.step_type is Diff,
    ensures
        get_key(ref_value(r), "added"@) == Some(JsonView::PosInt(r.step_type->Diff_added as u64)),
        get_key(ref_value(r), "removed"@) == Some(JsonView::PosInt(r.step_type->Diff_removed as u64)),
        get_key(ref_value(r), "is_identical"@) == Some(JsonView::Bool(r.step_type->is_identical)),
{
    reveal_strlit("added");
    reveal_strlit("removed");
    reveal_strlit("is_identical");
    assert("added"@.len() != "removed"@.len());
    assert("added"@.len() != "is_identical"@.len());
    assert("removed"@.len() != "is_identical"@.len());
}

/// A lint result's reference value carries its error count under
/// `errors_count` and its warning count under `warnings_count`.
pub proof fn lemma_ref_value_lint(r: StepResult)
    requires
        r.step_type is Lint,
    ensures
        get_key(ref_value(r), "errors_count"@) == Some(JsonView::PosInt(r.step_type->errors_count as u64)),
        get_key(ref_value(r), "warnings_count"@) == Some(
            JsonView::PosInt(r.step_type->warnings_count as u64),
        ),
{
    reveal_strlit("errors_count");
    reveal_strlit("warnings_count");
    reveal_strlit("errors");
    assert("errors_count"@.len() != "warnings_count"@.len());
    assert("errors_count"@.len() != "errors"@.len());
    assert("warnings_count"@.len() != "errors"@.len());
}

/// An http result's reference value carries its status code and body.
pub proof fn lemma_ref_value_http(r: StepResult)
    requires
        r.step_type is Http,
    ensures
        get_key(ref_value(r), "status"@) == Some(JsonView::PosInt(r.step_type->Http_status as u64)),
        get_key(ref_value(r), "body"@) == Some(
            match r.step_type->body {
                Some(b) => JsonView::Str(b@),
                None => JsonView::Null,
            },
        ),
{
    reveal_strlit("status");
    reveal_strlit("body");
    assert("status"@.len() != "body"@.len());
}

/// A path that is one plain key (no `.`, `[` or `*`) reads that key.
pub proof fn lemma_plain_path(v: JsonView, key: Seq<char>)
    requires
        key.len() > 0,
        forall|j: int| 0 <= j < key.len() ==> key[j] != '.' && key[j] != '[' && key[j] != '*',
    ensures
        jsonpath(v, key) == get_key(v, key),
{
    crate::text::lemma_find_char(key, '.');
    crate::text::lemma_find_char(key, '[');
    crate::text::lemma_find_char(key, '*');
    assert(split_spec(key, '.') == seq![key]);
    let parts = seq![key];
    assert(!has_char(key, '[') && !has_char(key, '*'));
    match get_key(v, key) {
        Some(x) => {
            assert(walk(x, parts, 1) == Some(x));
        },
        None => {},
    }
}

/// A reference to a lint step's `errors_count` and `warnings_count` reads
/// that step's counts.
pub proof fn lemma_resolve_lint_counts(step_index: int, results: Seq<StepResult>)
    requires
        0 <= step_index < results.len(),
        results[step_index].step_type is Lint,
    ensures
        resolve_ref_spec(step_index, "errors_count"@, results) == Some(
            JsonView::PosInt(results[step_index].step_type->errors_count as u64),
        ),
        resolve_ref_spec(step_index, "warnings_count"@, results) == Some(
            JsonView::PosInt(results[step_index].step_type->warnings_count as u64),
        ),
{
    reveal_strlit("errors_count");
    reveal_strlit("warnings_count");
    reveal_strlit("*");
    let r = results[step_index];
    lemma_ref_value_lint(r);
    lemma_plain_path(ref_value(r), "errors_count"@);
    lemma_plain_path(ref_value(r), "warnings_count"@);
}

} // verus!
