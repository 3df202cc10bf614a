//! Lexical path helpers (Unix paths: `/` separates components).
use crate::text::{chars_of, join_chars, join_spec, push_char, seq_eq, string_of, vviews};
use vstd::prelude::*;
use vstd::string::*;

verus! {

/// The `/`-separated pieces of `s.take(k)`, empty ones dropped, and the piece
/// being read.
pub open spec fn pieces_state(s: Seq<char>, k: int) -> (Seq<Seq<char>>, Seq<char>)
    decreases k,
{
    if k <= 0 {
        (Seq::empty(), Seq::empty())
    } else {
        let (ps, cur) = pieces_state(s, k - 1);
        if s[k - 1] == '/' {
            if cur.len() > 0 {
                (ps.push(cur), Seq::empty())
            } else {
                (ps, cur)
            }
        } else {
            (ps, cur.push(s[k - 1]))
        }
    }
}

/// The non-empty `/`-separated pieces of `s`.
pub open spec fn pieces_spec(s: Seq<char>) -> Seq<Seq<char>> {
    let (ps, cur) = pieces_state(s, s.len() as int);
    if cur.len() > 0 {
        ps.push(cur)
    } else {
        ps
    }
}

/// `.`
pub open spec fn dot() -> Seq<char> {
    seq!['.']
}

/// `..`
pub open spec fn dot_dot() -> Seq<char> {
    seq!['.', '.']
}

/// One piece applied to a stack of resolved names: `.` changes nothing, `..`
/// removes the last name; with no name to remove (the stack is empty or ends
/// in `..`) it is dropped at the root of an absolute path and kept in a
/// relative one; anything else is pushed.
pub open spec fn apply_piece(absolute: bool, stack: Seq<Seq<char>>, p: Seq<char>) -> Seq<Seq<char>> {
    if p == dot() {
        stack
    } else if p == dot_dot() {
        if stack.len() > 0 && stack.last() != dot_dot() {
            stack.drop_last()
        } else if absolute {
            stack
        } else {
            stack.push(p)
        }
    } else {
        stack.push(p)
    }
}

/// The names left after resolving every piece of `ps` in order.
pub open spec fn resolve(absolute: bool, ps: Seq<Seq<char>>) -> Seq<Seq<char>>
    decreases ps.len(),
{
    if ps.len() == 0 {
        Seq::empty()
    } else {
        apply_piece(absolute, resolve(absolute, ps.drop_last()), ps.last())
    }
}

/// Names with no `.` among them, and `..` only in a run at the start (none
/// at all under a root).
pub open spec fn resolved_form(absolute: bool, ns: Seq<Seq<char>>) -> bool {
    &&& forall|i: int| 0 <= i < ns.len() ==> #[trigger] ns[i] != dot()
    &&& forall|i: int, j: int| 0 <= i < j < ns.len() && #[trigger] ns[j] == dot_dot() ==> #[trigger] ns[i] == dot_dot()
    &&& absolute ==> forall|i: int| 0 <= i < ns.len() ==> #[trigger] ns[i] != dot_dot()
}

/// Resolving leaves no `.` among the names, and `..` only where a relative
/// path climbs above its start: in a run at the beginning.
pub proof fn lemma_resolved_has_no_dots(absolute: bool, ps: Seq<Seq<char>>)
    ensures
        resolved_form(absolute, resolve(absolute, ps)),
    decreases ps.len(),
{
    if ps.len() > 0 {
        let prev = resolve(absolute, ps.drop_last());
        lemma_resolved_has_no_dots(absolute, ps.drop_last());
        let p = ps.last();
        let r = resolve(absolute, ps);
        if p == dot() {
        } else if p == dot_dot() && prev.len() > 0 && prev.last() != dot_dot() {
            assert(forall|i: int| 0 <= i < prev.drop_last().len() ==> prev.drop_last()[i] == prev[i]);
        } else if p == dot_dot() && !absolute {
            assert forall|i: int, j: int| 0 <= i < j < r.len() && #[trigger] r[j] == dot_dot() implies #[trigger] r[i] == dot_dot() by {
                assert(r[i] == prev[i]);
                if j < prev.len() {
                    assert(r[j] == prev[j]);
                } else if prev.len() > 0 {
                    assert(prev[prev.len() - 1] == dot_dot());
                }
            }
            assert forall|i: int| 0 <= i < r.len() implies #[trigger] r[i] != dot() by {
                if i < prev.len() {
                    assert(r[i] == prev[i]);
                }
            }
        } else if p != dot_dot() {
            assert forall|i: int, j: int| 0 <= i < j < r.len() && #[trigger] r[j] == dot_dot() implies #[trigger] r[i] == dot_dot() by {
                assert(r[i] == prev[i]);
                assert(r[j] == prev[j]);
            }
            assert forall|i: int| 0 <= i < r.len() implies #[trigger] r[i] != dot() by {
                if i < prev.len() {
                    assert(r[i] == prev[i]);
                }
            }
            assert(absolute ==> forall|i: int| 0 <= i < r.len() ==> #[trigger] r[i] != dot_dot()) by {
                assert forall|i: int| 0 <= i < r.len() implies #[trigger] r[i] != dot_dot() || !absolute by {
                    if i < prev.len() {
                        assert(r[i] == prev[i]);
                    }
                }
            }
        }
    }
}

/// `/` for an absolute path, nothing for a relative one.
pub open spec fn root_prefix(s: Seq<char>) -> Seq<char> {
    if s.len() > 0 && s[0] == '/' {
        seq!['/']
    } else {
        Seq::empty()
    }
}

/// Whether a path starts at the root.
pub open spec fn is_absolute(s: Seq<char>) -> bool {
    s.len() > 0 && s[0] == '/'
}

/// `s` with `.` and `..` resolved lexically.
pub open spec fn normalize_spec(s: Seq<char>) -> Seq<char> {
    root_prefix(s) + join_spec(resolve(is_absolute(s), pieces_spec(s)), "/"@)
}

/// A normalized path is made of names joined by `/` after the root of an
/// absolute path; none of them is `.`, and `..` stands only in a run at the
/// start of a relative path, where it climbs above the start.
pub proof fn lemma_normalize_no_dots(s: Seq<char>)
    ensures
        normalize_spec(s) == root_prefix(s) + join_spec(resolve(is_absolute(s), pieces_spec(s)), "/"@),
        resolved_form(is_absolute(s), resolve(is_absolute(s), pieces_spec(s))),
{
    lemma_resolved_has_no_dots(is_absolute(s), pieces_spec(s));
}

/// A name: not empty, without `/`.
pub open spec fn name_ok(w: Seq<char>) -> bool {
    w.len() > 0 && forall|k: int| 0 <= k < w.len() ==> w[k] != '/'
}

pub open spec fn names_ok(ns: Seq<Seq<char>>) -> bool {
    forall|i: int| 0 <= i < ns.len() ==> name_ok(#[trigger] ns[i])
}

proof fn lemma_state_prefix(s1: Seq<char>, s2: Seq<char>, k: int)
    requires
        0 <= k <= s1.len(),
        k <= s2.len(),
        s1.take(k) == s2.take(k),
    ensures
        pieces_state(s1, k) == pieces_state(s2, k),
    decreases k,
{
    if k > 0 {
        assert(s1.take(k - 1) =~= s1.take(k).take(k - 1));
        assert(s2.take(k - 1) =~= s2.take(k).take(k - 1));
        lemma_state_prefix(s1, s2, k - 1);
        assert(s1[k - 1] == s1.take(k)[k - 1]);
        assert(s2[k - 1] == s2.take(k)[k - 1]);
    }
}

proof fn lemma_state_names(s: Seq<char>, k: int)
    requires
        0 <= k <= s.len(),
    ensures
        names_ok(pieces_state(s, k).0),
        forall|j: int| 0 <= j < pieces_state(s, k).1.len() ==> pieces_state(s, k).1[j] != '/',
    decreases k,
{
    if k > 0 {
        lemma_state_names(s, k - 1);
        let (ps, cur) = pieces_state(s, k - 1);
        if s[k - 1] == '/' && cur.len() > 0 {
            assert forall|i: int| 0 <= i < ps.push(cur).len() implies name_ok(#[trigger] ps.push(cur)[i]) by {
                if i < ps.len() {
                    assert(ps.push(cur)[i] == ps[i]);
                }
            }
        }
    }
}

/// The pieces of a path are names.
proof fn lemma_pieces_names(s: Seq<char>)
    ensures
        names_ok(pieces_spec(s)),
{
    lemma_state_names(s, s.len() as int);
    let (ps, cur) = pieces_state(s, s.len() as int);
    if cur.len() > 0 {
        assert forall|i: int| 0 <= i < ps.push(cur).len() implies name_ok(#[trigger] ps.push(cur)[i]) by {
            if i < ps.len() {
                assert(ps.push(cur)[i] == ps[i]);
            }
        }
    }
}

proof fn lemma_state_extend(s: Seq<char>, w: Seq<char>, j: int)
    requires
        0 <= j <= w.len(),
        forall|k: int| 0 <= k < w.len() ==> w[k] != '/',
    ensures
        pieces_state(s + w, s.len() + j) == (pieces_state(s, s.len() as int).0, pieces_state(s, s.len() as int).1 + w.take(j)),
    decreases j,
{
    if j == 0 {
        assert((s + w).take(s.len() as int) =~= s.take(s.len() as int));
        lemma_state_prefix(s + w, s, s.len() as int);
        assert(pieces_state(s, s.len() as int).1 + w.take(0) =~= pieces_state(s, s.len() as int).1);
    } else {
        lemma_state_extend(s, w, j - 1);
        assert((s + w)[s.len() + j - 1] == w[j - 1]);
        assert(pieces_state(s, s.len() as int).1 + w.take(j) =~= (pieces_state(s, s.len() as int).1 + w.take(j - 1)).push(
            w[j - 1],
        ));
    }
}

proof fn lemma_state_slash(s: Seq<char>)
    ensures
        pieces_state(s + seq!['/'], s.len() + 1int) == (pieces_spec(s), Seq::<char>::empty()),
{
    let t = s + seq!['/'];
    assert(t.take(s.len() as int) =~= s.take(s.len() as int));
    lemma_state_prefix(t, s, s.len() as int);
    assert(t[s.len() as int] == '/');
}

/// The names joined by `/` after an optional root split back into those names.
proof fn lemma_pieces_join(prefix: Seq<char>, ns: Seq<Seq<char>>)
    requires
        prefix == Seq::<char>::empty() || prefix == seq!['/'],
        names_ok(ns),
    ensures
        pieces_spec(prefix + join_spec(ns, seq!['/'])) == ns,
    decreases ns.len(),
{
    assert(pieces_state(prefix, prefix.len() as int) == (Seq::<Seq<char>>::empty(), Seq::<char>::empty())) by {
        assert(pieces_state(prefix, 0) == (Seq::<Seq<char>>::empty(), Seq::<char>::empty()));
        if prefix.len() == 1 {
            assert(prefix[0] == '/');
            assert(pieces_state(prefix, 1) == pieces_state(prefix, 0));
        }
    }
    if ns.len() == 0 {
        assert(prefix + join_spec(ns, seq!['/']) =~= prefix);
        assert(ns =~= Seq::<Seq<char>>::empty());
    } else if ns.len() == 1 {
        let w = ns[0];
        assert(name_ok(ns[0]));
        lemma_state_extend(prefix, w, w.len() as int);
        assert(w.take(w.len() as int) =~= w);
        assert(Seq::<char>::empty() + w =~= w);
        assert(Seq::<Seq<char>>::empty().push(w) =~= ns);
    } else {
        let d = ns.drop_last();
        let w = ns.last();
        assert(names_ok(d)) by {
            assert forall|i: int| 0 <= i < d.len() implies name_ok(#[trigger] d[i]) by {
                assert(d[i] == ns[i]);
            }
        }
        assert(name_ok(ns[ns.len() - 1]));
        lemma_pieces_join(prefix, d);
        let x = prefix + join_spec(d, seq!['/']);
        let y = x + seq!['/'];
        assert(prefix + join_spec(ns, seq!['/']) =~= y + w);
        lemma_state_slash(x);
        lemma_state_extend(y, w, w.len() as int);
        assert(w.take(w.len() as int) =~= w);
        assert(Seq::<char>::empty() + w =~= w);
        assert(y.len() == x.len() + 1);
        assert(d.push(w) =~= ns);
    }
}

/// Resolving names keeps them names.
proof fn lemma_resolve_names(absolute: bool, ps: Seq<Seq<char>>)
    requires
        names_ok(ps),
    ensures
        names_ok(resolve(absolute, ps)),
    decreases ps.len(),
{
    if ps.len() > 0 {
        let d = ps.drop_last();
        assert(names_ok(d)) by {
            assert forall|i: int| 0 <= i < d.len() implies name_ok(#[trigger] d[i]) by {
                assert(d[i] == ps[i]);
            }
        }
        lemma_resolve_names(absolute, d);
        let r = resolve(absolute, d);
        let p = ps.last();
        assert(name_ok(ps[ps.len() - 1]));
        let out = resolve(absolute, ps);
        assert forall|i: int| 0 <= i < out.len() implies name_ok(#[trigger] out[i]) by {
            if i < r.len() {
                assert(out[i] == r[i]);
            } else {
                assert(out[i] == p);
            }
        }
    }
}

/// Names in resolved form resolve to themselves.
proof fn lemma_resolve_plain(absolute: bool, ns: Seq<Seq<char>>)
    requires
        resolved_form(absolute, ns),
    ensures
        resolve(absolute, ns) == ns,
    decreases ns.len(),
{
    if ns.len() > 0 {
        let d = ns.drop_last();
        assert(resolved_form(absolute, d)) by {
            assert forall|i: int| 0 <= i < d.len() implies #[trigger] d[i] != dot() by {
                assert(d[i] == ns[i]);
            }
            assert forall|i: int, j: int| 0 <= i < j < d.len() && #[trigger] d[j] == dot_dot() implies #[trigger] d[i] == dot_dot() by {
                assert(d[i] == ns[i]);
                assert(d[j] == ns[j]);
            }
            assert(absolute ==> forall|i: int| 0 <= i < d.len() ==> #[trigger] d[i] != dot_dot()) by {
                assert forall|i: int| 0 <= i < d.len() implies #[trigger] d[i] != dot_dot() || !absolute by {
                    assert(d[i] == ns[i]);
                }
            }
        }
        lemma_resolve_plain(absolute, d);
        let p = ns[ns.len() - 1];
        assert(p != dot());
        if p == dot_dot() {
            assert(!absolute);
            if d.len() > 0 {
                assert(ns[d.len() - 1] == dot_dot());
                assert(d.last() == dot_dot());
            }
        }
        assert(d.push(ns.last()) =~= ns);
    }
}

/// A join of names starts with the first name.
proof fn lemma_join_first(ns: Seq<Seq<char>>)
    requires
        ns.len() > 0,
        names_ok(ns),
    ensures
        join_spec(ns, seq!['/']).len() > 0,
        join_spec(ns, seq!['/'])[0] == ns[0][0],
    decreases ns.len(),
{
    assert(name_ok(ns[0]));
    if ns.len() > 1 {
        let d = ns.drop_last();
        assert(names_ok(d)) by {
            assert forall|i: int| 0 <= i < d.len() implies name_ok(#[trigger] d[i]) by {
                assert(d[i] == ns[i]);
            }
        }
        lemma_join_first(d);
        assert(d[0] == ns[0]);
    }
}

/// Normalizing a normalized path changes nothing.
pub proof fn lemma_normalize_idempotent(s: Seq<char>)
    ensures
        normalize_spec(normalize_spec(s)) == normalize_spec(s),
{
    reveal_strlit("/");
    assert("/"@ =~= seq!['/']);
    let abs = is_absolute(s);
    let r = resolve(abs, pieces_spec(s));
    lemma_pieces_names(s);
    lemma_resolve_names(abs, pieces_spec(s));
    lemma_resolved_has_no_dots(abs, pieces_spec(s));
    let t = normalize_spec(s);
    let pre = root_prefix(s);
    assert(t == pre + join_spec(r, seq!['/']));
    assert(root_prefix(t) == pre) by {
        if pre.len() == 0 && r.len() > 0 {
            lemma_join_first(r);
            assert(name_ok(r[0]));
            assert(t[0] == r[0][0]);
        }
        if pre.len() == 1 {
            assert(t[0] == '/');
        }
        if pre.len() == 0 && r.len() == 0 {
            assert(t.len() == 0);
        }
    }
    lemma_pieces_join(pre, r);
    assert(is_absolute(t) == abs);
    lemma_resolve_plain(abs, r);
}

/// The non-empty `/`-separated pieces of a path.
pub fn pieces(path: &[char]) -> (r: Vec<Vec<char>>)
    ensures
        vviews(r@) == pieces_spec(path@),
{
    let mut ps: Vec<Vec<char>> = Vec::new();
    let mut cur: Vec<char> = Vec::new();
    let mut i: usize = 0;
    while i < path.len()
        invariant
            i <= path.len(),
            (vviews(ps@), cur@) == pieces_state(path@, i as int),
        decreases path.len() - i,
    {
        let ghost prev = ps@;
        if path[i] == '/' {
            if cur.len() > 0 {
                let ghost c = cur;
                ps.push(cur);
                assert(ps@ == prev.push(c));
                assert(vviews(ps@) =~= vviews(prev).push(c@));
                cur = Vec::new();
            }
        } else {
            cur.push(path[i]);
        }
        i = i + 1;
    }
    if cur.len() > 0 {
        let ghost prev = ps@;
        let ghost c = cur;
        ps.push(cur);
        assert(ps@ == prev.push(c));
        assert(vviews(ps@) =~= vviews(prev).push(c@));
    }
    ps
}

fn is_dot(p: &[char]) -> (r: bool)
    ensures
        r == (p@ == dot()),
{
    let d = ['.'];
    assert(d@ =~= dot());
    seq_eq(p, &d)
}

fn is_dot_dot(p: &[char]) -> (r: bool)
    ensures
        r == (p@ == dot_dot()),
{
    let d = ['.', '.'];
    assert(d@ =~= dot_dot());
    seq_eq(p, &d)
}

/// Resolve `.` and `..` lexically, without touching the file system; an
/// absolute path that climbs above the root stays at the root, and a `..`
/// that climbs above the start of a relative path is kept.
pub fn normalize(path: &str) -> (r: String)
    ensures
        r@ == normalize_spec(path@),
{
    let chars = chars_of(path);
    let absolute = chars.len() > 0 && chars[0] == '/';
    let ps = pieces(chars.as_slice());
    let mut stack: Vec<Vec<char>> = Vec::new();
    let mut i: usize = 0;
    while i < ps.len()
        invariant
            i <= ps@.len(),
            absolute == is_absolute(path@),
            chars@ == path@,
            vviews(stack@) == resolve(absolute, vviews(ps@).take(i as int)),
        decreases ps.len() - i,
    {
        let ghost taken = vviews(ps@).take(i + 1);
        assert(taken.drop_last() =~= vviews(ps@).take(i as int));
        assert(taken.last() == ps@[i as int]@);
        let ghost prev = stack@;
        if is_dot(ps[i].as_slice()) {
        } else if is_dot_dot(ps[i].as_slice()) {
            if stack.len() > 0 && !is_dot_dot(stack[stack.len() - 1].as_slice()) {
                stack.pop();
                assert(stack@ == prev.drop_last());
                assert(vviews(stack@) =~= vviews(prev).drop_last());
            } else if !absolute {
                let p = ps[i].clone();
                stack.push(p);
                assert(vviews(stack@) =~= vviews(prev).push(p@));
            }
        } else {
            let p = ps[i].clone();
            stack.push(p);
            assert(vviews(stack@) =~= vviews(prev).push(p@));
        }
        i = i + 1;
    }
    assert(vviews(ps@).take(i as int) =~= vviews(ps@));
    let mut r = String::new();
    if absolute {
        push_char(&mut r, '/');
    }
    let joined = join_chars(stack.as_slice(), "/");
    crate::text::push_str(&mut r, joined.as_str());
    r
}


/// `s` without trailing separators and trailing `.` components: what is left
/// ends with the last component of the path.
pub open spec fn trim_tail(s: Seq<char>) -> Seq<char>
    decreases s.len(),
{
    if s.len() > 0 && s.last() == '/' {
        trim_tail(s.drop_last())
    } else if s.len() >= 2 && s.last() == '.' && s[s.len() - 2] == '/' {
        trim_tail(s.drop_last())
    } else {
        s
    }
}

/// The index of the last `c` in `s`, or -1.
pub open spec fn rfind_char(s: Seq<char>, c: char) -> int
    decreases s.len(),
{
    if s.len() == 0 {
        -1
    } else if s.last() == c {
        s.len() - 1
    } else {
        rfind_char(s.drop_last(), c)
    }
}

/// Where the file name of a path starts and what it is, if the last
/// component is a name (not the root, `.` or `..`).
pub open spec fn file_name_spec(s: Seq<char>) -> Option<(int, Seq<char>)> {
    let t = trim_tail(s);
    let start = rfind_char(t, '/') + 1;
    let name = t.skip(start);
    if name.len() == 0 || name == dot() || name == dot_dot() {
        None
    } else {
        Some((start, name))
    }
}

/// A file name split at its last `.`: the stem, and the extension if there is
/// one (a leading `.` starts no extension).
pub open spec fn split_dot(name: Seq<char>) -> (Seq<char>, Option<Seq<char>>) {
    let d = rfind_char(name, '.');
    if d <= 0 {
        (name, None)
    } else {
        (name.take(d), Some(name.skip(d + 1)))
    }
}

/// The stem and extension of a path, each empty when absent.
pub open spec fn stem_ext_spec(s: Seq<char>) -> (Seq<char>, Seq<char>) {
    match file_name_spec(s) {
        None => (Seq::empty(), Seq::empty()),
        Some((_, name)) => {
            let (stem, ext) = split_dot(name);
            (
                stem,
                match ext {
                    Some(e) => e,
                    None => Seq::empty(),
                },
            )
        },
    }
}

/// The extension of a path (`Path::extension`): what follows the last `.` of
/// its file name, if the name has a `.` that does not start it.
pub open spec fn extension_spec(s: Seq<char>) -> Option<Seq<char>> {
    match file_name_spec(s) {
        None => None,
        Some((_, name)) => split_dot(name).1,
    }
}

/// `s` with its extension replaced by `ext` (removed when `ext` is empty);
/// unchanged when it has no file name.
pub open spec fn with_extension_spec(s: Seq<char>, ext: Seq<char>) -> Seq<char> {
    match file_name_spec(s) {
        None => s,
        Some((start, name)) => {
            let base = s.take(start + split_dot(name).0.len());
            if ext.len() == 0 {
                base
            } else {
                base + seq!['.'] + ext
            }
        },
    }
}

fn trim_tail_len(v: &[char]) -> (n: usize)
    ensures
        n <= v.len(),
        v@.take(n as int) == trim_tail(v@),
{
    let mut n = v.len();
    assert(v@.take(n as int) =~= v@);
    loop
        invariant
            n <= v.len(),
            trim_tail(v@.take(n as int)) == trim_tail(v@),
        decreases n,
    {
        let ghost t = v@.take(n as int);
        if n > 0 && v[n - 1] == '/' {
            assert(t.drop_last() =~= v@.take(n - 1));
            n = n - 1;
        } else if n >= 2 && v[n - 1] == '.' && v[n - 2] == '/' {
            assert(t.drop_last() =~= v@.take(n - 1));
            n = n - 1;
        } else {
            return n;
        }
    }
}

fn rfind_in(v: &[char], n: usize, c: char) -> (r: i64)
    requires
        n <= v.len(),
        n < i64::MAX,
    ensures
        r == rfind_char(v@.take(n as int), c),
{
    let mut k = n;
    loop
        invariant
            k <= n <= v.len(),
            n < i64::MAX,
            rfind_char(v@.take(k as int), c) == rfind_char(v@.take(n as int), c),
        decreases k,
    {
        if k == 0 {
            return -1;
        }
        if v[k - 1] == c {
            return (k - 1) as i64;
        }
        assert(v@.take(k as int).drop_last() =~= v@.take(k - 1));
        k = k - 1;
    }
}

/// Where the file name starts in `v` and how long it is.
fn file_name_range(v: &[char]) -> (r: Option<(usize, usize)>)
    requires
        v.len() < i64::MAX,
    ensures
        match file_name_spec(v@) {
            None => r.is_none(),
            Some((start, name)) => r matches Some((a, b)) && a == start && b == start + name.len()
                && b <= v.len() && v@.subrange(a as int, b as int) == name,
        },
{
    let n = trim_tail_len(v);
    let slash = rfind_in(v, n, '/');
    proof {
        lemma_rfind_bounds(v@.take(n as int), '/');
    }
    let start = (slash + 1) as usize;
    let ghost t = v@.take(n as int);
    assert(t.skip(start as int) =~= v@.subrange(start as int, n as int));
    let len = n - start;
    let is_dot = len == 1 && v[start] == '.';
    let is_dot_dot = len == 2 && v[start] == '.' && v[start + 1] == '.';
    assert(is_dot == (t.skip(start as int) == dot())) by {
        if len == 1 && v[start as int] == '.' {
            assert(t.skip(start as int) =~= dot());
        }
        if t.skip(start as int) == dot() {
            assert(t.skip(start as int)[0] == '.');
        }
    }
    assert(is_dot_dot == (t.skip(start as int) == dot_dot())) by {
        if len == 2 && v[start as int] == '.' && v[start + 1] == '.' {
            assert(t.skip(start as int) =~= dot_dot());
        }
        if t.skip(start as int) == dot_dot() {
            assert(t.skip(start as int)[0] == '.');
        }
    }
    if len == 0 || is_dot || is_dot_dot {
        None
    } else {
        Some((start, n))
    }
}

proof fn lemma_rfind_bounds(s: Seq<char>, c: char)
    ensures
        -1 <= rfind_char(s, c) < s.len(),
        rfind_char(s, c) >= 0 ==> s[rfind_char(s, c)] == c,
        forall|j: int| rfind_char(s, c) < j < s.len() ==> s[j] != c,
    decreases s.len(),
{
    if s.len() > 0 && s.last() != c {
        lemma_rfind_bounds(s.drop_last(), c);
        assert forall|j: int| rfind_char(s, c) < j < s.len() implies s[j] != c by {
            if j < s.len() - 1 {
                assert(s[j] == s.drop_last()[j]);
            }
        }
    }
}

/// The stem and extension of `path`; each is `""` when absent.
pub fn stem_ext(path: &str) -> (r: (String, String))
    requires
        path@.len() < i64::MAX,
    ensures
        r.0@ == stem_ext_spec(path@).0,
        r.1@ == stem_ext_spec(path@).1,
{
    let v = chars_of(path);
    match file_name_range(v.as_slice()) {
        None => (String::new(), String::new()),
        Some((a, b)) => {
            let ghost name = v@.subrange(a as int, b as int);
            let d = rfind_in(v.as_slice(), b, '.');
            proof {
                lemma_rfind_bounds(v@.take(b as int), '.');
                lemma_rfind_bounds(name, '.');
                lemma_rfind_range(v@, a as int, b as int, '.');
            }
            if d <= a as i64 {
                (crate::text::string_of_range(v.as_slice(), a, b), String::new())
            } else {
                let du = d as usize;
                assert(name.take(du - a) =~= v@.subrange(a as int, du as int));
                assert(name.skip(du - a + 1) =~= v@.subrange(du + 1, b as int));
                (
                    crate::text::string_of_range(v.as_slice(), a, du),
                    crate::text::string_of_range(v.as_slice(), du + 1, b),
                )
            }
        },
    }
}

/// The extension of `path`, if it has one.
pub fn extension_of(path: &str) -> (r: Option<String>)
    requires
        path@.len() < i64::MAX,
    ensures
        r matches Some(e) ==> extension_spec(path@) == Some(e@),
        r is None <==> extension_spec(path@) is None,
{
    let v = chars_of(path);
    match file_name_range(v.as_slice()) {
        None => None,
        Some((a, b)) => {
            let ghost name = v@.subrange(a as int, b as int);
            let d = rfind_in(v.as_slice(), b, '.');
            proof {
                lemma_rfind_bounds(v@.take(b as int), '.');
                lemma_rfind_bounds(name, '.');
                lemma_rfind_range(v@, a as int, b as int, '.');
            }
            if d <= a as i64 {
                None
            } else {
                let du = d as usize;
                assert(name.skip(du - a + 1) =~= v@.subrange(du + 1, b as int));
                Some(crate::text::string_of_range(v.as_slice(), du + 1, b))
            }
        },
    }
}

/// The last `c` before `b` lies at or after `a` exactly when the range
/// `a..b` holds a `c`, and then their positions agree.
proof fn lemma_rfind_range(s: Seq<char>, a: int, b: int, c: char)
    requires
        0 <= a <= b <= s.len(),
    ensures
        rfind_char(s.take(b), c) >= a ==> rfind_char(s.subrange(a, b), c) == rfind_char(
            s.take(b),
            c,
        ) - a,
        rfind_char(s.take(b), c) < a ==> rfind_char(s.subrange(a, b), c) == -1,
    decreases b - a,
{
    if b > a {
        assert(s.take(b).drop_last() =~= s.take(b - 1));
        assert(s.subrange(a, b).drop_last() =~= s.subrange(a, b - 1));
        if s[b - 1] != c {
            lemma_rfind_range(s, a, b - 1, c);
        }
    } else {
        lemma_rfind_bounds(s.take(b), c);
    }
}

/// `path` with its extension replaced by `new_ext`; an empty `new_ext`
/// removes the extension and its `.`.
pub fn with_extension(path: &str, new_ext: &str) -> (r: String)
    requires
        path@.len() < i64::MAX,
    ensures
        r@ == with_extension_spec(path@, new_ext@),
{
    let v = chars_of(path);
    match file_name_range(v.as_slice()) {
        None => string_of(v.as_slice()),
        Some((a, b)) => {
            let ghost name = v@.subrange(a as int, b as int);
            let d = rfind_in(v.as_slice(), b, '.');
            proof {
                lemma_rfind_bounds(v@.take(b as int), '.');
                lemma_rfind_bounds(name, '.');
                lemma_rfind_range(v@, a as int, b as int, '.');
            }
            let stem_end: usize = if d <= a as i64 {
                b
            } else {
                d as usize
            };
            assert(split_dot(name).0.len() == stem_end - a);
            let mut r = crate::text::string_of_range(v.as_slice(), 0, stem_end);
            assert(v@.subrange(0, stem_end as int) =~= v@.take(stem_end as int));
            let e = chars_of(new_ext);
            if e.len() > 0 {
                push_char(&mut r, '.');
                crate::text::push_str(&mut r, new_ext);
            }
            r
        },
    }
}

} // verus!
