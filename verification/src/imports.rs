//! Managing the import lines of a source file: removing, adding and
//! organizing them, for JavaScript/TypeScript, Python, Rust and Go.
//!
//! A file is handled as its lines.  Which lines are imports depends on the
//! language; removals go first, then additions, then (if asked) the imports
//! are sorted to the top of the file.
use crate::text::{
    chars_less, chars_of, contains_chars, contains_spec, join_chars, join_spec, lemma_lex_asym,
    lemma_lex_total, lemma_lex_trans, lex_lt, lines_of, lines_spec, starts_with_chars,
    starts_with_spec, trim_chars, trim_spec, vviews,
};
use vstd::prelude::*;
use vstd::relations::{sorted_by, total_ordering};

verus! {

/// The languages whose imports can be managed.
#[derive(Debug, Clone, Copy, PartialEq, Eq, Structural)]
pub enum Lang {
    JsTs,
    Python,
    Rust,
    Go,
}

/// Whether a line is an import line of the language.
pub open spec fn is_import_line(lang: Lang, l: Seq<char>) -> bool {
    match lang {
        Lang::JsTs => starts_with_spec(l, "import "@) || starts_with_spec(l, "export "@),
        Lang::Python => starts_with_spec(l, "import "@) || starts_with_spec(l, "from "@),
        Lang::Rust => starts_with_spec(l, "use "@) || starts_with_spec(l, "pub use "@),
        Lang::Go => starts_with_spec(l, "\t\""@) || starts_with_spec(l, "\""@),
    }
}

/// The line added for an import: Go quotes the path in the import block; the
/// others take a complete statement as it is and prefix anything else with
/// the import keyword.
pub open spec fn import_line_for(lang: Lang, imp: Seq<char>) -> Seq<char> {
    match lang {
        Lang::JsTs => if is_import_line(lang, imp) {
            imp
        } else {
            "import "@ + imp
        },
        Lang::Python => if is_import_line(lang, imp) {
            imp
        } else {
            "import "@ + imp
        },
        Lang::Rust => if is_import_line(lang, imp) {
            imp
        } else {
            "use "@ + imp
        },
        Lang::Go => "\t\""@ + imp + "\""@,
    }
}

/// The positions of the import lines, in order.
pub open spec fn import_indices(lang: Lang, lines: Seq<Seq<char>>) -> Seq<int>
    decreases lines.len(),
{
    if lines.len() == 0 {
        Seq::empty()
    } else {
        let r = import_indices(lang, lines.drop_last());
        if is_import_line(lang, lines.last()) {
            r.push(lines.len() - 1)
        } else {
            r
        }
    }
}

/// The first position, in the order given, whose line contains `imp`.
pub open spec fn first_containing(lines: Seq<Seq<char>>, order: Seq<int>, imp: Seq<char>) -> Option<
    int,
>
    decreases order.len(),
{
    if order.len() == 0 {
        None
    } else if contains_spec(lines[order[0]], imp) {
        Some(order[0])
    } else {
        first_containing(lines, order.subrange(1, order.len() as int), imp)
    }
}

/// Removing the imports named in `rm`, one after the other: each removes
/// the first import line (in the current order of import positions) that
/// contains it, after which the positions are taken afresh in line order.
/// Gives the lines, the order of import positions, and the removed lines.
pub open spec fn remove_phase(lang: Lang, lines: Seq<Seq<char>>, order: Seq<int>, rm: Seq<Seq<char>>) -> (
    Seq<Seq<char>>,
    Seq<int>,
    Seq<Seq<char>>,
)
    decreases rm.len(),
{
    if rm.len() == 0 {
        (lines, order, Seq::empty())
    } else {
        let (l, o, r) = remove_phase(lang, lines, order, rm.drop_last());
        match first_containing(l, o, rm.last()) {
            Some(idx) => (l.remove(idx), import_indices(lang, l.remove(idx)), r.push(l[idx])),
            None => (l, o, r),
        }
    }
}

/// Some line contains `imp`.
pub open spec fn any_contains(lines: Seq<Seq<char>>, imp: Seq<char>) -> bool {
    exists|i: int| 0 <= i < lines.len() && contains_spec(lines[i], imp)
}

/// Adding imports after position `idx`, each after the one added before;
/// an import some line already contains is not added.
pub open spec fn add_after(lang: Lang, lines: Seq<Seq<char>>, idx: int, add: Seq<Seq<char>>) -> (
    Seq<Seq<char>>,
    int,
    Seq<Seq<char>>,
)
    decreases add.len(),
{
    if add.len() == 0 {
        (lines, idx, Seq::empty())
    } else {
        let (l, i, a) = add_after(lang, lines, idx, add.drop_last());
        let imp = add.last();
        if any_contains(l, imp) {
            (l, i, a)
        } else {
            let line = import_line_for(lang, imp);
            (l.insert(i + 1, line), i + 1, a.push(line))
        }
    }
}

/// Adding imports, each at position `pos` (so the last ends up first);
/// with `check`, an import some line already contains is not added.
pub open spec fn add_at(lang: Lang, lines: Seq<Seq<char>>, pos: int, add: Seq<Seq<char>>, check: bool) -> (
    Seq<Seq<char>>,
    Seq<Seq<char>>,
)
    decreases add.len(),
{
    if add.len() == 0 {
        (lines, Seq::empty())
    } else {
        let (l, a) = add_at(lang, lines, pos, add.drop_last(), check);
        let imp = add.last();
        if check && any_contains(l, imp) {
            (l, a)
        } else {
            let line = import_line_for(lang, imp);
            (l.insert(pos, line), a.push(line))
        }
    }
}

/// The first line at or after `i` that is not blank, or -1.
pub open spec fn nonblank_from(lines: Seq<Seq<char>>, i: int) -> int
    decreases lines.len() - i,
{
    if i < 0 || i >= lines.len() {
        -1
    } else if trim_spec(lines[i]).len() > 0 {
        i
    } else {
        nonblank_from(lines, i + 1)
    }
}

/// The first line that is not blank, or 0.
pub open spec fn first_nonblank(lines: Seq<Seq<char>>) -> int {
    let r = nonblank_from(lines, 0);
    if r < 0 {
        0
    } else {
        r
    }
}

/// The first line at or after `start` that is exactly `)`.
pub open spec fn close_paren_from(lines: Seq<Seq<char>>, start: int) -> Option<int>
    decreases lines.len() - start,
{
    if start < 0 || start >= lines.len() {
        None
    } else if lines[start] == ")"@ {
        Some(start)
    } else {
        close_paren_from(lines, start + 1)
    }
}

/// The lines after removals and additions, with the added and the removed
/// lines, for import positions first taken in order `order`.
pub open spec fn edit_spec(
    lang: Lang,
    content: Seq<char>,
    add: Seq<Seq<char>>,
    rm: Seq<Seq<char>>,
    order: Seq<int>,
) -> (Seq<Seq<char>>, Seq<Seq<char>>, Seq<Seq<char>>) {
    let (l1, o1, removed) = remove_phase(lang, lines_spec(content), order, rm);
    let (l2, added) = match lang {
        Lang::Go => if add.len() > 0 && o1.len() > 0 {
            match close_paren_from(l1, o1[0]) {
                Some(end) => add_at(lang, l1, end, add, true),
                None => (l1, Seq::empty()),
            }
        } else {
            (l1, Seq::empty())
        },
        _ => if o1.len() > 0 {
            let (l, _, a) = add_after(lang, l1, o1.last(), add);
            (l, a)
        } else if lang == Lang::JsTs && add.len() > 0 {
            add_at(lang, l1, first_nonblank(l1), add, false)
        } else {
            (l1, Seq::empty())
        },
    };
    (l2, added, removed)
}

// ---------------------------------------------------------------------------
// organizing
// ---------------------------------------------------------------------------

/// A JavaScript import from a quoted module path.
pub open spec fn is_external(l: Seq<char>) -> bool {
    contains_spec(l, "from '"@) || contains_spec(l, "from \""@)
}

/// The order imports are sorted in: by text; in JavaScript the imports
/// from a quoted module path come after the others.
pub open spec fn line_lt(lang: Lang, a: Seq<char>, b: Seq<char>) -> bool {
    match lang {
        Lang::JsTs => (!is_external(a) && is_external(b)) || (is_external(a) == is_external(b)
            && lex_lt(a, b)),
        _ => lex_lt(a, b),
    }
}

/// `a` may come before `b`.
pub open spec fn line_leq(lang: Lang) -> spec_fn(Seq<char>, Seq<char>) -> bool {
    |a: Seq<char>, b: Seq<char>| !line_lt(lang, b, a)
}

/// The import lines, in order.
pub open spec fn import_lines(lang: Lang, lines: Seq<Seq<char>>) -> Seq<Seq<char>>
    decreases lines.len(),
{
    if lines.len() == 0 {
        Seq::empty()
    } else {
        let r = import_lines(lang, lines.drop_last());
        if is_import_line(lang, lines.last()) {
            r.push(lines.last())
        } else {
            r
        }
    }
}

/// The lines that are not imports, in order.
pub open spec fn other_lines(lang: Lang, lines: Seq<Seq<char>>) -> Seq<Seq<char>>
    decreases lines.len(),
{
    if lines.len() == 0 {
        Seq::empty()
    } else {
        let r = other_lines(lang, lines.drop_last());
        if is_import_line(lang, lines.last()) {
            r
        } else {
            r.push(lines.last())
        }
    }
}

/// The imports, sorted, at the top; the other lines after them as they were.
pub open spec fn organize_spec(lang: Lang, lines: Seq<Seq<char>>) -> Seq<Seq<char>> {
    import_lines(lang, lines).sort_by(line_leq(lang)) + other_lines(lang, lines)
}

/// The order of import lines is a strict order that leaves no two different
/// lines unordered.
proof fn lemma_line_lt(lang: Lang, a: Seq<char>, b: Seq<char>, c: Seq<char>)
    ensures
        !line_lt(lang, a, a),
        line_lt(lang, a, b) ==> !line_lt(lang, b, a),
        line_lt(lang, a, b) && line_lt(lang, b, c) ==> line_lt(lang, a, c),
        a != b ==> line_lt(lang, a, b) || line_lt(lang, b, a),
{
    lemma_lex_asym(a, b);
    lemma_lex_asym(a, a);
    lemma_lex_total(a, b);
    if lex_lt(a, b) && lex_lt(b, c) {
        lemma_lex_trans(a, b, c);
    }
}

/// "May come before" is a total order.
pub proof fn lemma_line_leq_total(lang: Lang)
    ensures
        total_ordering(line_leq(lang)),
{
    let leq = line_leq(lang);
    assert forall|x: Seq<char>| #[trigger] leq(x, x) by {
        lemma_line_lt(lang, x, x, x);
    }
    assert forall|x: Seq<char>, y: Seq<char>| #[trigger] leq(x, y) && #[trigger] leq(y, x) implies x
        == y by {
        lemma_line_lt(lang, x, y, x);
    }
    assert forall|x: Seq<char>, y: Seq<char>, z: Seq<char>| #[trigger] leq(x, y) && #[trigger] leq(
        y,
        z,
    ) implies leq(x, z) by {
        lemma_line_lt(lang, z, x, y);
        lemma_line_lt(lang, z, y, x);
        lemma_line_lt(lang, y, z, x);
        lemma_line_lt(lang, x, y, z);
        lemma_line_lt(lang, y, x, z);
        lemma_line_lt(lang, x, z, y);
    }
    assert forall|x: Seq<char>, y: Seq<char>| #[trigger] leq(x, y) || #[trigger] leq(y, x) by {
        lemma_line_lt(lang, x, y, x);
    }
}

// ---------------------------------------------------------------------------
// the edits, executed
// ---------------------------------------------------------------------------

/// Positions as integers.
pub open spec fn ints(v: Seq<usize>) -> Seq<int> {
    v.map_values(|i: usize| i as int)
}

/// Whether `l` is an import line of the language.
pub fn is_import(lang: Lang, l: &[char]) -> (r: bool)
    ensures
        r == is_import_line(lang, l@),
{
    match lang {
        Lang::JsTs => starts_with_chars(l, chars_of("import ").as_slice()) || starts_with_chars(
            l,
            chars_of("export ").as_slice(),
        ),
        Lang::Python => starts_with_chars(l, chars_of("import ").as_slice()) || starts_with_chars(
            l,
            chars_of("from ").as_slice(),
        ),
        Lang::Rust => starts_with_chars(l, chars_of("use ").as_slice()) || starts_with_chars(
            l,
            chars_of("pub use ").as_slice(),
        ),
        Lang::Go => starts_with_chars(l, chars_of("\t\"").as_slice()) || starts_with_chars(
            l,
            chars_of("\"").as_slice(),
        ),
    }
}

/// The line added for import `imp`.
fn import_line_exec(lang: Lang, imp: &[char]) -> (r: Vec<char>)
    ensures
        r@ == import_line_for(lang, imp@),
{
    match lang {
        Lang::Go => {
            let mut r = chars_of("\t\"");
            let mut i: usize = 0;
            let ghost start = r@;
            while i < imp.len()
                invariant
                    i <= imp.len(),
                    r@ == start + imp@.take(i as int),
                decreases imp.len() - i,
            {
                r.push(imp[i]);
                assert(imp@.take(i + 1) =~= imp@.take(i as int).push(imp@[i as int]));
                i = i + 1;
            }
            r.push('"');
            proof {
                reveal_strlit("\"");
                assert(imp@.take(imp@.len() as int) =~= imp@);
                assert(r@ =~= "\t\""@ + imp@ + "\""@);
            }
            r
        },
        _ => {
            if is_import(lang, imp) {
                crate::text::slice_chars(imp, 0, imp.len())
            } else {
                let mut r = match lang {
                    Lang::Rust => chars_of("use "),
                    _ => chars_of("import "),
                };
                let ghost start = r@;
                let mut i: usize = 0;
                while i < imp.len()
                    invariant
                        i <= imp.len(),
                        r@ == start + imp@.take(i as int),
                    decreases imp.len() - i,
                {
                    r.push(imp[i]);
                    assert(imp@.take(i + 1) =~= imp@.take(i as int).push(imp@[i as int]));
                    i = i + 1;
                }
                assert(imp@.take(imp@.len() as int) =~= imp@);
                assert(imp@.subrange(0, imp@.len() as int) =~= imp@);
                r
            }
        },
    }
}

/// The positions of the import lines, in order.
pub fn import_positions(lang: Lang, lines: &Vec<Vec<char>>) -> (r: Vec<usize>)
    ensures
        ints(r@) == import_indices(lang, vviews(lines@)),
        forall|k: int| 0 <= k < r@.len() ==> r@[k] < lines@.len(),
{
    let mut r: Vec<usize> = Vec::new();
    let mut i: usize = 0;
    while i < lines.len()
        invariant
            i <= lines.len(),
            ints(r@) == import_indices(lang, vviews(lines@).take(i as int)),
            forall|k: int| 0 <= k < r@.len() ==> r@[k] < i,
        decreases lines.len() - i,
    {
        let ghost prev = r@;
        proof {
            let vs = vviews(lines@);
            assert(vs.take(i + 1).drop_last() =~= vs.take(i as int));
            assert(vs.take(i + 1).last() == lines@[i as int]@);
        }
        if is_import(lang, lines[i].as_slice()) {
            r.push(i);
            assert(ints(r@) =~= ints(prev).push(i as int));
        }
        i = i + 1;
    }
    assert(vviews(lines@).take(lines@.len() as int) =~= vviews(lines@));
    r
}

/// Whether some line contains `imp`.
fn any_contains_exec(lines: &Vec<Vec<char>>, imp: &[char]) -> (r: bool)
    ensures
        r == any_contains(vviews(lines@), imp@),
{
    let mut i: usize = 0;
    while i < lines.len()
        invariant
            i <= lines.len(),
            forall|j: int| 0 <= j < i ==> !contains_spec(vviews(lines@)[j], imp@),
        decreases lines.len() - i,
    {
        if contains_chars(lines[i].as_slice(), imp) {
            assert(contains_spec(vviews(lines@)[i as int], imp@));
            return true;
        }
        i = i + 1;
    }
    false
}

/// The first position, in the order given, whose line contains `imp`.
fn first_containing_exec(lines: &Vec<Vec<char>>, order: &Vec<usize>, imp: &[char]) -> (r: Option<
    usize,
>)
    requires
        forall|k: int| 0 <= k < order@.len() ==> order@[k] < lines@.len(),
    ensures
        r matches Some(i) ==> first_containing(vviews(lines@), ints(order@), imp@) == Some(i as int)
            && i < lines@.len(),
        r is None ==> first_containing(vviews(lines@), ints(order@), imp@) is None,
{
    let ghost ls = vviews(lines@);
    let mut k: usize = 0;
    assert(ints(order@).subrange(0, order@.len() as int) =~= ints(order@));
    while k < order.len()
        invariant
            k <= order.len(),
            ls == vviews(lines@),
            forall|q: int| 0 <= q < order@.len() ==> order@[q] < lines@.len(),
            first_containing(ls, ints(order@), imp@) == first_containing(
                ls,
                ints(order@).subrange(k as int, order@.len() as int),
                imp@,
            ),
        decreases order.len() - k,
    {
        let ghost rest = ints(order@).subrange(k as int, order@.len() as int);
        assert(rest[0] == order@[k as int] as int);
        assert(rest.subrange(1, rest.len() as int) =~= ints(order@).subrange(
            k + 1,
            order@.len() as int,
        ));
        let i = order[k];
        if contains_chars(lines[i].as_slice(), imp) {
            assert(ls[i as int] == lines@[i as int]@);
            return Some(i);
        }
        assert(ls[i as int] == lines@[i as int]@);
        k = k + 1;
    }
    None
}

/// Removing the imports named in `rm`.
fn remove_imports(lang: Lang, lines: &mut Vec<Vec<char>>, order: &mut Vec<usize>, rm: &[String]) -> (removed: Vec<Vec<char>>)
    requires
        forall|k: int| 0 <= k < old(order)@.len() ==> old(order)@[k] < old(lines)@.len(),
    ensures
        ({
            let (l, o, r) = remove_phase(
                lang,
                vviews(old(lines)@),
                ints(old(order)@),
                crate::text::views(rm@),
            );
            &&& vviews(final(lines)@) == l
            &&& ints(final(order)@) == o
            &&& vviews(removed@) == r
        }),
        forall|k: int| 0 <= k < final(order)@.len() ==> final(order)@[k] < final(lines)@.len(),
{
    let ghost l0 = vviews(lines@);
    let ghost o0 = ints(order@);
    let ghost rs = crate::text::views(rm@);
    let mut removed: Vec<Vec<char>> = Vec::new();
    let mut j: usize = 0;
    assert(rs.take(0) =~= Seq::<Seq<char>>::empty());
    while j < rm.len()
        invariant
            j <= rm.len(),
            rs == crate::text::views(rm@),
            forall|k: int| 0 <= k < order@.len() ==> order@[k] < lines@.len(),
            ({
                let (l, o, r) = remove_phase(lang, l0, o0, rs.take(j as int));
                &&& vviews(lines@) == l
                &&& ints(order@) == o
                &&& vviews(removed@) == r
            }),
        decreases rm.len() - j,
    {
        assert(rs.take(j + 1).drop_last() =~= rs.take(j as int));
        assert(rs.take(j + 1).last() == rm@[j as int]@);
        let imp = chars_of(rm[j].as_str());
        match first_containing_exec(lines, order, imp.as_slice()) {
            Some(idx) => {
                let ghost before = lines@;
                let ghost rprev = removed@;
                let line = lines.remove(idx);
                assert(vviews(lines@) =~= vviews(before).remove(idx as int));
                removed.push(line);
                assert(vviews(removed@) =~= vviews(rprev).push(vviews(before)[idx as int]));
                let fresh = import_positions(lang, lines);
                *order = fresh;
            },
            None => {},
        }
        j = j + 1;
    }
    assert(rs.take(rm.len() as int) =~= rs);
    removed
}

/// Adding imports after position `idx`, each after the one added before.
fn add_imports_after(lang: Lang, lines: &mut Vec<Vec<char>>, idx: usize, add: &[String]) -> (added: Vec<Vec<char>>)
    requires
        idx < old(lines)@.len(),
    ensures
        ({
            let (l, _, a) = add_after(lang, vviews(old(lines)@), idx as int, crate::text::views(add@));
            &&& vviews(final(lines)@) == l
            &&& vviews(added@) == a
        }),
{
    let ghost l0 = vviews(lines@);
    let ghost ad = crate::text::views(add@);
    let mut added: Vec<Vec<char>> = Vec::new();
    let mut i = idx;
    let mut j: usize = 0;
    while j < add.len()
        invariant
            j <= add.len(),
            i < lines@.len(),
            ad == crate::text::views(add@),
            ({
                let (l, at, a) = add_after(lang, l0, idx as int, ad.take(j as int));
                &&& vviews(lines@) == l
                &&& at == i
                &&& vviews(added@) == a
            }),
        decreases add.len() - j,
    {
        assert(ad.take(j + 1).drop_last() =~= ad.take(j as int));
        assert(ad.take(j + 1).last() == add@[j as int]@);
        let imp = chars_of(add[j].as_str());
        if !any_contains_exec(lines, imp.as_slice()) {
            let line = import_line_exec(lang, imp.as_slice());
            let ghost before = lines@;
            let ghost aprev = added@;
            let n = lines.len();
            assert(i < n);
            lines.insert(i + 1, line.clone());
            assert(vviews(lines@) =~= vviews(before).insert(i + 1, line@));
            added.push(line);
            assert(vviews(added@) =~= vviews(aprev).push(line@));
            i = i + 1;
        }
        j = j + 1;
    }
    assert(ad.take(add.len() as int) =~= ad);
    added
}

/// Adding imports, each at position `pos`; with `check`, an import some line
/// already contains is not added.
fn add_imports_at(lang: Lang, lines: &mut Vec<Vec<char>>, pos: usize, add: &[String], check: bool) -> (added: Vec<Vec<char>>)
    requires
        pos <= old(lines)@.len(),
    ensures
        ({
            let (l, a) = add_at(lang, vviews(old(lines)@), pos as int, crate::text::views(add@), check);
            &&& vviews(final(lines)@) == l
            &&& vviews(added@) == a
        }),
{
    let ghost l0 = vviews(lines@);
    let ghost ad = crate::text::views(add@);
    let mut added: Vec<Vec<char>> = Vec::new();
    let mut j: usize = 0;
    while j < add.len()
        invariant
            j <= add.len(),
            pos <= lines@.len(),
            ad == crate::text::views(add@),
            ({
                let (l, a) = add_at(lang, l0, pos as int, ad.take(j as int), check);
                &&& vviews(lines@) == l
                &&& vviews(added@) == a
            }),
        decreases add.len() - j,
    {
        assert(ad.take(j + 1).drop_last() =~= ad.take(j as int));
        assert(ad.take(j + 1).last() == add@[j as int]@);
        let imp = chars_of(add[j].as_str());
        if !(check && any_contains_exec(lines, imp.as_slice())) {
            let line = import_line_exec(lang, imp.as_slice());
            let ghost before = lines@;
            let ghost aprev = added@;
            lines.insert(pos, line.clone());
            assert(vviews(lines@) =~= vviews(before).insert(pos as int, line@));
            added.push(line);
            assert(vviews(added@) =~= vviews(aprev).push(line@));
        }
        j = j + 1;
    }
    assert(ad.take(add.len() as int) =~= ad);
    added
}

/// The first line at or after `start` that is exactly `)`.
fn close_paren_exec(lines: &Vec<Vec<char>>, start: usize) -> (r: Option<usize>)
    ensures
        r matches Some(e) ==> close_paren_from(vviews(lines@), start as int) == Some(e as int) && e
            < lines@.len(),
        r is None ==> close_paren_from(vviews(lines@), start as int) is None,
{
    let paren = chars_of(")");
    let mut i = start;
    if i >= lines.len() {
        return None;
    }
    while i < lines.len()
        invariant
            start <= i <= lines.len(),
            paren@ == ")"@,
            close_paren_from(vviews(lines@), start as int) == close_paren_from(
                vviews(lines@),
                i as int,
            ),
        decreases lines.len() - i,
    {
        assert(vviews(lines@)[i as int] == lines@[i as int]@);
        if crate::text::seq_eq(lines[i].as_slice(), paren.as_slice()) {
            return Some(i);
        }
        i = i + 1;
    }
    None
}

/// The first line that is not blank, or 0.
fn first_nonblank_exec(lines: &Vec<Vec<char>>) -> (r: usize)
    ensures
        r as int == first_nonblank(vviews(lines@)),
        r <= lines@.len(),
{
    let mut i: usize = 0;
    while i < lines.len()
        invariant
            i <= lines.len(),
            nonblank_from(vviews(lines@), 0) == nonblank_from(vviews(lines@), i as int),
        decreases lines.len() - i,
    {
        assert(vviews(lines@)[i as int] == lines@[i as int]@);
        let t = trim_chars(lines[i].as_slice());
        if t.len() > 0 {
            return i;
        }
        i = i + 1;
    }
    0
}

/// Whether `a` sorts before `b` among import lines.
fn line_lt_exec(lang: Lang, a: &[char], b: &[char]) -> (r: bool)
    ensures
        r == line_lt(lang, a@, b@),
{
    match lang {
        Lang::JsTs => {
            let q1 = chars_of("from '");
            let q2 = chars_of("from \"");
            let ea = contains_chars(a, q1.as_slice()) || contains_chars(a, q2.as_slice());
            let eb = contains_chars(b, q1.as_slice()) || contains_chars(b, q2.as_slice());
            (!ea && eb) || (ea == eb && chars_less(a, b))
        },
        _ => chars_less(a, b),
    }
}

/// Inserting `x` before the first element it sorts before keeps a sorted
/// sequence sorted.
proof fn lemma_insert_sorted(lang: Lang, s: Seq<Seq<char>>, p: int, x: Seq<char>)
    requires
        0 <= p <= s.len(),
        sorted_by(s, line_leq(lang)),
        forall|j: int| 0 <= j < p ==> !line_lt(lang, x, s[j]),
        p < s.len() ==> line_lt(lang, x, s[p]),
    ensures
        sorted_by(s.insert(p, x), line_leq(lang)),
{
    let t = s.insert(p, x);
    let leq = line_leq(lang);
    assert forall|i: int, j: int| 0 <= i < j < t.len() implies #[trigger] leq(t[i], t[j]) by {
        if j < p {
            assert(t[i] == s[i] && t[j] == s[j]);
            assert(leq(s[i], s[j]));
        } else if j == p {
            assert(t[j] == x && t[i] == s[i]);
        } else if i == p {
            assert(t[i] == x && t[j] == s[j - 1]);
            if p < j - 1 {
                assert(leq(s[p], s[j - 1]));
            }
            lemma_line_lt(lang, s[j - 1], x, s[p]);
            lemma_line_lt(lang, x, s[p], x);
        } else if i < p {
            assert(t[i] == s[i] && t[j] == s[j - 1]);
            assert(leq(s[i], s[j - 1]));
        } else {
            assert(t[i] == s[i - 1] && t[j] == s[j - 1]);
            assert(leq(s[i - 1], s[j - 1]));
        }
    }
}

/// Inserting an element adds it to the multiset.
proof fn lemma_insert_multiset(s: Seq<Seq<char>>, p: int, x: Seq<char>)
    requires
        0 <= p <= s.len(),
    ensures
        s.insert(p, x).to_multiset() == s.to_multiset().insert(x),
{
    broadcast use vstd::seq_lib::group_to_multiset_ensures;
    broadcast use vstd::multiset::group_multiset_axioms;

    let t = s.insert(p, x);
    assert(t.remove(p) =~= s);
    assert(t[p] == x);
    assert(t.to_multiset().count(x) > 0) by {
        assert(t.contains(x));
    }
    assert(t.to_multiset() =~= s.to_multiset().insert(x));
}

/// The lines sorted into import order.
fn sort_lines(lang: Lang, v: &Vec<Vec<char>>) -> (r: Vec<Vec<char>>)
    ensures
        sorted_by(vviews(r@), line_leq(lang)),
        vviews(r@).to_multiset() == vviews(v@).to_multiset(),
{
    broadcast use vstd::seq_lib::group_to_multiset_ensures;

    let mut out: Vec<Vec<char>> = Vec::new();
    let mut i: usize = 0;
    assert(vviews(v@).take(0) =~= Seq::<Seq<char>>::empty());
    while i < v.len()
        invariant
            i <= v.len(),
            sorted_by(vviews(out@), line_leq(lang)),
            vviews(out@).to_multiset() == vviews(v@).take(i as int).to_multiset(),
        decreases v.len() - i,
    {
        let x = crate::text::slice_chars(v[i].as_slice(), 0, v[i].len());
        assert(x@ =~= v@[i as int]@);
        let mut p: usize = 0;
        while p < out.len() && !line_lt_exec(lang, x.as_slice(), out[p].as_slice())
            invariant
                p <= out.len(),
                forall|j: int| 0 <= j < p ==> !line_lt(lang, x@, vviews(out@)[j]),
            decreases out.len() - p,
        {
            p = p + 1;
        }
        let ghost before = vviews(out@);
        let ghost xv = x@;
        proof {
            lemma_insert_sorted(lang, before, p as int, xv);
            lemma_insert_multiset(before, p as int, xv);
            assert(vviews(v@).take(i + 1) =~= vviews(v@).take(i as int).push(xv));
            vstd::seq_lib::to_multiset_build(vviews(v@).take(i as int), xv);
        }
        out.insert(p, x);
        assert(vviews(out@) =~= before.insert(p as int, xv));
        i = i + 1;
    }
    assert(vviews(v@).take(v.len() as int) =~= vviews(v@));
    out
}

/// The imports sorted to the top, the other lines after them as they were.
fn organize_lines(lang: Lang, lines: &Vec<Vec<char>>) -> (r: Vec<Vec<char>>)
    ensures
        vviews(r@) == organize_spec(lang, vviews(lines@)),
{
    let ghost ls = vviews(lines@);
    let mut imps: Vec<Vec<char>> = Vec::new();
    let mut others: Vec<Vec<char>> = Vec::new();
    let mut i: usize = 0;
    while i < lines.len()
        invariant
            i <= lines.len(),
            ls == vviews(lines@),
            vviews(imps@) == import_lines(lang, ls.take(i as int)),
            vviews(others@) == other_lines(lang, ls.take(i as int)),
        decreases lines.len() - i,
    {
        assert(ls.take(i + 1).drop_last() =~= ls.take(i as int));
        assert(ls.take(i + 1).last() == lines@[i as int]@);
        let x = crate::text::slice_chars(lines[i].as_slice(), 0, lines[i].len());
        assert(x@ =~= lines@[i as int]@);
        if is_import(lang, lines[i].as_slice()) {
            let ghost prev = imps@;
            imps.push(x);
            assert(vviews(imps@) =~= vviews(prev).push(x@));
        } else {
            let ghost prev = others@;
            others.push(x);
            assert(vviews(others@) =~= vviews(prev).push(x@));
        }
        i = i + 1;
    }
    assert(ls.take(lines.len() as int) =~= ls);
    let mut sorted = sort_lines(lang, &imps);
    proof {
        let leq = line_leq(lang);
        lemma_line_leq_total(lang);
        import_lines(lang, ls).lemma_sort_by_ensures(leq);
        vstd::seq_lib::lemma_sorted_unique(
            vviews(sorted@),
            import_lines(lang, ls).sort_by(leq),
            leq,
        );
    }
    let ghost s0 = vviews(sorted@);
    let mut k: usize = 0;
    while k < others.len()
        invariant
            k <= others.len(),
            vviews(sorted@) == s0 + vviews(others@).take(k as int),
        decreases others.len() - k,
    {
        let ghost prev = sorted@;
        let y = crate::text::slice_chars(others[k].as_slice(), 0, others[k].len());
        assert(y@ =~= others@[k as int]@);
        sorted.push(y);
        assert(vviews(others@).take(k + 1) =~= vviews(others@).take(k as int).push(others@[k as int]@));
        assert(vviews(sorted@) =~= vviews(prev).push(y@));
        k = k + 1;
    }
    assert(vviews(others@).take(others.len() as int) =~= vviews(others@));
    sorted
}

/// `r` is what editing the imports of `content` gives: the new content (the
/// edited lines, organized if asked, joined by `\n`), the added lines and the
/// removed lines.
pub open spec fn edited(
    lang: Lang,
    content: Seq<char>,
    add: Seq<String>,
    remove: Seq<String>,
    organize: bool,
    order: Seq<usize>,
    r: (String, Vec<String>, Vec<String>),
) -> bool {
    let (l2, added, removed) = edit_spec(
        lang,
        content,
        crate::text::views(add),
        crate::text::views(remove),
        ints(order),
    );
    &&& r.0@ == join_spec(
        if organize {
            organize_spec(lang, l2)
        } else {
            l2
        },
        "\n"@,
    )
    &&& crate::text::views(r.1@) == added
    &&& crate::text::views(r.2@) == removed
}

/// Edits the imports of `content`: removes those named in `remove`, adds
/// those in `add`, and with `organize` sorts the imports to the top.  The
/// first removal looks through the import lines in the order `order` gives
/// their positions (the caller's order of walking them); later steps take
/// them in line order.  Returns the new content (lines joined by `\n`), the
/// lines added and the lines removed.
pub fn edit_imports(
    lang: Lang,
    content: &str,
    add: &[String],
    remove: &[String],
    organize: bool,
    order: &[usize],
) -> (r: (String, Vec<String>, Vec<String>))
    requires
        forall|k: int| 0 <= k < order@.len() ==> order@[k] < lines_spec(content@).len(),
    ensures
        edited(lang, content@, add@, remove@, organize, order@, r),
{
    let cv = chars_of(content);
    let mut lines = lines_of(cv.as_slice());
    let mut ord: Vec<usize> = Vec::new();
    let mut q: usize = 0;
    while q < order.len()
        invariant
            q <= order.len(),
            ord@ == order@.take(q as int),
        decreases order.len() - q,
    {
        ord.push(order[q]);
        assert(order@.take(q + 1) =~= order@.take(q as int).push(order@[q as int]));
        q = q + 1;
    }
    assert(order@.take(order.len() as int) =~= order@);
    let ghost l0 = vviews(lines@);
    assert(l0 == lines_spec(content@));
    assert(ints(ord@) == ints(order@));
    let removed = remove_imports(lang, &mut lines, &mut ord, remove);
    let ghost l1 = vviews(lines@);
    let ghost o1 = ints(ord@);
    assert((l1, o1, vviews(removed@)) == remove_phase(
        lang,
        lines_spec(content@),
        ints(order@),
        crate::text::views(remove@),
    ));
    let added = match lang {
        Lang::Go => {
            if add.len() > 0 && ord.len() > 0 {
                assert(o1[0] == ord@[0] as int);
                match close_paren_exec(&lines, ord[0]) {
                    Some(end) => add_imports_at(lang, &mut lines, end, add, true),
                    None => Vec::new(),
                }
            } else {
                Vec::new()
            }
        },
        _ => {
            if ord.len() > 0 {
                let last = ord[ord.len() - 1];
                assert(o1.last() == last as int);
                add_imports_after(lang, &mut lines, last, add)
            } else if lang == Lang::JsTs && add.len() > 0 {
                let pos = first_nonblank_exec(&lines);
                add_imports_at(lang, &mut lines, pos, add, false)
            } else {
                Vec::new()
            }
        },
    };
    let ghost es = edit_spec(
        lang,
        content@,
        crate::text::views(add@),
        crate::text::views(remove@),
        ints(order@),
    );
    assert(vviews(lines@) == es.0);
    assert(vviews(added@) == es.1);
    assert(vviews(removed@) == es.2);
    let finished = if organize {
        organize_lines(lang, &lines)
    } else {
        lines
    };
    let text = join_chars(finished.as_slice(), "\n");
    (text, strings_of(&added), strings_of(&removed))
}

/// Character vectors as strings.
fn strings_of(v: &Vec<Vec<char>>) -> (r: Vec<String>)
    ensures
        crate::text::views(r@) == vviews(v@),
{
    let mut r: Vec<String> = Vec::new();
    let mut i: usize = 0;
    while i < v.len()
        invariant
            i <= v.len(),
            crate::text::views(r@) == vviews(v@).take(i as int),
        decreases v.len() - i,
    {
        let s = crate::text::string_of(v[i].as_slice());
        let ghost prev = r@;
        r.push(s);
        assert(crate::text::views(r@) =~= crate::text::views(prev).push(s@));
        assert(vviews(v@).take(i + 1) =~= vviews(v@).take(i as int).push(v@[i as int]@));
        i = i + 1;
    }
    assert(vviews(v@).take(v.len() as int) =~= vviews(v@));
    r
}

/// The language whose imports a file with (lowercased) extension `ext` has.
pub open spec fn lang_spec(ext: Seq<char>) -> Option<Lang> {
    if ext == "js"@ || ext == "jsx"@ || ext == "ts"@ || ext == "tsx"@ || ext == "mjs"@ || ext
        == "cjs"@ {
        Some(Lang::JsTs)
    } else if ext == "py"@ {
        Some(Lang::Python)
    } else if ext == "rs"@ {
        Some(Lang::Rust)
    } else if ext == "go"@ {
        Some(Lang::Go)
    } else {
        None
    }
}

/// The language of a file by its lowercased extension; `None` leaves the file
/// as it is.
pub fn lang_for_extension(ext: &str) -> (r: Option<Lang>)
    ensures
        r == lang_spec(ext@),
{
    if crate::text::same_text(ext, "js") || crate::text::same_text(ext, "jsx")
        || crate::text::same_text(ext, "ts") || crate::text::same_text(ext, "tsx")
        || crate::text::same_text(ext, "mjs") || crate::text::same_text(ext, "cjs") {
        Some(Lang::JsTs)
    } else if crate::text::same_text(ext, "py") {
        Some(Lang::Python)
    } else if crate::text::same_text(ext, "rs") {
        Some(Lang::Rust)
    } else if crate::text::same_text(ext, "go") {
        Some(Lang::Go)
    } else {
        None
    }
}

/// The positions of the import lines of `content`, in line order.
pub fn import_positions_of(lang: Lang, content: &str) -> (r: Vec<usize>)
    ensures
        ints(r@) == import_indices(lang, lines_spec(content@)),
        forall|k: int| 0 <= k < r@.len() ==> r@[k] < lines_spec(content@).len(),
{
    let cv = chars_of(content);
    let lines = lines_of(cv.as_slice());
    import_positions(lang, &lines)
}

/// Import editing for JavaScript and TypeScript sources.
pub fn process_js_ts(
    content: &str,
    add: &[String],
    remove: &[String],
    organize: bool,
    order: &[usize],
) -> (r: (String, Vec<String>, Vec<String>))
    requires
        forall|k: int| 0 <= k < order@.len() ==> order@[k] < lines_spec(content@).len(),
    ensures
        edited(Lang::JsTs, content@, add@, remove@, organize, order@, r),
{
    edit_imports(Lang::JsTs, content, add, remove, organize, order)
}

/// Import editing for Python sources.
pub fn process_python(
    content: &str,
    add: &[String],
    remove: &[String],
    organize: bool,
    order: &[usize],
) -> (r: (String, Vec<String>, Vec<String>))
    requires
        forall|k: int| 0 <= k < order@.len() ==> order@[k] < lines_spec(content@).len(),
    ensures
        edited(Lang::Python, content@, add@, remove@, organize, order@, r),
{
    edit_imports(Lang::Python, content, add, remove, organize, order)
}

/// Import editing for Rust sources.
pub fn process_rust(
    content: &str,
    add: &[String],
    remove: &[String],
    organize: bool,
    order: &[usize],
) -> (r: (String, Vec<String>, Vec<String>))
    requires
        forall|k: int| 0 <= k < order@.len() ==> order@[k] < lines_spec(content@).len(),
    ensures
        edited(Lang::Rust, content@, add@, remove@, organize, order@, r),
{
    edit_imports(Lang::Rust, content, add, remove, organize, order)
}

/// Import editing for Go sources.
pub fn process_go(
    content: &str,
    add: &[String],
    remove: &[String],
    organize: bool,
    order: &[usize],
) -> (r: (String, Vec<String>, Vec<String>))
    requires
        forall|k: int| 0 <= k < order@.len() ==> order@[k] < lines_spec(content@).len(),
    ensures
        edited(Lang::Go, content@, add@, remove@, organize, order@, r),
{
    edit_imports(Lang::Go, content, add, remove, organize, order)
}

// ---------------------------------------------------------------------------
// laws
// ---------------------------------------------------------------------------

proof fn lemma_insert_keeps_contains(lines: Seq<Seq<char>>, pos: int, line: Seq<char>, imp: Seq<char>)
    requires
        0 <= pos <= lines.len(),
        any_contains(lines, imp),
    ensures
        any_contains(lines.insert(pos, line), imp),
{
    let k = choose|k: int| 0 <= k < lines.len() && contains_spec(lines[k], imp);
    if k < pos {
        assert(lines.insert(pos, line)[k] == lines[k]);
    } else {
        assert(lines.insert(pos, line)[k + 1] == lines[k]);
    }
}

/// With the check on, imports that some line already contains add nothing.
proof fn lemma_add_at_present(lang: Lang, lines: Seq<Seq<char>>, pos: int, add: Seq<Seq<char>>)
    requires
        forall|k: int| 0 <= k < add.len() ==> any_contains(lines, #[trigger] add[k]),
    ensures
        add_at(lang, lines, pos, add, true) == (lines, Seq::<Seq<char>>::empty()),
    decreases add.len(),
{
    if add.len() > 0 {
        let d = add.drop_last();
        assert forall|k: int| 0 <= k < d.len() implies any_contains(lines, #[trigger] d[k]) by {
            assert(d[k] == add[k]);
        }
        lemma_add_at_present(lang, lines, pos, d);
        assert(any_contains(lines, add[add.len() - 1]));
    }
}

/// Imports that some line already contains add nothing after an import.
proof fn lemma_add_after_present(lang: Lang, lines: Seq<Seq<char>>, idx: int, add: Seq<Seq<char>>)
    requires
        forall|k: int| 0 <= k < add.len() ==> any_contains(lines, #[trigger] add[k]),
    ensures
        add_after(lang, lines, idx, add) == (lines, idx, Seq::<Seq<char>>::empty()),
    decreases add.len(),
{
    if add.len() > 0 {
        let d = add.drop_last();
        assert forall|k: int| 0 <= k < d.len() implies any_contains(lines, #[trigger] d[k]) by {
            assert(d[k] == add[k]);
        }
        lemma_add_after_present(lang, lines, idx, d);
        assert(any_contains(lines, add[add.len() - 1]));
    }
}

/// Adding imports that some line of the file already contains, and removing
/// none, leaves the lines as they are and reports nothing added.  (For a
/// JavaScript/TypeScript file without any import lines the imports go to
/// the top unlooked-at, so that case is left out.)
pub proof fn lemma_present_imports_not_added(
    lang: Lang,
    content: Seq<char>,
    add: Seq<Seq<char>>,
    order: Seq<int>,
)
    requires
        forall|k: int| 0 <= k < add.len() ==> any_contains(lines_spec(content), #[trigger] add[k]),
        lang != Lang::JsTs || order.len() > 0,
    ensures
        edit_spec(lang, content, add, Seq::empty(), order).0 == lines_spec(content),
        edit_spec(lang, content, add, Seq::empty(), order).1.len() == 0,
        edit_spec(lang, content, add, Seq::empty(), order).2.len() == 0,
{
    let lines = lines_spec(content);
    assert(remove_phase(lang, lines, order, Seq::empty()) == (lines, order, Seq::<Seq<char>>::empty()));
    if lang == Lang::Go {
        if add.len() > 0 && order.len() > 0 {
            match close_paren_from(lines, order[0]) {
                Some(end) => {
                    lemma_add_at_present(lang, lines, end, add);
                },
                None => {},
            }
        }
    } else if order.len() > 0 {
        lemma_add_after_present(lang, lines, order.last(), add);
    }
}

/// The same for the whole edit: the content comes back as its own lines
/// joined by line feeds, with nothing added and nothing removed.
pub proof fn lemma_edit_present_imports(
    lang: Lang,
    content: Seq<char>,
    add: Seq<String>,
    order: Seq<usize>,
    r: (String, Vec<String>, Vec<String>),
)
    requires
        edited(lang, content, add, Seq::empty(), false, order, r),
        forall|k: int| 0 <= k < add.len() ==> any_contains(lines_spec(content), (#[trigger] add[k])@),
        lang != Lang::JsTs || order.len() > 0,
    ensures
        r.0@ == join_spec(lines_spec(content), "\n"@),
        r.1@.len() == 0,
        r.2@.len() == 0,
{
    let av = crate::text::views(add);
    assert forall|k: int| 0 <= k < av.len() implies any_contains(lines_spec(content), #[trigger] av[k]) by {
        assert(av[k] == add[k]@);
    }
    assert(crate::text::views(Seq::<String>::empty()) =~= Seq::<Seq<char>>::empty());
    lemma_present_imports_not_added(lang, content, av, ints(order));
    assert(crate::text::views(r.1@).len() == r.1@.len());
    assert(crate::text::views(r.2@).len() == r.2@.len());
}

/// Adding one Go import that no line contains, to a file with an import
/// block and removing nothing, puts `\t"path"` on its own line just before
/// the block's closing `)` and reports that line as added.
pub proof fn lemma_go_add_one(content: Seq<char>, imp: Seq<char>, order: Seq<int>, end: int)
    requires
        !any_contains(lines_spec(content), imp),
        order.len() > 0,
        close_paren_from(lines_spec(content), order[0]) == Some(end),
    ensures
        edit_spec(Lang::Go, content, seq![imp], Seq::empty(), order).0 == lines_spec(content).insert(
            end,
            seq!['\t', '"'] + imp + seq!['"'],
        ),
        edit_spec(Lang::Go, content, seq![imp], Seq::empty(), order).1 == seq![seq!['\t', '"'] + imp + seq!['"']],
{
    reveal_strlit("\t\"");
    reveal_strlit("\"");
    assert("\t\""@ =~= seq!['\t', '"']);
    assert("\""@ =~= seq!['"']);
    let lines = lines_spec(content);
    assert(remove_phase(Lang::Go, lines, order, Seq::empty()) == (lines, order, Seq::<Seq<char>>::empty()));
    let add = seq![imp];
    assert(add.drop_last() =~= Seq::<Seq<char>>::empty());
    assert(add.last() == imp);
    assert(add_at(Lang::Go, lines, end, Seq::empty(), true) == (lines, Seq::<Seq<char>>::empty()));
    assert(add_at(Lang::Go, lines, end, add.drop_last(), true) == (lines, Seq::<Seq<char>>::empty()));
    assert(import_line_for(Lang::Go, imp) == seq!['\t', '"'] + imp + seq!['"']);
    assert(add_at(Lang::Go, lines, end, add, true) == (
        lines.insert(end, import_line_for(Lang::Go, imp)),
        Seq::<Seq<char>>::empty().push(import_line_for(Lang::Go, imp)),
    ));
    assert(Seq::<Seq<char>>::empty().push(import_line_for(Lang::Go, imp)) =~= seq![
        seq!['\t', '"'] + imp + seq!['"'],
    ]);
}

/// Adding one Rust import that no line contains, to a file with import
/// lines and removing nothing, puts it right after the last import line
/// (with `use ` before it unless it is already a `use` statement) and
/// reports that line as added.
pub proof fn lemma_rust_add_one(content: Seq<char>, imp: Seq<char>, order: Seq<int>)
    requires
        !any_contains(lines_spec(content), imp),
        order.len() > 0,
    ensures
        ({
            let line = if starts_with_spec(imp, "use "@) || starts_with_spec(imp, "pub use "@) {
                imp
            } else {
                seq!['u', 's', 'e', ' '] + imp
            };
            &&& edit_spec(Lang::Rust, content, seq![imp], Seq::empty(), order).0 == lines_spec(
                content,
            ).insert(order.last() + 1, line)
            &&& edit_spec(Lang::Rust, content, seq![imp], Seq::empty(), order).1 == seq![line]
        }),
{
    reveal_strlit("use ");
    assert("use "@ =~= seq!['u', 's', 'e', ' ']);
    let lines = lines_spec(content);
    assert(remove_phase(Lang::Rust, lines, order, Seq::empty()) == (lines, order, Seq::<Seq<char>>::empty()));
    let add = seq![imp];
    assert(add.drop_last() =~= Seq::<Seq<char>>::empty());
    assert(add.last() == imp);
    let line = import_line_for(Lang::Rust, imp);
    assert(add_after(Lang::Rust, lines, order.last(), add.drop_last()) == (
        lines,
        order.last(),
        Seq::<Seq<char>>::empty(),
    ));
    assert(add_after(Lang::Rust, lines, order.last(), add) == (
        lines.insert(order.last() + 1, line),
        order.last() + 1,
        Seq::<Seq<char>>::empty().push(line),
    ));
    assert(Seq::<Seq<char>>::empty().push(line) =~= seq![line]);
}

} // verus!
