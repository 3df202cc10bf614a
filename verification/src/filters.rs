//! The text filters templates can apply: case conventions, plural and
//! singular forms.
use crate::casing::{
    char_is_alphanumeric, char_is_uppercase, char_lower, char_to_lowercase, char_to_uppercase,
    char_upper, is_alnum, is_upper, lower, str_to_lowercase, str_to_uppercase, upper,
};
use crate::text::{
    chars_of, ends_with_spec, is_whitespace, is_ws, join_chars, join_spec, owned, push_str, string_of,
    vviews,
};
use vstd::prelude::*;

verus! {

// ---------------------------------------------------------------------------
// runs of characters
// ---------------------------------------------------------------------------

/// Which characters make up the words a filter splits into.
#[derive(Debug, Clone, Copy, PartialEq, Eq, Structural)]
pub enum RunKind {
    /// Letters and digits (words between any other characters).
    Alnum,
    /// Anything but white space (`str::split_whitespace`).
    NonSpace,
}

pub open spec fn keeps(kind: RunKind, c: char) -> bool {
    match kind {
        RunKind::Alnum => is_alnum(c),
        RunKind::NonSpace => !is_ws(c),
    }
}

/// The maximal runs of characters of the kind, in order; none is empty.
pub open spec fn runs(s: Seq<char>, kind: RunKind) -> Seq<Seq<char>>
    decreases s.len(),
{
    if s.len() == 0 {
        Seq::empty()
    } else {
        let w = runs(s.drop_last(), kind);
        let c = s.last();
        if !keeps(kind, c) {
            w
        } else if s.len() >= 2 && keeps(kind, s[s.len() - 2]) {
            w.drop_last().push(w.last().push(c))
        } else {
            w.push(seq![c])
        }
    }
}

fn keeps_exec(kind: RunKind, c: char) -> (r: bool)
    ensures
        r == keeps(kind, c),
{
    match kind {
        RunKind::Alnum => char_is_alphanumeric(c),
        RunKind::NonSpace => !is_whitespace(c),
    }
}

/// The maximal runs of characters of the kind.
pub fn runs_of(v: &[char], kind: RunKind) -> (r: Vec<Vec<char>>)
    ensures
        vviews(r@) == runs(v@, kind),
{
    let mut out: Vec<Vec<char>> = Vec::new();
    let mut prev_kept = false;
    let mut i: usize = 0;
    while i < v.len()
        invariant
            i <= v.len(),
            vviews(out@) == runs(v@.take(i as int), kind),
            prev_kept == (i > 0 && keeps(kind, v@[i - 1])),
            prev_kept ==> out@.len() > 0,
        decreases v.len() - i,
    {
        let c = v[i];
        let k = keeps_exec(kind, c);
        let ghost t = v@.take(i + 1);
        assert(t.drop_last() =~= v@.take(i as int));
        assert(t.last() == c);
        if k {
            if prev_kept {
                assert(t[t.len() - 2] == v@[i - 1]);
                let last = out.len() - 1;
                let ghost before = vviews(out@);
                let mut w = out.pop().unwrap();
                w.push(c);
                out.push(w);
                assert(vviews(out@) =~= before.drop_last().push(before.last().push(c)));
            } else {
                if i >= 1 {
                    assert(t[t.len() - 2] == v@[i - 1]);
                }
                let ghost before = vviews(out@);
                let mut w: Vec<char> = Vec::new();
                w.push(c);
                out.push(w);
                assert(vviews(out@) =~= before.push(seq![c]));
            }
        }
        prev_kept = k;
        i = i + 1;
    }
    assert(v@.take(v.len() as int) =~= v@);
    out
}

// ---------------------------------------------------------------------------
// case conventions
// ---------------------------------------------------------------------------

/// Each character by its lowercase mapping.
pub open spec fn lower_each(t: Seq<char>) -> Seq<char>
    decreases t.len(),
{
    if t.len() == 0 {
        Seq::empty()
    } else {
        lower_each(t.drop_last()) + char_lower(t.last())
    }
}

/// A word with its first character uppercased (the first character of its
/// uppercase mapping) and the others lowercased.
pub open spec fn cap_word(w: Seq<char>) -> Seq<char> {
    if w.len() == 0 {
        Seq::empty()
    } else {
        char_upper(w[0]).take(1) + lower_each(w.skip(1))
    }
}

/// camelCase: the first word lowercased, the others capitalized.
pub open spec fn camel_of(ws: Seq<Seq<char>>) -> Seq<char>
    decreases ws.len(),
{
    if ws.len() == 0 {
        Seq::empty()
    } else if ws.len() == 1 {
        lower(ws[0])
    } else {
        camel_of(ws.drop_last()) + cap_word(ws.last())
    }
}

/// PascalCase: every word capitalized.
pub open spec fn pascal_of(ws: Seq<Seq<char>>) -> Seq<char>
    decreases ws.len(),
{
    if ws.len() == 0 {
        Seq::empty()
    } else {
        pascal_of(ws.drop_last()) + cap_word(ws.last())
    }
}

/// Each character lowercased (first character of its mapping), with `sep`
/// before every uppercase character but the first.
pub open spec fn mark_upper(s: Seq<char>, sep: char) -> Seq<char>
    decreases s.len(),
{
    if s.len() == 0 {
        Seq::empty()
    } else {
        let c = s.last();
        mark_upper(s.drop_last(), sep) + (if is_upper(c) && s.len() > 1 {
            seq![sep]
        } else {
            Seq::empty()
        }) + char_lower(c).take(1)
    }
}

/// snake_case or kebab-case: uppercase characters marked, then the white
/// space separated parts joined by `sep`.
pub open spec fn separated(s: Seq<char>, sep: char) -> Seq<char> {
    join_spec(runs(mark_upper(s, sep), RunKind::NonSpace), seq![sep])
}

fn lower_each_exec(v: &[char], from: usize) -> (r: String)
    requires
        from <= v.len(),
    ensures
        r@ == lower_each(v@.skip(from as int)),
{
    let mut r = String::new();
    let mut i = from;
    assert(v@.skip(from as int).take(0) =~= Seq::<char>::empty());
    while i < v.len()
        invariant
            from <= i <= v.len(),
            r@ == lower_each(v@.skip(from as int).take(i - from)),
        decreases v.len() - i,
    {
        let l = char_to_lowercase(v[i]);
        let ghost t = v@.skip(from as int).take(i + 1 - from);
        assert(t.drop_last() =~= v@.skip(from as int).take(i - from));
        assert(t.last() == v@[i as int]);
        push_str(&mut r, l.as_str());
        i = i + 1;
    }
    assert(v@.skip(from as int).take(v.len() - from) =~= v@.skip(from as int));
    r
}

/// A word capitalized.
fn cap_word_exec(w: &[char]) -> (r: String)
    ensures
        r@ == cap_word(w@),
{
    if w.len() == 0 {
        return String::new();
    }
    let u = char_to_uppercase(w[0]);
    let uc = chars_of(u.as_str());
    let mut r = String::new();
    crate::text::push_char(&mut r, uc[0]);
    assert(r@ =~= char_upper(w@[0]).take(1));
    let rest = lower_each_exec(w, 1);
    push_str(&mut r, rest.as_str());
    r
}

/// The `camelcase` filter.
pub fn camelcase_filter(s: &str) -> (r: String)
    ensures
        r@ == camel_of(runs(s@, RunKind::Alnum)),
{
    let v = chars_of(s);
    let ws = runs_of(v.as_slice(), RunKind::Alnum);
    let mut r = String::new();
    let mut i: usize = 0;
    while i < ws.len()
        invariant
            i <= ws.len(),
            r@ == camel_of(vviews(ws@).take(i as int)),
        decreases ws.len() - i,
    {
        let ghost t = vviews(ws@).take(i + 1);
        assert(t.drop_last() =~= vviews(ws@).take(i as int));
        assert(t.last() == ws@[i as int]@);
        if i == 0 {
            let w = string_of(ws[i].as_slice());
            r = str_to_lowercase(w.as_str());
            assert(t.len() == 1 && t[0] == ws@[0]@);
        } else {
            let c = cap_word_exec(ws[i].as_slice());
            push_str(&mut r, c.as_str());
        }
        i = i + 1;
    }
    assert(vviews(ws@).take(ws.len() as int) =~= vviews(ws@));
    r
}

/// The `pascalcase` filter.
pub fn pascalcase_filter(s: &str) -> (r: String)
    ensures
        r@ == pascal_of(runs(s@, RunKind::Alnum)),
{
    let v = chars_of(s);
    let ws = runs_of(v.as_slice(), RunKind::Alnum);
    let mut r = String::new();
    let mut i: usize = 0;
    while i < ws.len()
        invariant
            i <= ws.len(),
            r@ == pascal_of(vviews(ws@).take(i as int)),
        decreases ws.len() - i,
    {
        let ghost t = vviews(ws@).take(i + 1);
        assert(t.drop_last() =~= vviews(ws@).take(i as int));
        assert(t.last() == ws@[i as int]@);
        let c = cap_word_exec(ws[i].as_slice());
        push_str(&mut r, c.as_str());
        i = i + 1;
    }
    assert(vviews(ws@).take(ws.len() as int) =~= vviews(ws@));
    r
}

fn separated_exec(s: &str, sep: char) -> (r: String)
    ensures
        r@ == separated(s@, sep),
{
    let v = chars_of(s);
    let mut m: Vec<char> = Vec::new();
    let mut i: usize = 0;
    while i < v.len()
        invariant
            i <= v.len(),
            m@ == mark_upper(v@.take(i as int), sep),
        decreases v.len() - i,
    {
        let c = v[i];
        let ghost t = v@.take(i + 1);
        assert(t.drop_last() =~= v@.take(i as int));
        assert(t.last() == c);
        let ghost before = m@;
        if char_is_uppercase(c) && i > 0 {
            m.push(sep);
        }
        let l = char_to_lowercase(c);
        let lc = chars_of(l.as_str());
        m.push(lc[0]);
        assert(m@ =~= before + (if is_upper(c) && t.len() > 1 {
            seq![sep]
        } else {
            Seq::empty()
        }) + char_lower(c).take(1));
        i = i + 1;
    }
    assert(v@.take(v.len() as int) =~= v@);
    let parts = runs_of(m.as_slice(), RunKind::NonSpace);
    let sep_s = string_of(&[sep]);
    assert(sep_s@ =~= seq![sep]);
    join_chars(parts.as_slice(), sep_s.as_str())
}

/// The `snakecase` filter.
pub fn snakecase_filter(s: &str) -> (r: String)
    ensures
        r@ == separated(s@, '_'),
{
    separated_exec(s, '_')
}

/// The `kebabcase` filter.
pub fn kebabcase_filter(s: &str) -> (r: String)
    ensures
        r@ == separated(s@, '-'),
{
    separated_exec(s, '-')
}

/// The `uppercase` filter.
pub fn uppercase_filter(s: &str) -> (r: String)
    ensures
        r@ == upper(s@),
{
    str_to_uppercase(s)
}

/// The `lowercase` filter.
pub fn lowercase_filter(s: &str) -> (r: String)
    ensures
        r@ == lower(s@),
{
    str_to_lowercase(s)
}

/// The `capitalize` filter.
pub fn capitalize_filter(s: &str) -> (r: String)
    ensures
        r@ == cap_word(s@),
{
    let v = chars_of(s);
    cap_word_exec(v.as_slice())
}

// ---------------------------------------------------------------------------
// plural and singular
// ---------------------------------------------------------------------------

/// The ASCII vowels, either case.
pub open spec fn vowel(c: char) -> bool {
    c == 'a' || c == 'e' || c == 'i' || c == 'o' || c == 'u' || c == 'A' || c == 'E' || c == 'I'
        || c == 'O' || c == 'U'
}

pub fn is_vowel(c: char) -> (r: bool)
    ensures
        r == vowel(c),
{
    c == 'a' || c == 'e' || c == 'i' || c == 'o' || c == 'u' || c == 'A' || c == 'E' || c == 'I'
        || c == 'O' || c == 'U'
}

/// The number of bytes a character takes in UTF-8.
pub open spec fn utf8_width(c: char) -> nat {
    if (c as u32) < 0x80 {
        1
    } else if (c as u32) < 0x800 {
        2
    } else if (c as u32) < 0x10000 {
        3
    } else {
        4
    }
}

/// The number of bytes a string takes in UTF-8 (`str::len`).
pub open spec fn utf8_len(s: Seq<char>) -> nat
    decreases s.len(),
{
    if s.len() == 0 {
        0
    } else {
        utf8_len(s.drop_last()) + utf8_width(s.last())
    }
}

/// The plural of a word: `es` after a sibilant ending, `ies` for a `y` after
/// a consonant, otherwise `s`.  The consonant test looks at the character
/// whose position is the string's byte length less two, and counts a
/// missing one as a vowel.
pub open spec fn plural(s: Seq<char>) -> Seq<char> {
    if ends_with_spec(s, "s"@) || ends_with_spec(s, "x"@) || ends_with_spec(s, "z"@)
        || ends_with_spec(s, "ch"@) || ends_with_spec(s, "sh"@) {
        s + "es"@
    } else if ends_with_spec(s, "y"@) && utf8_len(s) > 1 && !vowel(
        if 0 <= utf8_len(s) - 2 < s.len() {
            s[utf8_len(s) - 2]
        } else {
            'a'
        },
    ) {
        s.drop_last() + "ies"@
    } else {
        s + "s"@
    }
}

proof fn lemma_ends_one(s: Seq<char>, p: Seq<char>)
    requires
        p.len() == 1,
    ensures
        ends_with_spec(s, p) <==> (s.len() >= 1 && s.last() == p[0]),
{
    if s.len() >= 1 {
        let n = s.len() as int;
        if s.last() == p[0] {
            assert(s.subrange(n - 1, n) =~= p);
        }
        if ends_with_spec(s, p) {
            assert(s.subrange(n - 1, n)[0] == s.last());
        }
    }
}

proof fn lemma_ends_two(s: Seq<char>, p: Seq<char>)
    requires
        p.len() == 2,
    ensures
        ends_with_spec(s, p) <==> (s.len() >= 2 && s[s.len() - 2] == p[0] && s.last() == p[1]),
{
    if s.len() >= 2 {
        let n = s.len() as int;
        if s[n - 2] == p[0] && s.last() == p[1] {
            assert(s.subrange(n - 2, n) =~= p);
        }
        if ends_with_spec(s, p) {
            assert(s.subrange(n - 2, n)[0] == s[n - 2]);
            assert(s.subrange(n - 2, n)[1] == s.last());
        }
    }
}

/// The facts about the endings `plural` looks at, by character.
proof fn lemma_plural_endings(s: Seq<char>)
    ensures
        ends_with_spec(s, "s"@) <==> (s.len() >= 1 && s.last() == 's'),
        ends_with_spec(s, "x"@) <==> (s.len() >= 1 && s.last() == 'x'),
        ends_with_spec(s, "z"@) <==> (s.len() >= 1 && s.last() == 'z'),
        ends_with_spec(s, "y"@) <==> (s.len() >= 1 && s.last() == 'y'),
        ends_with_spec(s, "ch"@) <==> (s.len() >= 2 && s[s.len() - 2] == 'c' && s.last() == 'h'),
        ends_with_spec(s, "sh"@) <==> (s.len() >= 2 && s[s.len() - 2] == 's' && s.last() == 'h'),
        "es"@ == seq!['e', 's'],
        "ies"@ == seq!['i', 'e', 's'],
        "s"@ == seq!['s'],
{
    reveal_strlit("s");
    reveal_strlit("x");
    reveal_strlit("z");
    reveal_strlit("y");
    reveal_strlit("ch");
    reveal_strlit("sh");
    reveal_strlit("es");
    reveal_strlit("ies");
    lemma_ends_one(s, "s"@);
    lemma_ends_one(s, "x"@);
    lemma_ends_one(s, "z"@);
    lemma_ends_one(s, "y"@);
    lemma_ends_two(s, "ch"@);
    lemma_ends_two(s, "sh"@);
    assert("es"@ =~= seq!['e', 's']);
    assert("ies"@ =~= seq!['i', 'e', 's']);
    assert("s"@ =~= seq!['s']);
}

/// A word ending in `s`, `x`, `z`, `ch` or `sh` pluralizes to the word
/// followed by `es`.
pub proof fn lemma_plural_sibilant(s: Seq<char>)
    requires
        s.len() >= 1,
        s.last() == 's' || s.last() == 'x' || s.last() == 'z' || (s.len() >= 2 && s.last() == 'h' && (
        s[s.len() - 2] == 'c' || s[s.len() - 2] == 's')),
    ensures
        plural(s) == s + seq!['e', 's'],
{
    lemma_plural_endings(s);
}

proof fn lemma_utf8_len_ascii(s: Seq<char>)
    requires
        forall|i: int| 0 <= i < s.len() ==> (s[i] as u32) < 0x80,
    ensures
        utf8_len(s) == s.len(),
    decreases s.len(),
{
    if s.len() > 0 {
        lemma_utf8_len_ascii(s.drop_last());
        assert((s.last() as u32) < 0x80);
    }
}

/// An ASCII word ending in `y` pluralizes to `ies` in place of the `y` when
/// a consonant comes before the `y`, and to the word followed by `s` when a
/// vowel does.
pub proof fn lemma_plural_y(s: Seq<char>)
    requires
        s.len() >= 2,
        s.last() == 'y',
        forall|i: int| 0 <= i < s.len() ==> (s[i] as u32) < 0x80,
    ensures
        !vowel(s[s.len() - 2]) ==> plural(s) == s.drop_last() + seq!['i', 'e', 's'],
        vowel(s[s.len() - 2]) ==> plural(s) == s + seq!['s'],
{
    lemma_plural_endings(s);
    lemma_utf8_len_ascii(s);
}

/// A word whose last letter is none of `s`, `x`, `z`, `h` and `y`
/// pluralizes to the word followed by `s`.
pub proof fn lemma_plural_plain(s: Seq<char>)
    requires
        s.len() >= 1,
        s.last() != 's' && s.last() != 'x' && s.last() != 'z' && s.last() != 'h' && s.last() != 'y',
    ensures
        plural(s) == s + seq!['s'],
{
    lemma_plural_endings(s);
}

/// The singular of a word: `ies` becomes `y`; a final `es` or `s` goes
/// unless the word ends in `ss`.
pub open spec fn singular(s: Seq<char>) -> Seq<char> {
    if ends_with_spec(s, "ies"@) {
        s.take(s.len() - 3) + "y"@
    } else if ends_with_spec(s, "es"@) {
        if !ends_with_spec(s, "ss"@) {
            s.take(s.len() - 2)
        } else {
            s
        }
    } else if ends_with_spec(s, "s"@) {
        if !ends_with_spec(s, "ss"@) {
            s.take(s.len() - 1)
        } else {
            s
        }
    } else {
        s
    }
}

proof fn lemma_ends_three(s: Seq<char>, p: Seq<char>)
    requires
        p.len() == 3,
    ensures
        ends_with_spec(s, p) <==> (s.len() >= 3 && s[s.len() - 3] == p[0] && s[s.len() - 2] == p[1]
            && s.last() == p[2]),
{
    if s.len() >= 3 {
        let n = s.len() as int;
        if s[n - 3] == p[0] && s[n - 2] == p[1] && s.last() == p[2] {
            assert(s.subrange(n - 3, n) =~= p);
        }
        if ends_with_spec(s, p) {
            assert(s.subrange(n - 3, n)[0] == s[n - 3]);
            assert(s.subrange(n - 3, n)[1] == s[n - 2]);
            assert(s.subrange(n - 3, n)[2] == s.last());
        }
    }
}

/// The singular of a word: `ies` at the end becomes `y`; otherwise a final
/// `es` or `s` is dropped, except after another `s`; a word not ending in
/// `s` is its own singular.
pub proof fn lemma_singular(s: Seq<char>)
    ensures
        s.len() >= 3 && s[s.len() - 3] == 'i' && s[s.len() - 2] == 'e' && s.last() == 's' ==> singular(s)
            == s.take(s.len() - 3) + seq!['y'],
        s.len() >= 2 && s[s.len() - 2] == 'e' && s.last() == 's' && !(s.len() >= 3 && s[s.len() - 3]
            == 'i') ==> singular(s) == s.take(s.len() - 2),
        s.len() >= 1 && s.last() == 's' && !(s.len() >= 2 && (s[s.len() - 2] == 'e' || s[s.len() - 2]
            == 's')) ==> singular(s) == s.take(s.len() - 1),
        s.len() >= 2 && s[s.len() - 2] == 's' && s.last() == 's' ==> singular(s) == s,
        !(s.len() >= 1 && s.last() == 's') ==> singular(s) == s,
{
    reveal_strlit("ies");
    reveal_strlit("es");
    reveal_strlit("ss");
    reveal_strlit("s");
    reveal_strlit("y");
    lemma_ends_three(s, "ies"@);
    lemma_ends_two(s, "es"@);
    lemma_ends_two(s, "ss"@);
    lemma_ends_one(s, "s"@);
    assert("y"@ =~= seq!['y']);
}

fn utf8_width_exec(c: char) -> (r: u128)
    ensures
        r == utf8_width(c),
{
    if (c as u32) < 0x80 {
        1
    } else if (c as u32) < 0x800 {
        2
    } else if (c as u32) < 0x10000 {
        3
    } else {
        4
    }
}

proof fn lemma_utf8_len_bound(s: Seq<char>)
    ensures
        utf8_len(s) <= 4 * s.len(),
    decreases s.len(),
{
    if s.len() > 0 {
        lemma_utf8_len_bound(s.drop_last());
    }
}

/// The `pluralize` filter.
pub fn pluralize_filter(s: &str) -> (r: String)
    ensures
        r@ == plural(s@),
{
    let v = chars_of(s);
    let ends = |p: &str| -> (b: bool)
        ensures
            b == ends_with_spec(v@, p@),
        { crate::text::ends_with_chars(v.as_slice(), chars_of(p).as_slice()) };
    if ends("s") || ends("x") || ends("z") || ends("ch") || ends("sh") {
        let mut r = owned(s);
        push_str(&mut r, "es");
        return r;
    }
    let mut n: u128 = 0;
    let mut i: usize = 0;
    proof {
        lemma_utf8_len_bound(v@);
    }
    while i < v.len()
        invariant
            i <= v.len(),
            n == utf8_len(v@.take(i as int)),
            n <= 4 * i,
        decreases v.len() - i,
    {
        proof {
            lemma_utf8_len_bound(v@.take(i + 1));
            assert(v@.take(i + 1).drop_last() =~= v@.take(i as int));
        }
        n = n + utf8_width_exec(v[i]);
        i = i + 1;
    }
    assert(v@.take(v.len() as int) =~= v@);
    if ends("y") && n > 1 {
        let k = n - 2;
        let c = if k < v.len() as u128 {
            v[k as usize]
        } else {
            'a'
        };
        if !is_vowel(c) {
            let mut r = crate::text::string_of_range(v.as_slice(), 0, v.len() - 1);
            push_str(&mut r, "ies");
            assert(v@.subrange(0, v.len() - 1) =~= v@.drop_last());
            return r;
        }
    }
    let mut r = owned(s);
    push_str(&mut r, "s");
    r
}

/// The `singularize` filter.
pub fn singularize_filter(s: &str) -> (r: String)
    ensures
        r@ == singular(s@),
{
    let v = chars_of(s);
    let n = v.len();
    let ends = |p: &str| -> (b: bool)
        ensures
            b == ends_with_spec(v@, p@),
        { crate::text::ends_with_chars(v.as_slice(), chars_of(p).as_slice()) };
    if ends("ies") {
        proof {
            reveal_strlit("ies");
        }
        let mut r = crate::text::string_of_range(v.as_slice(), 0, n - 3);
        push_str(&mut r, "y");
        assert(v@.subrange(0, n - 3) =~= v@.take(n - 3));
        r
    } else if ends("es") {
        proof {
            reveal_strlit("es");
        }
        if !ends("ss") {
            assert(v@.subrange(0, n - 2) =~= v@.take(n - 2));
            crate::text::string_of_range(v.as_slice(), 0, n - 2)
        } else {
            owned(s)
        }
    } else if ends("s") {
        proof {
            reveal_strlit("s");
        }
        if !ends("ss") {
            assert(v@.subrange(0, n - 1) =~= v@.take(n - 1));
            crate::text::string_of_range(v.as_slice(), 0, n - 1)
        } else {
            owned(s)
        }
    } else {
        owned(s)
    }
}

} // verus!
