//! Case conversion: words are split on `_`, `-`, spaces and case boundaries,
//! then rejoined in the target convention.
use crate::text::{chars_of, join_spec, join_strings, push_str, string_of, views};
use vstd::prelude::*;
use vstd::string::*;

verus! {

// ---------------------------------------------------------------------------
// Unicode case, as std computes it
// ---------------------------------------------------------------------------

/// Whether std gives `c` the Unicode `Uppercase` property.
pub uninterp spec fn is_upper(c: char) -> bool;

/// Whether std gives `c` the Unicode `Lowercase` property.
pub uninterp spec fn is_lower(c: char) -> bool;

/// The lowercase mapping std gives a whole string.
pub uninterp spec fn lower(s: Seq<char>) -> Seq<char>;

/// The uppercase mapping std gives a whole string.
pub uninterp spec fn upper(s: Seq<char>) -> Seq<char>;

/// The characters std's uppercase mapping gives one character.
pub uninterp spec fn char_upper(c: char) -> Seq<char>;

/// `char::is_uppercase`; the Unicode tables are named, not restated.
#[verifier::external_body]
pub(crate) fn char_is_uppercase(c: char) -> (r: bool)
    ensures
        r == is_upper(c),
{
    c.is_uppercase()
}

/// `char::is_lowercase`; the Unicode tables are named, not restated.
#[verifier::external_body]
pub(crate) fn char_is_lowercase(c: char) -> (r: bool)
    ensures
        r == is_lower(c),
{
    c.is_lowercase()
}

/// `str::to_lowercase`; the Unicode mapping is named, not restated.
#[verifier::external_body]
pub(crate) fn str_to_lowercase(s: &str) -> (r: String)
    ensures
        r@ == lower(s@),
{
    s.to_lowercase()
}

/// `str::to_uppercase`; the Unicode mapping is named, not restated.
#[verifier::external_body]
pub(crate) fn str_to_uppercase(s: &str) -> (r: String)
    ensures
        r@ == upper(s@),
{
    s.to_uppercase()
}

/// `char::to_uppercase`, collected into a string; the mapping is named.
/// std documents that the mapping yields one or more characters.
#[verifier::external_body]
pub(crate) fn char_to_uppercase(c: char) -> (r: String)
    ensures
        r@ == char_upper(c),
        r@.len() >= 1,
{
    c.to_uppercase().collect::<String>()
}

/// The characters std's lowercase mapping gives one character.
pub uninterp spec fn char_lower(c: char) -> Seq<char>;

/// `char::to_lowercase`, collected into a string; the mapping is named.
/// std documents that the mapping yields one or more characters.
#[verifier::external_body]
pub(crate) fn char_to_lowercase(c: char) -> (r: String)
    ensures
        r@ == char_lower(c),
        r@.len() >= 1,
{
    c.to_lowercase().collect::<String>()
}

/// Whether std counts `c` as alphanumeric (Unicode `Alphabetic` or
/// `Numeric`).
pub uninterp spec fn is_alnum(c: char) -> bool;

/// `char::is_alphanumeric`; the Unicode tables are named, not restated.
#[verifier::external_body]
pub(crate) fn char_is_alphanumeric(c: char) -> (r: bool)
    ensures
        r == is_alnum(c),
{
    c.is_alphanumeric()
}

// ---------------------------------------------------------------------------
// splitting into words
// ---------------------------------------------------------------------------

/// `_`, `-` and space separate words.
pub open spec fn is_sep(c: char) -> bool {
    c == '_' || c == '-' || c == ' '
}

/// An uppercase character at `i` starts a new word when it follows a
/// lowercase one, or ends an acronym (uppercase before, lowercase after).
pub open spec fn starts_word(s: Seq<char>, i: int) -> bool {
    let prev_lower = i > 0 && is_lower(s[i - 1]);
    let next_lower = i + 1 < s.len() && is_lower(s[i + 1]);
    let acronym_end = i > 0 && is_upper(s[i - 1]) && next_lower;
    prev_lower || acronym_end
}

/// The words found in `s.take(k)` and the word still being read.
pub open spec fn split_state(s: Seq<char>, k: int) -> (Seq<Seq<char>>, Seq<char>)
    decreases k,
{
    if k <= 0 {
        (Seq::empty(), Seq::empty())
    } else {
        let (words, cur) = split_state(s, k - 1);
        let i = k - 1;
        let c = s[i];
        if is_sep(c) {
            if cur.len() > 0 {
                (words.push(cur), Seq::empty())
            } else {
                (words, cur)
            }
        } else if is_upper(c) && cur.len() > 0 && starts_word(s, i) {
            (words.push(cur), seq![c])
        } else {
            (words, cur.push(c))
        }
    }
}

/// The words of `s`.
pub open spec fn split_spec(s: Seq<char>) -> Seq<Seq<char>> {
    let (words, cur) = split_state(s, s.len() as int);
    if cur.len() > 0 {
        words.push(cur)
    } else {
        words
    }
}

/// The words of `s`, each lowercased.
pub open spec fn lower_words(s: Seq<char>) -> Seq<Seq<char>> {
    split_spec(s).map_values(|w: Seq<char>| lower(w))
}

/// Split a string into lowercase words by separators and case boundaries.
pub fn split_words(s: &str) -> (r: Vec<String>)
    ensures
        views(r@) == lower_words(s@),
{
    let words = split_cased(s);
    let ghost ws = split_spec(s@);
    let mut r: Vec<String> = Vec::new();
    let mut i: usize = 0;
    while i < words.len()
        invariant
            i <= words@.len(),
            views(words@) == ws,
            views(r@) == ws.take(i as int).map_values(|w: Seq<char>| lower(w)),
        decreases words.len() - i,
    {
        let ghost prev = r@;
        let w = str_to_lowercase(words[i].as_str());
        r.push(w);
        assert(views(r@) =~= views(prev).push(w@));
        assert(ws.take(i + 1).map_values(|w: Seq<char>| lower(w)) =~= ws.take(i as int).map_values(
            |w: Seq<char>| lower(w),
        ).push(lower(ws[i as int])));
        i = i + 1;
    }
    assert(ws.take(words.len() as int) =~= ws);
    r
}

/// The words of a string by separators and case boundaries, each in the
/// case it has in the string.
fn split_cased(s: &str) -> (r: Vec<String>)
    ensures
        views(r@) == split_spec(s@),
{
    let chars = chars_of(s);
    let n = chars.len();
    let mut words: Vec<String> = Vec::new();
    let mut cur: Vec<char> = Vec::new();
    let mut i: usize = 0;
    while i < n
        invariant
            n == chars@.len(),
            chars@ == s@,
            i <= n,
            (views(words@), cur@) == split_state(s@, i as int),
        decreases n - i,
    {
        let c = chars[i];
        let ghost prev_words = words@;
        if c == '_' || c == '-' || c == ' ' {
            if cur.len() > 0 {
                let w = string_of(cur.as_slice());
                words.push(w);
                assert(words@ == prev_words.push(w));
                assert(views(words@) =~= views(prev_words).push(w@));
                cur = Vec::new();
            }
        } else if char_is_uppercase(c) {
            let prev_lower = i > 0 && char_is_lowercase(chars[i - 1]);
            let next_lower = i + 1 < n && char_is_lowercase(chars[i + 1]);
            let acronym_end = i > 0 && char_is_uppercase(chars[i - 1]) && next_lower;
            if cur.len() > 0 && (prev_lower || acronym_end) {
                let w = string_of(cur.as_slice());
                words.push(w);
                assert(words@ == prev_words.push(w));
                assert(views(words@) =~= views(prev_words).push(w@));
                cur = Vec::new();
                cur.push(c);
                assert(cur@ =~= seq![c]);
            } else {
                cur.push(c);
            }
        } else {
            cur.push(c);
        }
        i = i + 1;
    }
    if cur.len() > 0 {
        let ghost prev_words = words@;
        let w = string_of(cur.as_slice());
        words.push(w);
        assert(words@ == prev_words.push(w));
        assert(views(words@) =~= views(prev_words).push(w@));
    }
    words
}


// ---------------------------------------------------------------------------
// conversions
// ---------------------------------------------------------------------------

/// The first character uppercased, the rest lowercased.
pub open spec fn capitalize_spec(w: Seq<char>) -> Seq<char> {
    if w.len() == 0 {
        Seq::empty()
    } else {
        char_upper(w[0]) + lower(w.skip(1))
    }
}

/// Uppercase the first character of `s` and lowercase the rest.
pub fn capitalize(s: &str) -> (r: String)
    ensures
        r@ == capitalize_spec(s@),
{
    let chars = chars_of(s);
    if chars.len() == 0 {
        return String::new();
    }
    let mut r = char_to_uppercase(chars[0]);
    let rest = crate::text::string_of_range(chars.as_slice(), 1, chars.len());
    assert(chars@.subrange(1, chars@.len() as int) =~= s@.skip(1));
    let low = str_to_lowercase(rest.as_str());
    push_str(&mut r, low.as_str());
    r
}

/// `camelCase`: the first word lowercased, every later one capitalized.
pub open spec fn camel_spec(s: Seq<char>) -> Seq<char> {
    let ws = split_spec(s);
    join_spec(
        Seq::new(
            ws.len(),
            |i: int|
                if i == 0 {
                    lower(ws[i])
                } else {
                    capitalize_spec(ws[i])
                },
        ),
        ""@,
    )
}

/// `PascalCase`: every word capitalized.
pub open spec fn pascal_spec(s: Seq<char>) -> Seq<char> {
    let ws = split_spec(s);
    join_spec(Seq::new(ws.len(), |i: int| capitalize_spec(ws[i])), ""@)
}

/// The words lowercased and joined by `sep`.
pub open spec fn lower_joined(s: Seq<char>, sep: Seq<char>) -> Seq<char> {
    let ws = split_spec(s);
    join_spec(Seq::new(ws.len(), |i: int| lower(ws[i])), sep)
}

/// The words uppercased and joined by `_`.
pub open spec fn screaming_spec(s: Seq<char>) -> Seq<char> {
    let ws = split_spec(s);
    join_spec(Seq::new(ws.len(), |i: int| upper(ws[i])), "_"@)
}

/// How each word is rewritten.
enum WordStyle {
    Lower,
    Upper,
    Capital,
    CamelStart,
}

/// The rewriting of word `i` of `ws` in a style.
spec fn styled(style: WordStyle, ws: Seq<Seq<char>>, i: int) -> Seq<char> {
    match style {
        WordStyle::Lower => lower(ws[i]),
        WordStyle::Upper => upper(ws[i]),
        WordStyle::Capital => capitalize_spec(ws[i]),
        WordStyle::CamelStart => if i == 0 {
            lower(ws[i])
        } else {
            capitalize_spec(ws[i])
        },
    }
}

/// Split, rewrite each word in `style`, rejoin with `sep`.
fn convert(s: &str, style: WordStyle, sep: &str) -> (r: String)
    ensures
        ({
            let ws = split_spec(s@);
            r@ == join_spec(Seq::new(ws.len(), |i: int| styled(style, ws, i)), sep@)
        }),
{
    let words = split_cased(s);
    let ghost ws = split_spec(s@);
    let ghost target = Seq::new(ws.len(), |i: int| styled(style, ws, i));
    let mut parts: Vec<String> = Vec::new();
    let mut i: usize = 0;
    while i < words.len()
        invariant
            i <= words@.len(),
            views(words@) == ws,
            ws.len() == words@.len(),
            target == Seq::new(ws.len(), |i: int| styled(style, ws, i)),
            views(parts@) == target.take(i as int),
        decreases words.len() - i,
    {
        let w = words[i].as_str();
        assert(w@ == ws[i as int]);
        let p = match style {
            WordStyle::Lower => str_to_lowercase(w),
            WordStyle::Upper => str_to_uppercase(w),
            WordStyle::Capital => capitalize(w),
            WordStyle::CamelStart => if i == 0 {
                str_to_lowercase(w)
            } else {
                capitalize(w)
            },
        };
        assert(p@ == target[i as int]);
        let ghost prev = parts@;
        parts.push(p);
        assert(parts@ == prev.push(p));
        assert(views(parts@) =~= views(prev).push(p@));
        assert(target.take(i + 1) =~= target.take(i as int).push(p@));
        i = i + 1;
    }
    assert(target.take(i as int) =~= target);
    join_strings(parts.as_slice(), sep)
}

/// Convert a string to `camelCase`.
pub fn to_camel_case(s: &str) -> (r: String)
    ensures
        r@ == camel_spec(s@),
{
    let r = convert(s, WordStyle::CamelStart, "");
    let ghost ws = split_spec(s@);
    assert(Seq::new(ws.len(), |i: int| styled(WordStyle::CamelStart, ws, i)) =~= Seq::new(
        ws.len(),
        |i: int|
            if i == 0 {
                lower(ws[i])
            } else {
                capitalize_spec(ws[i])
            },
    ));
    r
}

/// Convert a string to `PascalCase`.
pub fn to_pascal_case(s: &str) -> (r: String)
    ensures
        r@ == pascal_spec(s@),
{
    let r = convert(s, WordStyle::Capital, "");
    let ghost ws = split_spec(s@);
    assert(Seq::new(ws.len(), |i: int| styled(WordStyle::Capital, ws, i)) =~= Seq::new(
        ws.len(),
        |i: int| capitalize_spec(ws[i]),
    ));
    r
}

/// Convert a string to `snake_case`.
pub fn to_snake_case(s: &str) -> (r: String)
    ensures
        r@ == lower_joined(s@, "_"@),
{
    let r = convert(s, WordStyle::Lower, "_");
    let ghost ws = split_spec(s@);
    assert(Seq::new(ws.len(), |i: int| styled(WordStyle::Lower, ws, i)) =~= Seq::new(
        ws.len(),
        |i: int| lower(ws[i]),
    ));
    r
}

/// Convert a string to `kebab-case`.
pub fn to_kebab_case(s: &str) -> (r: String)
    ensures
        r@ == lower_joined(s@, "-"@),
{
    let r = convert(s, WordStyle::Lower, "-");
    let ghost ws = split_spec(s@);
    assert(Seq::new(ws.len(), |i: int| styled(WordStyle::Lower, ws, i)) =~= Seq::new(
        ws.len(),
        |i: int| lower(ws[i]),
    ));
    r
}

/// Convert a string to `SCREAMING_SNAKE_CASE`.
pub fn to_screaming_snake(s: &str) -> (r: String)
    ensures
        r@ == screaming_spec(s@),
{
    let r = convert(s, WordStyle::Upper, "_");
    let ghost ws = split_spec(s@);
    assert(Seq::new(ws.len(), |i: int| styled(WordStyle::Upper, ws, i)) =~= Seq::new(
        ws.len(),
        |i: int| upper(ws[i]),
    ));
    r
}


// ---------------------------------------------------------------------------
// laws
// ---------------------------------------------------------------------------

/// `s` without its separators.
pub open spec fn strip_seps(s: Seq<char>) -> Seq<char>
    decreases s.len(),
{
    if s.len() == 0 {
        Seq::empty()
    } else if is_sep(s.last()) {
        strip_seps(s.drop_last())
    } else {
        strip_seps(s.drop_last()).push(s.last())
    }
}

/// The words one after another.
pub open spec fn concat_all(ws: Seq<Seq<char>>) -> Seq<char>
    decreases ws.len(),
{
    if ws.len() == 0 {
        Seq::empty()
    } else {
        concat_all(ws.drop_last()) + ws.last()
    }
}

/// No separator occurs in `w`.
pub open spec fn sep_free(w: Seq<char>) -> bool {
    forall|j: int| 0 <= j < w.len() ==> !is_sep(#[trigger] w[j])
}

proof fn lemma_split_state(s: Seq<char>, k: int)
    requires
        0 <= k <= s.len(),
    ensures
        ({
            let (ws, cur) = split_state(s, k);
            &&& concat_all(ws) + cur == strip_seps(s.take(k))
            &&& forall|i: int| 0 <= i < ws.len() ==> (#[trigger] ws[i]).len() > 0 && sep_free(ws[i])
            &&& sep_free(cur)
        }),
    decreases k,
{
    if k == 0 {
        assert(s.take(0) =~= Seq::<char>::empty());
        assert(concat_all(Seq::<Seq<char>>::empty()) + Seq::<char>::empty() =~= Seq::<char>::empty());
    } else {
        lemma_split_state(s, k - 1);
        let (ws, cur) = split_state(s, k - 1);
        let c = s[k - 1];
        assert(s.take(k).drop_last() =~= s.take(k - 1));
        assert(s.take(k).last() == c);
        if is_sep(c) {
            if cur.len() > 0 {
                assert(ws.push(cur).drop_last() =~= ws);
                assert(concat_all(ws.push(cur)) + Seq::<char>::empty() =~= concat_all(ws) + cur);
            }
        } else if is_upper(c) && cur.len() > 0 && starts_word(s, k - 1) {
            assert(ws.push(cur).drop_last() =~= ws);
            assert(concat_all(ws.push(cur)) + seq![c] =~= (concat_all(ws) + cur).push(c));
        } else {
            assert(concat_all(ws) + cur.push(c) =~= (concat_all(ws) + cur).push(c));
        }
    }
}

/// Splitting loses only the separators: the words, in the case they have in
/// the input and read one after another, are the input without `_`, `-` and
/// spaces; no word is empty and none holds a separator; `split_words` gives
/// each of them lowercased.
pub proof fn lemma_split_words(s: Seq<char>)
    ensures
        concat_all(split_spec(s)) == strip_seps(s),
        lower_words(s).len() == split_spec(s).len(),
        forall|i: int| 0 <= i < split_spec(s).len() ==> #[trigger] lower_words(s)[i] == lower(split_spec(s)[i]),
        forall|i: int|
            0 <= i < split_spec(s).len() ==> (#[trigger] split_spec(s)[i]).len() > 0 && sep_free(
                split_spec(s)[i],
            ),
{
    lemma_split_state(s, s.len() as int);
    assert(s.take(s.len() as int) =~= s);
    let (ws, cur) = split_state(s, s.len() as int);
    if cur.len() > 0 {
        assert(ws.push(cur).drop_last() =~= ws);
    } else {
        assert(concat_all(ws) + cur =~= concat_all(ws));
    }
}

/// A string made only of separators has no words.
pub proof fn lemma_separators_only(s: Seq<char>)
    requires
        forall|j: int| 0 <= j < s.len() ==> is_sep(#[trigger] s[j]),
    ensures
        split_spec(s).len() == 0,
{
    lemma_split_words(s);
    lemma_strip_all_seps(s);
    if split_spec(s).len() > 0 {
        lemma_concat_len(split_spec(s));
    }
}

proof fn lemma_strip_all_seps(s: Seq<char>)
    requires
        forall|j: int| 0 <= j < s.len() ==> is_sep(#[trigger] s[j]),
    ensures
        strip_seps(s).len() == 0,
    decreases s.len(),
{
    if s.len() > 0 {
        assert(is_sep(s[s.len() - 1]));
        lemma_strip_all_seps(s.drop_last());
    }
}

proof fn lemma_concat_len(ws: Seq<Seq<char>>)
    requires
        ws.len() > 0,
        ws.last().len() > 0,
    ensures
        concat_all(ws).len() > 0,
{
}

} // verus!
