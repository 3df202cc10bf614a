//! JSON values as the pipeline passes them between steps.
//!
//! A value is held as plain data; its model is a `JsonView`, in which an
//! object is a map from keys to values (the first entry of a key wins, and
//! the order of entries does not matter: objects print with sorted keys).
//! Numbers are held as the three kinds JSON text distinguishes: integers
//! from zero up, negative integers, and other numbers by their text.
use crate::text::{owned, same_text};
use vstd::prelude::*;

verus! {

/// A JSON value.
#[derive(Debug)]
pub enum Json {
    Null,
    Bool(bool),
    PosInt(u64),
    NegInt(i64),
    Float(String),
    Str(String),
    Array(Vec<Json>),
    Object(Vec<(String, Json)>),
}

/// The mathematical model of a JSON value.
pub enum JsonView {
    Null,
    Bool(bool),
    PosInt(u64),
    NegInt(i64),
    Float(Seq<char>),
    Str(Seq<char>),
    Array(Seq<JsonView>),
    Object(Map<Seq<char>, JsonView>),
}

/// The model of a value.
pub open spec fn json_view(j: Json) -> JsonView
    decreases j,
{
    match j {
        Json::Null => JsonView::Null,
        Json::Bool(b) => JsonView::Bool(b),
        Json::PosInt(n) => JsonView::PosInt(n),
        Json::NegInt(n) => JsonView::NegInt(n),
        Json::Float(t) => JsonView::Float(t@),
        Json::Str(s) => JsonView::Str(s@),
        Json::Array(items) => JsonView::Array(json_views(items@)),
        Json::Object(entries) => JsonView::Object(entries_map(entries@)),
    }
}

/// The models of a sequence of values.
pub open spec fn json_views(s: Seq<Json>) -> Seq<JsonView>
    decreases s,
{
    if s.len() == 0 {
        Seq::empty()
    } else {
        seq![json_view(s[0])] + json_views(s.subrange(1, s.len() as int))
    }
}

/// The map of a sequence of entries; of two entries with one key, the first
/// is the one kept.
pub open spec fn entries_map(s: Seq<(String, Json)>) -> Map<Seq<char>, JsonView>
    decreases s,
{
    if s.len() == 0 {
        Map::empty()
    } else {
        entries_map(s.subrange(1, s.len() as int)).insert(s[0].0@, json_view(s[0].1))
    }
}

impl View for Json {
    type V = JsonView;

    open spec fn view(&self) -> JsonView {
        json_view(*self)
    }
}

/// The value under `key`, if the value is an object that has one
/// (`serde_json::Value::get` with a string).
pub open spec fn get_key(v: JsonView, key: Seq<char>) -> Option<JsonView> {
    match v {
        JsonView::Object(m) => if m.contains_key(key) {
            Some(m[key])
        } else {
            None
        },
        _ => None,
    }
}

/// The element at `n`, if the value is an array that long
/// (`serde_json::Value::get` with an index).
pub open spec fn get_index(v: JsonView, n: int) -> Option<JsonView> {
    match v {
        JsonView::Array(items) => if 0 <= n < items.len() {
            Some(items[n])
        } else {
            None
        },
        _ => None,
    }
}

/// The model of an integer as `serde_json` stores it.
pub open spec fn int_view(n: i64) -> JsonView {
    if n >= 0 {
        JsonView::PosInt(n as u64)
    } else {
        JsonView::NegInt(n)
    }
}

pub proof fn lemma_views_len(s: Seq<Json>)
    ensures
        json_views(s).len() == s.len(),
    decreases s.len(),
{
    if s.len() > 0 {
        lemma_views_len(s.subrange(1, s.len() as int));
    }
}

/// The model of each element: `json_views` lines up with the sequence.
pub proof fn lemma_views_index(s: Seq<Json>, i: int)
    requires
        0 <= i < s.len(),
    ensures
        json_views(s).len() == s.len(),
        json_views(s)[i] == json_view(s[i]),
    decreases i,
{
    lemma_views_len(s);
    if i > 0 {
        let t = s.subrange(1, s.len() as int);
        lemma_views_index(t, i - 1);
        assert(t[i - 1] == s[i]);
    }
}

/// Appending a value appends its model.
pub proof fn lemma_views_push(s: Seq<Json>, x: Json)
    ensures
        json_views(s.push(x)) == json_views(s).push(json_view(x)),
    decreases s.len(),
{
    let t = s.push(x);
    assert(t[0] == if s.len() == 0 { x } else { s[0] });
    if s.len() == 0 {
        assert(t.subrange(1, t.len() as int) =~= Seq::<Json>::empty());
        assert(json_views(t.subrange(1, t.len() as int)) == Seq::<JsonView>::empty());
        assert(json_views(t) =~= seq![json_view(x)]);
        assert(json_views(s) == Seq::<JsonView>::empty());
    } else {
        let s1 = s.subrange(1, s.len() as int);
        assert(t.subrange(1, t.len() as int) =~= s1.push(x));
        lemma_views_push(s1, x);
        assert(json_views(t) == seq![json_view(s[0])] + json_views(s1.push(x)));
        assert(json_views(s) == seq![json_view(s[0])] + json_views(s1));
        assert(json_views(t) =~= json_views(s).push(json_view(x)));
    }
}

/// The entry found first for a key is the one the map keeps.
proof fn lemma_entries_first(s: Seq<(String, Json)>, key: Seq<char>, i: int)
    requires
        0 <= i < s.len(),
        s[i].0@ == key,
        forall|j: int| 0 <= j < i ==> s[j].0@ != key,
    ensures
        entries_map(s).contains_key(key),
        entries_map(s)[key] == json_view(s[i].1),
    decreases i,
{
    if i > 0 {
        let t = s.subrange(1, s.len() as int);
        assert forall|j: int| 0 <= j < i - 1 implies t[j].0@ != key by {
            assert(t[j] == s[j + 1]);
        }
        assert(t[i - 1] == s[i]);
        lemma_entries_first(t, key, i - 1);
    }
}

/// A key no entry has is not in the map.
proof fn lemma_entries_absent(s: Seq<(String, Json)>, key: Seq<char>)
    requires
        forall|j: int| 0 <= j < s.len() ==> s[j].0@ != key,
    ensures
        !entries_map(s).contains_key(key),
    decreases s.len(),
{
    if s.len() > 0 {
        let t = s.subrange(1, s.len() as int);
        assert forall|j: int| 0 <= j < t.len() implies t[j].0@ != key by {
            assert(t[j] == s[j + 1]);
        }
        lemma_entries_absent(t, key);
    }
}

/// Adding an entry with a new key adds it to the map.
pub proof fn lemma_entries_push(s: Seq<(String, Json)>, k: String, v: Json)
    requires
        !entries_map(s).contains_key(k@),
    ensures
        entries_map(s.push((k, v))) == entries_map(s).insert(k@, json_view(v)),
    decreases s.len(),
{
    let t = s.push((k, v));
    if s.len() == 0 {
        assert(t.subrange(1, t.len() as int) =~= Seq::<(String, Json)>::empty());
        assert(entries_map(t.subrange(1, t.len() as int)) == Map::<Seq<char>, JsonView>::empty());
        assert(t[0] == (k, v));
        assert(entries_map(s) == Map::<Seq<char>, JsonView>::empty());
        assert(entries_map(t) =~= entries_map(s).insert(k@, json_view(v)));
    } else {
        let s1 = s.subrange(1, s.len() as int);
        assert(t.subrange(1, t.len() as int) =~= s1.push((k, v)));
        assert(!entries_map(s1).contains_key(k@)) by {
            if entries_map(s1).contains_key(k@) {
                assert(entries_map(s).contains_key(k@));
            }
        }
        lemma_entries_push(s1, k, v);
        assert(s[0].0@ != k@);
        assert(entries_map(t) =~= entries_map(s).insert(k@, json_view(v)));
    }
}

impl Json {
    /// A string value.
    pub fn string(s: &str) -> (r: Json)
        ensures
            r@ == JsonView::Str(s@),
    {
        Json::Str(owned(s))
    }

    /// An integer value, stored as `serde_json` stores it.
    pub fn integer(n: i64) -> (r: Json)
        ensures
            r@ == int_view(n),
    {
        if n >= 0 {
            Json::PosInt(n as u64)
        } else {
            Json::NegInt(n)
        }
    }

    /// `true` if the value is an array.
    pub fn is_array(&self) -> (r: bool)
        ensures
            r == (self@ is Array),
    {
        match self {
            Json::Array(_) => true,
            _ => false,
        }
    }

    /// The value under `key`, if this is an object that has one.
    pub fn get_key(&self, key: &str) -> (r: Option<&Json>)
        ensures
            r matches Some(v) ==> get_key(self@, key@) == Some(v@),
            r is None ==> get_key(self@, key@) is None,
    {
        match self {
            Json::Object(entries) => {
                assert(self@ == JsonView::Object(entries_map(entries@)));
                let mut i: usize = 0;
                while i < entries.len()
                    invariant
                        i <= entries.len(),
                        self@ == JsonView::Object(entries_map(entries@)),
                        forall|j: int| 0 <= j < i ==> entries@[j].0@ != key@,
                    decreases entries.len() - i,
                {
                    if same_text(entries[i].0.as_str(), key) {
                        proof {
                            lemma_entries_first(entries@, key@, i as int);
                        }
                        return Some(&entries[i].1);
                    }
                    i = i + 1;
                }
                proof {
                    lemma_entries_absent(entries@, key@);
                }
                None
            },
            _ => None,
        }
    }

    /// The element at `n`, if this is an array that long.
    pub fn get_index(&self, n: usize) -> (r: Option<&Json>)
        ensures
            r matches Some(v) ==> get_index(self@, n as int) == Some(v@),
            r is None ==> get_index(self@, n as int) is None,
    {
        match self {
            Json::Array(items) => {
                proof {
                    lemma_views_len(items@);
                }
                if n < items.len() {
                    proof {
                        lemma_views_index(items@, n as int);
                    }
                    Some(&items[n])
                } else {
                    None
                }
            },
            _ => None,
        }
    }

    /// A copy of the value.
    #[verifier::loop_isolation(false)]
    pub fn copy(&self) -> (r: Json)
        ensures
            r@ == self@,
        decreases self,
    {
        match self {
            Json::Null => Json::Null,
            Json::Bool(b) => Json::Bool(*b),
            Json::PosInt(n) => Json::PosInt(*n),
            Json::NegInt(n) => Json::NegInt(*n),
            Json::Float(t) => Json::Float(t.clone()),
            Json::Str(s) => Json::Str(s.clone()),
            Json::Array(items) => {
                let mut out: Vec<Json> = Vec::new();
                let mut i: usize = 0;
                while i < items.len()
                    invariant
                        i <= items.len(),
                        json_views(out@) == json_views(items@.take(i as int)),
                    decreases items.len() - i,
                {
                    proof {
                        assert(*items == self->Array_0);
                        assert(decreases_to!(*self => self->Array_0));
                        vstd::std_specs::vec::axiom_vec_index_decreases(*items, i as int);
                        assert(decreases_to!(*items => items[i as int]));
                        assert(decreases_to!(*self => items@[i as int]));
                    }
                    let c = items[i].copy();
                    proof {
                        lemma_views_push(out@, c);
                        lemma_views_push(items@.take(i as int), items@[i as int]);
                        assert(items@.take(i + 1) =~= items@.take(i as int).push(items@[i as int]));
                    }
                    out.push(c);
                    i = i + 1;
                }
                assert(items@.take(items.len() as int) =~= items@);
                Json::Array(out)
            },
            Json::Object(entries) => {
                let mut out: Vec<(String, Json)> = Vec::new();
                let mut i: usize = 0;
                while i < entries.len()
                    invariant
                        i <= entries.len(),
                        entries_map(out@) == entries_map(entries@.take(i as int)),
                        forall|j: int| 0 <= j < i ==> out@[j].0@ == entries@[j].0@,
                        out@.len() == i,
                    decreases entries.len() - i,
                {
                    proof {
                        assert(*entries == self->Object_0);
                        assert(decreases_to!(*self => self->Object_0));
                        vstd::std_specs::vec::axiom_vec_index_decreases(*entries, i as int);
                        assert(decreases_to!(*entries => entries[i as int]));
                        assert(decreases_to!(entries[i as int] => entries[i as int].1));
                        assert(decreases_to!(*self => entries@[i as int].1));
                    }
                    let v = entries[i].1.copy();
                    let k = entries[i].0.clone();
                    proof {
                        lemma_entries_copy_step(out@, entries@, i as int, k, v);
                    }
                    out.push((k, v));
                    i = i + 1;
                }
                assert(entries@.take(entries.len() as int) =~= entries@);
                Json::Object(out)
            },
        }
    }
}

/// A key the map has is the key of some first entry.
proof fn lemma_entries_has_first(s: Seq<(String, Json)>, key: Seq<char>)
    requires
        entries_map(s).contains_key(key),
    ensures
        exists|i: int| 0 <= i < s.len() && s[i].0@ == key && forall|j: int| 0 <= j < i ==> s[j].0@ != key,
    decreases s.len(),
{
    if s.len() > 0 {
        if s[0].0@ == key {
            assert(0 < s.len() && s[0].0@ == key && forall|j: int| 0 <= j < 0 ==> s[j].0@ != key);
        } else {
            let t = s.subrange(1, s.len() as int);
            lemma_entries_has_first(t, key);
            let i = choose|i: int| 0 <= i < t.len() && t[i].0@ == key && forall|j: int| 0 <= j < i ==> t[j].0@ != key;
            assert(s[i + 1] == t[i]);
            assert forall|j: int| 0 <= j < i + 1 implies s[j].0@ != key by {
                if j > 0 {
                    assert(s[j] == t[j - 1]);
                }
            }
        }
    }
}

impl Json {
    /// Whether two values are equal as JSON: the same kind and contents,
    /// arrays element by element, objects key by key whatever the order of
    /// their entries (of two entries with one key the first counts);
    /// numbers other than integers compare by their text.
    #[verifier::loop_isolation(false)]
    pub fn equals(&self, other: &Json) -> (r: bool)
        ensures
            r == (self@ == other@),
        decreases self,
    {
        match (self, other) {
            (Json::Null, Json::Null) => true,
            (Json::Bool(x), Json::Bool(y)) => *x == *y,
            (Json::PosInt(x), Json::PosInt(y)) => *x == *y,
            (Json::NegInt(x), Json::NegInt(y)) => *x == *y,
            (Json::Float(x), Json::Float(y)) => same_text(x.as_str(), y.as_str()),
            (Json::Str(x), Json::Str(y)) => same_text(x.as_str(), y.as_str()),
            (Json::Array(xs), Json::Array(ys)) => {
                proof {
                    lemma_views_len(xs@);
                    lemma_views_len(ys@);
                }
                if xs.len() != ys.len() {
                    return false;
                }
                let mut i: usize = 0;
                while i < xs.len()
                    invariant
                        i <= xs.len(),
                        xs.len() == ys.len(),
                        json_views(xs@).len() == xs.len(),
                        json_views(ys@).len() == ys.len(),
                        forall|j: int| 0 <= j < i ==> json_views(xs@)[j] == json_views(ys@)[j],
                    decreases xs.len() - i,
                {
                    proof {
                        assert(*xs == self->Array_0);
                        assert(decreases_to!(*self => self->Array_0));
                        vstd::std_specs::vec::axiom_vec_index_decreases(*xs, i as int);
                        assert(decreases_to!(*self => xs@[i as int]));
                        lemma_views_index(xs@, i as int);
                        lemma_views_index(ys@, i as int);
                    }
                    if !xs[i].equals(&ys[i]) {
                        assert(json_views(xs@)[i as int] != json_views(ys@)[i as int]);
                        assert(json_views(xs@) != json_views(ys@));
                        return false;
                    }
                    i = i + 1;
                }
                assert(json_views(xs@) =~= json_views(ys@));
                true
            },
            (Json::Object(xs), Json::Object(_)) => {
                let ghost ma = entries_map(xs@);
                let ghost mb = match other@ {
                    JsonView::Object(m) => m,
                    _ => Map::empty(),
                };
                assert(other@ == JsonView::Object(mb));
                assert(self@ == JsonView::Object(ma));
                let mut i: usize = 0;
                while i < xs.len()
                    invariant
                        i <= xs.len(),
                        ma == entries_map(xs@),
                        other@ == JsonView::Object(mb),
                        forall|j: int| 0 <= j < i && (forall|q: int| 0 <= q < j ==> xs@[q].0@ != xs@[j].0@) ==>
                            mb.contains_key(#[trigger] xs@[j].0@) && mb[xs@[j].0@] == json_view(xs@[j].1),
                    decreases xs.len() - i,
                {
                    let k = xs[i].0.as_str();
                    let mut q: usize = 0;
                    let mut first = true;
                    while q < i
                        invariant
                            q <= i < xs.len(),
                            k@ == xs@[i as int].0@,
                            first == forall|p: int| 0 <= p < q ==> xs@[p].0@ != k@,
                        decreases i - q,
                    {
                        if same_text(xs[q].0.as_str(), k) {
                            first = false;
                        }
                        q = q + 1;
                    }
                    if first {
                        match other.get_key(k) {
                            None => {
                                proof {
                                    lemma_entries_first(xs@, k@, i as int);
                                }
                                return false;
                            },
                            Some(y) => {
                                proof {
                                    assert(*xs == self->Object_0);
                                    assert(decreases_to!(*self => self->Object_0));
                                    vstd::std_specs::vec::axiom_vec_index_decreases(*xs, i as int);
                                    assert(decreases_to!(xs[i as int] => xs[i as int].1));
                                    assert(decreases_to!(*self => xs@[i as int].1));
                                    lemma_entries_first(xs@, k@, i as int);
                                }
                                if !xs[i].1.equals(y) {
                                    assert(ma[k@] != mb[k@]);
                                    return false;
                                }
                            },
                        }
                    }
                    i = i + 1;
                }
                let ys = match other {
                    Json::Object(ys) => ys,
                    _ => {
                        return false;
                    },
                };
                assert(mb == entries_map(ys@));
                let mut j: usize = 0;
                while j < ys.len()
                    invariant
                        j <= ys.len(),
                        ma == entries_map(xs@),
                        mb == entries_map(ys@),
                        self@ == JsonView::Object(ma),
                        forall|p: int| 0 <= p < j ==> ma.contains_key(#[trigger] ys@[p].0@),
                        forall|q: int| 0 <= q < xs@.len() && (forall|t: int| 0 <= t < q ==> xs@[t].0@ != xs@[q].0@) ==>
                            mb.contains_key(#[trigger] xs@[q].0@) && mb[xs@[q].0@] == json_view(xs@[q].1),
                    decreases ys.len() - j,
                {
                    if self.get_key(ys[j].0.as_str()).is_none() {
                        proof {
                            lemma_entries_first_any(ys@, j as int);
                            assert(mb.contains_key(ys@[j as int].0@));
                            assert(!ma.contains_key(ys@[j as int].0@));
                        }
                        return false;
                    }
                    j = j + 1;
                }
                proof {
                    assert forall|key: Seq<char>| #[trigger] ma.dom().contains(key) <==> mb.dom().contains(key) by {
                        if ma.dom().contains(key) {
                            lemma_entries_has_first(xs@, key);
                            let f = choose|f: int| 0 <= f < xs@.len() && xs@[f].0@ == key && forall|g: int| 0 <= g < f ==> xs@[g].0@ != key;
                            assert(mb.contains_key(xs@[f].0@));
                        }
                        if mb.dom().contains(key) {
                            lemma_entries_has_first(ys@, key);
                            let f = choose|f: int| 0 <= f < ys@.len() && ys@[f].0@ == key && forall|g: int| 0 <= g < f ==> ys@[g].0@ != key;
                            assert(ma.contains_key(ys@[f].0@));
                        }
                    }
                    assert forall|key: Seq<char>| #[trigger] ma.dom().contains(key) implies ma[key] == mb[key] by {
                        lemma_entries_has_first(xs@, key);
                        let f = choose|f: int| 0 <= f < xs@.len() && xs@[f].0@ == key && forall|g: int| 0 <= g < f ==> xs@[g].0@ != key;
                        lemma_entries_first(xs@, key, f);
                        assert(mb.contains_key(xs@[f].0@));
                    }
                    assert(ma =~= mb);
                }
                true
            },
            _ => false,
        }
    }
}

/// Some entry with a key puts the key in the map.
proof fn lemma_entries_first_any(s: Seq<(String, Json)>, i: int)
    requires
        0 <= i < s.len(),
    ensures
        entries_map(s).contains_key(s[i].0@),
{
    if !entries_map(s).contains_key(s[i].0@) {
        lemma_entries_absent_inv(s, s[i].0@, i);
    }
}

proof fn lemma_entries_absent_inv(s: Seq<(String, Json)>, key: Seq<char>, i: int)
    requires
        0 <= i < s.len(),
        s[i].0@ == key,
    ensures
        entries_map(s).contains_key(key),
    decreases i,
{
    if i > 0 && s[0].0@ != key {
        let t = s.subrange(1, s.len() as int);
        assert(t[i - 1] == s[i]);
        lemma_entries_absent_inv(t, key, i - 1);
    }
}

/// Copying entry `i` after the first `i` keeps the maps in step.
proof fn lemma_entries_copy_step(
    out: Seq<(String, Json)>,
    src: Seq<(String, Json)>,
    i: int,
    k: String,
    v: Json,
)
    requires
        0 <= i < src.len(),
        out.len() == i,
        entries_map(out) == entries_map(src.take(i)),
        forall|j: int| 0 <= j < i ==> out[j].0@ == src[j].0@,
        k@ == src[i].0@,
        json_view(v) == json_view(src[i].1),
    ensures
        entries_map(out.push((k, v))) == entries_map(src.take(i + 1)),
    decreases i,
{
    lemma_entries_append(out, k, v);
    lemma_entries_append(src.take(i), src[i].0, src[i].1);
    assert(src.take(i + 1) =~= src.take(i).push(src[i]));
}

/// The map of entries with one more at the end: the new key is added only if
/// it was not there already.
pub proof fn lemma_entries_append(s: Seq<(String, Json)>, k: String, v: Json)
    ensures
        entries_map(s.push((k, v))) == if entries_map(s).contains_key(k@) {
            entries_map(s)
        } else {
            entries_map(s).insert(k@, json_view(v))
        },
    decreases s.len(),
{
    let t = s.push((k, v));
    if s.len() == 0 {
        assert(t.subrange(1, t.len() as int) =~= Seq::<(String, Json)>::empty());
        assert(entries_map(t.subrange(1, t.len() as int)) == Map::<Seq<char>, JsonView>::empty());
        assert(t[0] == (k, v));
        assert(entries_map(s) == Map::<Seq<char>, JsonView>::empty());
        assert(entries_map(t) =~= entries_map(s).insert(k@, json_view(v)));
    } else {
        let s1 = s.subrange(1, s.len() as int);
        assert(t.subrange(1, t.len() as int) =~= s1.push((k, v)));
        lemma_entries_append(s1, k, v);
        if entries_map(s).contains_key(k@) {
            assert(entries_map(t) =~= entries_map(s));
        } else {
            assert(t[0] == s[0]);
            assert(entries_map(t) =~= entries_map(s).insert(k@, json_view(v)));
        }
    }
}

/// Overwriting the first entry of a key sets that key in the map.
proof fn lemma_entries_update(s: Seq<(String, Json)>, i: int, k: String, v: Json)
    requires
        0 <= i < s.len(),
        s[i].0@ == k@,
        forall|j: int| 0 <= j < i ==> s[j].0@ != k@,
    ensures
        entries_map(s.update(i, (k, v))) == entries_map(s).insert(k@, json_view(v)),
    decreases i,
{
    let t = s.update(i, (k, v));
    let s1 = s.subrange(1, s.len() as int);
    let t1 = t.subrange(1, t.len() as int);
    if i == 0 {
        assert(t1 =~= s1);
        assert(entries_map(t) =~= entries_map(s).insert(k@, json_view(v)));
    } else {
        assert(t1 =~= s1.update(i - 1, (k, v)));
        assert forall|j: int| 0 <= j < i - 1 implies s1[j].0@ != k@ by {
            assert(s1[j] == s[j + 1]);
        }
        lemma_entries_update(s1, i - 1, k, v);
        assert(t[0] == s[0]);
        assert(s[0].0@ != k@);
        assert(entries_map(t) =~= entries_map(s).insert(k@, json_view(v)));
    }
}

/// Sets `key` to `value` in the entries of an object: the first entry of the
/// key is overwritten, or a new one is added at the end.
pub fn obj_insert(entries: &mut Vec<(String, Json)>, key: &str, value: Json)
    ensures
        entries_map(final(entries)@) == entries_map(old(entries)@).insert(key@, value@),
{
    let mut i: usize = 0;
    while i < entries.len()
        invariant
            i <= entries.len(),
            entries@ == old(entries)@,
            forall|j: int| 0 <= j < i ==> entries@[j].0@ != key@,
        decreases entries.len() - i,
    {
        if same_text(entries[i].0.as_str(), key) {
            let k = owned(key);
            proof {
                lemma_entries_update(entries@, i as int, k, value);
            }
            entries.set(i, (k, value));
            return;
        }
        i = i + 1;
    }
    let k = owned(key);
    proof {
        lemma_entries_absent(entries@, key@);
        lemma_entries_push(entries@, k, value);
    }
    entries.push((k, value));
}


/// An optional value's model.
pub open spec fn opt_json(o: Option<Json>) -> Option<JsonView> {
    match o {
        Some(j) => Some(j@),
        None => None,
    }
}

// ---------------------------------------------------------------------------
// JSON text, as serde_json reads and writes it
// ---------------------------------------------------------------------------

#[verifier::external_type_specification]
#[verifier::external_body]
pub struct ExValue(serde_json::Value);

/// A `serde_json::Value` as a `Json`, node for node: integers by sign,
/// other numbers by their text, objects entry for entry in the map's order.
#[verifier::external_body]
fn from_serde(v: &serde_json::Value) -> Json {
    match v {
        serde_json::Value::Null => Json::Null,
        serde_json::Value::Bool(b) => Json::Bool(*b),
        serde_json::Value::Number(n) => match (n.as_u64(), n.as_i64()) {
            (Some(u), _) => Json::PosInt(u),
            (None, Some(i)) => Json::NegInt(i),
            _ => Json::Float(n.to_string()),
        },
        serde_json::Value::String(s) => Json::Str(s.clone()),
        serde_json::Value::Array(a) => Json::Array(a.iter().map(from_serde).collect()),
        serde_json::Value::Object(m) => Json::Object(m.iter().map(|(k, x)| (k.clone(), from_serde(x))).collect()),
    }
}

/// A `Json` as a `serde_json::Value`, node for node; of two object entries
/// with one key the first is kept (entries go in last to first).
#[verifier::external_body]
fn to_serde(v: &Json) -> serde_json::Value {
    match v {
        Json::Null => serde_json::Value::Null,
        Json::Bool(b) => serde_json::Value::Bool(*b),
        Json::PosInt(n) => serde_json::Value::from(*n),
        Json::NegInt(n) => serde_json::Value::from(*n),
        Json::Float(t) => serde_json::from_str(t).unwrap_or(serde_json::Value::Null),
        Json::Str(s) => serde_json::Value::String(s.clone()),
        Json::Array(a) => serde_json::Value::Array(a.iter().map(to_serde).collect()),
        Json::Object(es) => serde_json::Value::Object(es.iter().rev().map(|(k, x)| (k.clone(), to_serde(x))).collect()),
    }
}

/// The value JSON text denotes (`None` when it is not JSON).
pub uninterp spec fn json_parse(text: Seq<char>) -> Option<JsonView>;

/// `serde_json::from_str::<serde_json::Value>`, converted node for node:
/// the contract claims only that the result is the one named for the text.
#[verifier::external_body]
pub(crate) fn parse_json(text: &str) -> (r: Option<Json>)
    ensures
        opt_json(r) == json_parse(text@),
{
    serde_json::from_str::<serde_json::Value>(text).ok().map(|v| from_serde(&v))
}

/// The compact JSON text of a value (object keys in sorted order).
pub uninterp spec fn json_text(v: JsonView) -> Seq<char>;

/// `serde_json::Value::to_string` of the value converted node for node: the
/// contract claims only that the result is the one named for the value.
#[verifier::external_body]
pub(crate) fn json_to_string(v: &Json) -> (r: String)
    ensures
        r@ == json_text(v@),
{
    to_serde(v).to_string()
}

/// The JSON text of a value indented for reading (object keys sorted).
pub uninterp spec fn json_pretty(v: JsonView) -> Seq<char>;

/// `serde_json::to_string_pretty` of the value converted node for node: the
/// contract claims only that the result is the one named for the value.
#[verifier::external_body]
pub(crate) fn json_to_pretty_string(v: &Json) -> (r: String)
    ensures
        r@ == json_pretty(v@),
{
    serde_json::to_string_pretty(&to_serde(v)).unwrap_or_default()
}

} // verus!
