//! Comparing JSON values in tests: whether one is contained in another, and
//! a readable account of how two differ.
use crate::json::{json_pretty, json_to_pretty_string, Json, JsonView};
use crate::text::{owned, push_str, same_text};
use vstd::prelude::*;

verus! {

/// `a` is contained in `b`: an object when every entry of it is found in
/// the object `b` with a contained value, anything else when it equals `b`.
pub open spec fn subset_of(a: Json, b: JsonView) -> bool
    decreases a,
{
    match a {
        Json::Object(entries) => match b {
            JsonView::Object(m) => entries_within(entries@, m),
            _ => false,
        },
        _ => a@ == b,
    }
}

/// Every entry is found in the map with a contained value.
pub open spec fn entries_within(entries: Seq<(String, Json)>, m: Map<Seq<char>, JsonView>) -> bool
    decreases entries,
{
    if entries.len() == 0 {
        true
    } else {
        &&& m.contains_key(entries[0].0@)
        &&& subset_of(entries[0].1, m[entries[0].0@])
        &&& entries_within(entries.subrange(1, entries.len() as int), m)
    }
}

/// Whether `subset` is a structural subset of `superset`: every key of an
/// object is present in the other object with a value that is in turn a
/// subset; values that are not objects must be equal.
#[verifier::loop_isolation(false)]
pub fn is_subset(subset: &Json, superset: &Json) -> (r: bool)
    ensures
        r == subset_of(*subset, superset@),
    decreases subset,
{
    match subset {
        Json::Object(entries) => {
            let ghost m = match superset@ {
                JsonView::Object(m) => m,
                _ => Map::empty(),
            };
            match superset {
                Json::Object(_) => {},
                _ => {
                    return false;
                },
            }
            assert(superset@ == JsonView::Object(m));
            let mut i: usize = 0;
            assert(entries@.subrange(0, entries@.len() as int) =~= entries@);
            while i < entries.len()
                invariant
                    i <= entries@.len(),
                    superset@ == JsonView::Object(m),
                    entries_within(entries@, m) == entries_within(entries@.subrange(i as int, entries@.len() as int), m),
                decreases entries.len() - i,
            {
                let ghost rest = entries@.subrange(i as int, entries@.len() as int);
                assert(rest[0] == entries@[i as int]);
                assert(rest.subrange(1, rest.len() as int) =~= entries@.subrange(i + 1, entries@.len() as int));
                match superset.get_key(entries[i].0.as_str()) {
                    None => {
                        return false;
                    },
                    Some(v) => {
                        proof {
                            assert(*entries == subset->Object_0);
                            assert(decreases_to!(*subset => subset->Object_0));
                            vstd::std_specs::vec::axiom_vec_index_decreases(*entries, i as int);
                            assert(decreases_to!(entries[i as int] => entries[i as int].1));
                            assert(decreases_to!(*subset => entries@[i as int].1));
                        }
                        if !is_subset(&entries[i].1, v) {
                            return false;
                        }
                    },
                }
                i = i + 1;
            }
            assert(entries@.subrange(entries@.len() as int, entries@.len() as int).len() == 0);
            true
        },
        _ => subset.equals(superset),
    }
}

/// What `diff` says of two values: that they are equal when their indented
/// texts are, else both texts.
pub open spec fn diff_text(left: JsonView, right: JsonView) -> Seq<char> {
    let l = json_pretty(left);
    let r = json_pretty(right);
    if l == r {
        "(values are equal)"@
    } else {
        "left:\n"@ + l + "\n\nright:\n"@ + r
    }
}

/// A readable account of two values: `(values are equal)` when their
/// indented JSON texts agree, else both texts one after the other.
pub fn diff(left: &Json, right: &Json) -> (r: String)
    ensures
        r@ == diff_text(left@, right@),
{
    let l = json_to_pretty_string(left);
    let r = json_to_pretty_string(right);
    if same_text(l.as_str(), r.as_str()) {
        return owned("(values are equal)");
    }
    let mut out = owned("left:\n");
    push_str(&mut out, l.as_str());
    push_str(&mut out, "\n\nright:\n");
    push_str(&mut out, r.as_str());
    out
}

} // verus!
