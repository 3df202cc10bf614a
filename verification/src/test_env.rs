//! Environment-variable isolation for tests: which variables were touched and
//! what they held before, so that they can be put back.
//!
//! Reading and writing the process environment is the caller's part; this
//! type decides what must be remembered and what must be restored.
use crate::text::{opt_text, owned, same_text};
use vstd::prelude::*;

verus! {

/// The original values of the variables a test has touched, each recorded
/// once, at the first touch, in the order of first touch.
#[derive(Debug)]
pub struct TestEnv {
    original: Vec<(String, Option<String>)>,
}

/// A recorded variable and its original value, by characters.
pub open spec fn entry_view(e: (String, Option<String>)) -> (Seq<char>, Option<Seq<char>>) {
    (e.0@, opt_text(e.1))
}

/// No variable is recorded twice.
pub open spec fn keys_distinct(s: Seq<(Seq<char>, Option<Seq<char>>)>) -> bool {
    forall|i: int, j: int| 0 <= i < j < s.len() ==> s[i].0 != s[j].0
}

/// `key` is among the recorded variables.
pub open spec fn recorded(s: Seq<(Seq<char>, Option<Seq<char>>)>, key: Seq<char>) -> bool {
    exists|i: int| 0 <= i < s.len() && s[i].0 == key
}

impl View for TestEnv {
    type V = Seq<(Seq<char>, Option<Seq<char>>)>;

    closed spec fn view(&self) -> Self::V {
        self.original@.map_values(|e: (String, Option<String>)| entry_view(e))
    }
}

impl TestEnv {
    /// The well-formedness of the record: no variable twice.
    pub closed spec fn wf(&self) -> bool {
        keys_distinct(self@)
    }

    pub fn new() -> (r: Self)
        ensures
            r.wf(),
            r@ == Seq::<(Seq<char>, Option<Seq<char>>)>::empty(),
    {
        let r = TestEnv { original: Vec::new() };
        assert(r@ =~= Seq::<(Seq<char>, Option<Seq<char>>)>::empty());
        r
    }

    /// Records `current` as the original value of `key`, unless `key` was
    /// touched before: the first recorded value is the one kept.  Returns
    /// whether it was recorded now.
    pub fn remember(&mut self, key: &str, current: Option<String>) -> (fresh: bool)
        requires
            old(self).wf(),
        ensures
            final(self).wf(),
            fresh == !recorded(old(self)@, key@),
            fresh ==> final(self)@ == old(self)@.push((key@, opt_text(current))),
            !fresh ==> final(self)@ == old(self)@,
    {
        let mut i: usize = 0;
        while i < self.original.len()
            invariant
                i <= self.original.len(),
                keys_distinct(self@),
                self@ == self.original@.map_values(|e: (String, Option<String>)| entry_view(e)),
                forall|j: int| 0 <= j < i ==> self@[j].0 != key@,
            decreases self.original.len() - i,
        {
            if same_text(self.original[i].0.as_str(), key) {
                assert(self@[i as int].0 == key@);
                return false;
            }
            i = i + 1;
        }
        let ghost before = self@;
        self.original.push((owned(key), current));
        assert(self@ =~= before.push((key@, opt_text(current))));
        assert forall|a: int, b: int| 0 <= a < b < self@.len() implies self@[a].0 != self@[b].0 by {
            if b == before.len() {
                assert(before[a].0 != key@);
            }
        }
        true
    }

    /// The recorded variables with their original values, in order of first
    /// touch: what must be put back.
    pub fn originals(&self) -> (r: &[(String, Option<String>)])
        ensures
            r@.map_values(|e: (String, Option<String>)| entry_view(e)) == self@,
    {
        self.original.as_slice()
    }
}

impl Default for TestEnv {
    fn default() -> (r: Self)
        ensures
            r.wf(),
            r@ == Seq::<(Seq<char>, Option<Seq<char>>)>::empty(),
    {
        Self::new()
    }
}

/// Whatever order the variables are touched in, and however often, each is
/// restored to the value it held at its first touch: once recorded, a
/// variable's original value never changes.
pub proof fn lemma_first_value_kept(
    s: Seq<(Seq<char>, Option<Seq<char>>)>,
    key: Seq<char>,
    current: Option<Seq<char>>,
    i: int,
)
    requires
        keys_distinct(s),
        0 <= i < s.len(),
    ensures
        ({
            let t = if recorded(s, key) {
                s
            } else {
                s.push((key, current))
            };
            &&& keys_distinct(t)
            &&& t[i] == s[i]
            &&& recorded(t, key)
        }),
{
    if !recorded(s, key) {
        let t = s.push((key, current));
        assert(t[s.len() as int].0 == key);
        assert forall|a: int, b: int| 0 <= a < b < t.len() implies t[a].0 != t[b].0 by {
            if b == s.len() {
                assert(!(0 <= a < s.len() && s[a].0 == key));
            }
        }
    } else {
        let j = choose|j: int| 0 <= j < s.len() && s[j].0 == key;
        assert(s[j].0 == key);
    }
}

} // verus!
