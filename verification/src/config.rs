//! The run's configuration: the options of the payload, the working
//! directory, and the environment the steps see.
//!
//! Whether the directory exists and what the process environment holds are
//! read by the caller; this module decides what a run starts with.
use crate::error::{ExitCode, RokError};
use crate::schema::Options;
use crate::text::{owned, pair_views, push_str, same_text};
use vstd::prelude::*;

verus! {

/// The configuration a run starts with.
#[derive(Debug)]
pub struct Config {
    pub options: Options,
    pub cwd: String,
    /// Variable assignments in order; a later one overrides an earlier one
    /// of the same name.
    pub env: Vec<(String, String)>,
}

/// The variables a list of assignments sets: the last assignment of a name
/// wins.
pub open spec fn env_map(s: Seq<(Seq<char>, Seq<char>)>) -> Map<Seq<char>, Seq<char>>
    decreases s.len(),
{
    if s.len() == 0 {
        Map::empty()
    } else {
        env_map(s.drop_last()).insert(s.last().0, s.last().1)
    }
}

/// Assignments made after others override them: the variables of `a` then
/// `b` are those of `a` with those of `b` put over them.
pub proof fn lemma_env_override(a: Seq<(Seq<char>, Seq<char>)>, b: Seq<(Seq<char>, Seq<char>)>)
    ensures
        env_map(a + b) == env_map(a).union_prefer_right(env_map(b)),
    decreases b.len(),
{
    if b.len() == 0 {
        assert(a + b =~= a);
        assert(env_map(a).union_prefer_right(env_map(b)) =~= env_map(a));
    } else {
        lemma_env_override(a, b.drop_last());
        assert((a + b).drop_last() =~= a + b.drop_last());
        assert((a + b).last() == b.last());
        assert(env_map(a + b) =~= env_map(a).union_prefer_right(env_map(b)));
    }
}

/// The value the last assignment of `key` gives, by its position.
proof fn lemma_env_lookup(s: Seq<(Seq<char>, Seq<char>)>, key: Seq<char>, n: int)
    requires
        0 <= n <= s.len(),
        forall|j: int| n <= j < s.len() ==> s[j].0 != key,
    ensures
        n > 0 && s[n - 1].0 == key ==> env_map(s).dom().contains(key) && env_map(s)[key] == s[n - 1].1,
        env_map(s).dom().contains(key) == env_map(s.take(n)).dom().contains(key),
        env_map(s).dom().contains(key) ==> env_map(s)[key] == env_map(s.take(n))[key],
    decreases s.len() - n,
{
    if n < s.len() {
        lemma_env_lookup(s.drop_last(), key, n);
        assert(s.drop_last().take(n) =~= s.take(n));
    } else {
        assert(s.take(n) =~= s);
        if n > 0 && s[n - 1].0 == key {
            assert(s.last() == s[n - 1]);
        }
    }
}

impl Config {
    /// Starts a run in the working directory the options name: refused when
    /// it does not exist or is no directory.  The steps see the process's
    /// environment with the payload's variables put over it.
    pub fn from_options(
        options: Options,
        cwd_exists: bool,
        cwd_is_dir: bool,
        process_env: Vec<(String, String)>,
    ) -> (r: Result<Config, RokError>)
        ensures
            !cwd_exists ==> (r matches Err(e) && e.code == ExitCode::StartupError
                && e.message@ == "Working directory does not exist: "@ + options.cwd@),
            cwd_exists && !cwd_is_dir ==> (r matches Err(e) && e.code == ExitCode::StartupError
                && e.message@ == "Working directory is not a directory: "@ + options.cwd@),
            cwd_exists && cwd_is_dir ==> (r matches Ok(c) && c.options == options && c.cwd@ == options.cwd@
                && pair_views(c.env@) == pair_views(process_env@) + pair_views(options.env@)),
    {
        if !cwd_exists {
            let mut m = owned("Working directory does not exist: ");
            push_str(&mut m, options.cwd.as_str());
            return Err(RokError::startup(m.as_str()));
        }
        if !cwd_is_dir {
            let mut m = owned("Working directory is not a directory: ");
            push_str(&mut m, options.cwd.as_str());
            return Err(RokError::startup(m.as_str()));
        }
        let mut env = process_env;
        let ghost first = pair_views(env@);
        let mut i: usize = 0;
        while i < options.env.len()
            invariant
                i <= options.env@.len(),
                pair_views(env@) == first + pair_views(options.env@).take(i as int),
            decreases options.env.len() - i,
        {
            let k = options.env[i].0.clone();
            let v = options.env[i].1.clone();
            let ghost before = env@;
            env.push((k, v));
            assert(pair_views(env@) =~= pair_views(before).push((k@, v@)));
            assert(pair_views(options.env@).take(i + 1) =~= pair_views(options.env@).take(i as int).push(
                (options.env@[i as int].0@, options.env@[i as int].1@),
            ));
            assert(pair_views(env@) =~= first + pair_views(options.env@).take(i + 1));
            i = i + 1;
        }
        assert(pair_views(options.env@).take(options.env@.len() as int) =~= pair_views(options.env@));
        let cwd = options.cwd.clone();
        Ok(Config { options, cwd, env })
    }

    /// The value the steps see for a variable, if it is set.
    pub fn env_get(&self, key: &str) -> (r: Option<String>)
        ensures
            r is Some <==> env_map(pair_views(self.env@)).dom().contains(key@),
            r matches Some(v) ==> v@ == env_map(pair_views(self.env@))[key@],
    {
        Self::lookup(self.env.as_slice(), key)
    }

    /// The value a list of assignments gives a variable: the last one's.
    pub fn lookup(env: &[(String, String)], key: &str) -> (r: Option<String>)
        ensures
            r is Some <==> env_map(pair_views(env@)).dom().contains(key@),
            r matches Some(v) ==> v@ == env_map(pair_views(env@))[key@],
    {
        let ghost s = pair_views(env@);
        let mut n: usize = env.len();
        while n > 0
            invariant
                n <= env@.len(),
                s == pair_views(env@),
                forall|j: int| n <= j < s.len() ==> s[j].0 != key@,
            decreases n,
        {
            if same_text(env[n - 1].0.as_str(), key) {
                proof {
                    lemma_env_lookup(s, key@, n as int);
                }
                return Some(env[n - 1].1.clone());
            }
            n = n - 1;
        }
        proof {
            lemma_env_lookup(s, key@, 0);
            assert(s.take(0) =~= Seq::<(Seq<char>, Seq<char>)>::empty());
        }
        None
    }
}

} // verus!
