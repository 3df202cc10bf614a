//! SQL migrations: versioned up/down scripts, the set that holds them, and the
//! execution plans that apply or roll them back.
use crate::text::{
    chars_of, dec, find_first, find_seq, lemma_find_seq, starts_with_chars, starts_with_spec, string_of,
    trim_chars, trim_spec, trim_start_chars, trim_start_spec, dec_string, find_char, lemma_find_char, owned, parse_u64, parse_u64_spec, push_char,
    push_dec, push_str, replace_all, replace_all_spec, slice_chars, string_of_range,
};
use vstd::string::*;
use vstd::prelude::*;

verus! {

/// What can go wrong while loading, registering or planning migrations.
#[derive(Debug)]
pub enum MigrateError {
    DuplicateVersion(u64),
    InvalidFilename(String),
    NotFound(u64),
    Io(String),
    Irreversible(u64),
    Database(String),
}

/// A single forward (and optionally reversible) database migration.
#[derive(Debug)]
pub struct Migration {
    /// Monotonically increasing version number.
    pub version: u64,
    /// Human-readable name (e.g. `"create_users"`).
    pub name: String,
    /// SQL to apply (run on `migrate up`).
    pub up_sql: String,
    /// SQL to revert (run on `migrate down`); `None` for irreversible migrations.
    pub down_sql: Option<String>,
}

impl Migration {
    pub fn new(version: u64, name: &str, up_sql: &str, down_sql: Option<String>) -> (m: Self)
        ensures
            m.version == version,
            m.name@ == name@,
            m.up_sql@ == up_sql@,
            m.down_sql == down_sql,
    {
        Migration { version, name: owned(name), up_sql: owned(up_sql), down_sql }
    }

    /// `true` if this migration can be rolled back.
    pub fn is_reversible(&self) -> (r: bool)
        ensures
            r == self.down_sql.is_some(),
    {
        self.down_sql.is_some()
    }

    /// A copy of this migration.
    pub fn duplicate(&self) -> (r: Self)
        ensures
            r == *self,
    {
        let down_sql = match &self.down_sql {
            Some(d) => Some(d.clone()),
            None => None,
        };
        Migration {
            version: self.version,
            name: self.name.clone(),
            up_sql: self.up_sql.clone(),
            down_sql,
        }
    }

    /// `{version:04}_{name}`, the way a migration is shown.
    pub fn label(&self) -> (r: String)
        ensures
            r@ == zero_pad(dec(self.version as nat), 4) + seq!['_'] + self.name@,
    {
        let digits = dec_string(self.version);
        let mut r = String::new();
        let n = digits.unicode_len();
        let mut k = n;
        while k < 4
            invariant
                n <= k,
                k <= 4 || k == n,
                n == digits@.len(),
                r@ == Seq::new((k - n) as nat, |i: int| '0'),
            decreases 4 - k,
        {
            push_char(&mut r, '0');
            assert(r@ =~= Seq::new((k + 1 - n) as nat, |i: int| '0'));
            k = k + 1;
        }
        assert(n >= 4 ==> r@ =~= Seq::<char>::empty());
        push_str(&mut r, digits.as_str());
        push_char(&mut r, '_');
        push_str(&mut r, self.name.as_str());
        r
    }
}

/// `s` preceded by as many `0`s as make it `width` long.
pub open spec fn zero_pad(s: Seq<char>, width: nat) -> Seq<char> {
    if s.len() >= width {
        s
    } else {
        Seq::new((width - s.len()) as nat, |i: int| '0') + s
    }
}

impl MigrateError {
    /// The message this error is shown with.
    pub fn message(&self) -> (r: String)
        ensures
            r@ == migrate_error_message(*self),
    {
        match self {
            MigrateError::DuplicateVersion(v) => {
                let mut r = owned("duplicate migration version ");
                push_dec(&mut r, *v);
                r
            },
            MigrateError::InvalidFilename(f) => {
                let mut r = owned("invalid migration filename `");
                push_str(&mut r, f.as_str());
                push_str(&mut r, "`: expected `{version}_{name}.sql`");
                r
            },
            MigrateError::NotFound(v) => {
                let mut r = owned("migration version ");
                push_dec(&mut r, *v);
                push_str(&mut r, " not found");
                r
            },
            MigrateError::Io(e) => {
                let mut r = owned("io error: ");
                push_str(&mut r, e.as_str());
                r
            },
            MigrateError::Irreversible(v) => {
                let mut r = owned("migration version ");
                push_dec(&mut r, *v);
                push_str(&mut r, " is irreversible");
                r
            },
            MigrateError::Database(e) => {
                let mut r = owned("database error: ");
                push_str(&mut r, e.as_str());
                r
            },
        }
    }
}

/// The message of each error.
pub open spec fn migrate_error_message(e: MigrateError) -> Seq<char> {
    match e {
        MigrateError::DuplicateVersion(v) => "duplicate migration version "@ + dec(v as nat),
        MigrateError::InvalidFilename(f) => "invalid migration filename `"@ + f@
            + "`: expected `{version}_{name}.sql`"@,
        MigrateError::NotFound(v) => "migration version "@ + dec(v as nat) + " not found"@,
        MigrateError::Io(e) => "io error: "@ + e@,
        MigrateError::Irreversible(v) => "migration version "@ + dec(v as nat)
            + " is irreversible"@,
        MigrateError::Database(e) => "database error: "@ + e@,
    }
}


/// Which direction a planned migration step runs.
#[derive(Debug, Clone, Copy, PartialEq, Eq, Structural)]
pub enum Direction {
    Up,
    Down,
}

/// A single step in an execution plan: the migration plus the complete SQL to
/// execute, history-table bookkeeping included.
#[derive(Debug)]
pub struct MigrationPlan<'a> {
    pub migration: &'a Migration,
    /// Full SQL to send to the database, ready to execute as a single block.
    pub sql: String,
    pub direction: Direction,
}

/// Holds a set of migrations, ordered by version, and answers queries about
/// their state.
#[derive(Debug)]
pub struct Migrator {
    migrations: Vec<Migration>,
}

/// Versions strictly increase along `s`: sorted, and no version twice.
pub open spec fn versions_increasing(s: Seq<Migration>) -> bool {
    forall|i: int, j: int| 0 <= i < j < s.len() ==> s[i].version < s[j].version
}

/// Versions strictly decrease along `s`: newest first, and no version twice.
pub open spec fn versions_decreasing(s: Seq<Migration>) -> bool {
    forall|i: int, j: int| 0 <= i < j < s.len() ==> s[i].version > s[j].version
}

/// Some migration of `s` has version `v`.
pub open spec fn has_version(s: Seq<Migration>, v: u64) -> bool {
    exists|i: int| 0 <= i < s.len() && s[i].version == v
}

/// The migrations of `s`, in order, whose version is not in `applied`.
pub open spec fn keep_pending(s: Seq<Migration>, applied: Seq<u64>) -> Seq<Migration>
    decreases s.len(),
{
    if s.len() == 0 {
        Seq::empty()
    } else if applied.contains(s.last().version) {
        keep_pending(s.drop_last(), applied)
    } else {
        keep_pending(s.drop_last(), applied).push(s.last())
    }
}

/// The migrations of `s`, in order, whose version is in `applied`.
pub open spec fn keep_applied(s: Seq<Migration>, applied: Seq<u64>) -> Seq<Migration>
    decreases s.len(),
{
    if s.len() == 0 {
        Seq::empty()
    } else if applied.contains(s.last().version) {
        keep_applied(s.drop_last(), applied).push(s.last())
    } else {
        keep_applied(s.drop_last(), applied)
    }
}

/// The migrations a migration plan points at.
pub open spec fn plan_targets(plans: Seq<MigrationPlan>) -> Seq<Migration> {
    plans.map_values(|p: MigrationPlan| *p.migration)
}

/// The migrations a list of references points at.
pub open spec fn derefs(s: Seq<&Migration>) -> Seq<Migration> {
    s.map_values(|m: &Migration| *m)
}

/// `name` with every `'` doubled, as a SQL string literal needs it.
pub open spec fn sql_quote(name: Seq<char>) -> Seq<char> {
    replace_all_spec(name, "'"@, "''"@)
}

/// The statement that records `m` as applied.
pub open spec fn record_sql_spec(m: Migration) -> Seq<char> {
    "INSERT INTO _rok_migrations (version, name) VALUES ("@ + dec(m.version as nat) + ", '"@
        + sql_quote(m.name@) + "');"@
}

/// The statement that forgets that version `v` was applied.
pub open spec fn revert_record_sql_spec(v: u64) -> Seq<char> {
    "DELETE FROM _rok_migrations WHERE version = "@ + dec(v as nat) + ";"@
}

/// The SQL that applies `m`: its `up_sql`, then its history record.
pub open spec fn up_plan_sql(m: Migration) -> Seq<char> {
    m.up_sql@ + "\n"@ + record_sql_spec(m)
}

/// The SQL that reverts `m` with rollback SQL `down`, then forgets its record.
pub open spec fn down_plan_sql(m: Migration, down: Seq<char>) -> Seq<char> {
    down + "\n"@ + revert_record_sql_spec(m.version)
}

/// The migrations a rollback targets: the applied ones, newest first, at most
/// `steps` of them when `steps` is given.
pub open spec fn down_targets(s: Seq<Migration>, applied: Seq<u64>, steps: Option<usize>) -> Seq<
    Migration,
> {
    let t = keep_applied(s, applied).reverse();
    match steps {
        Some(n) => if n < t.len() {
            t.take(n as int)
        } else {
            t
        },
        None => t,
    }
}

/// Is `v` one of `xs`?
pub fn contains_version(xs: &[u64], v: u64) -> (r: bool)
    ensures
        r == xs@.contains(v),
{
    let mut i: usize = 0;
    while i < xs.len()
        invariant
            i <= xs.len(),
            forall|j: int| 0 <= j < i ==> xs@[j] != v,
        decreases xs.len() - i,
    {
        if xs[i] == v {
            assert(xs@[i as int] == v);
            return true;
        }
        i = i + 1;
    }
    false
}

impl View for Migrator {
    type V = Seq<Migration>;

    closed spec fn view(&self) -> Seq<Migration> {
        self.migrations@
    }
}

impl Migrator {
    /// The migrations are held in strictly increasing version order.
    #[verifier::type_invariant]
    closed spec fn wf(self) -> bool {
        versions_increasing(self.migrations@)
    }

    pub fn new() -> (m: Self)
        ensures
            m@ == Seq::<Migration>::empty(),
            versions_increasing(m@),
    {
        Migrator { migrations: Vec::new() }
    }

    /// Register a migration, keeping the set in version order.  A second
    /// migration with an already registered version is refused.
    #[verifier::loop_isolation(false)]
    pub fn add(&mut self, migration: Migration) -> (r: Result<(), MigrateError>)
        ensures
            versions_increasing(final(self)@),
            r.is_err() == has_version(old(self)@, migration.version),
            r matches Err(e) ==> e == MigrateError::DuplicateVersion(migration.version)
                && final(self)@ == old(self)@,
            r.is_ok() ==> exists|k: int|
                0 <= k <= old(self)@.len() && final(self)@ == old(self)@.insert(k, migration),
    {
        proof {
            use_type_invariant(&*self);
        }
        let v = migration.version;
        let n = self.migrations.len();
        let mut pos: usize = 0;
        while pos < n && self.migrations[pos].version < v
            invariant
                n == self.migrations@.len(),
                pos <= n,
                forall|j: int| 0 <= j < pos ==> self.migrations@[j].version < v,
            decreases n - pos,
        {
            pos = pos + 1;
        }
        if pos < n && self.migrations[pos].version == v {
            assert(self.migrations@[pos as int].version == v);
            return Err(MigrateError::DuplicateVersion(v));
        }
        assert(!has_version(self.migrations@, v)) by {
            assert forall|j: int| 0 <= j < self.migrations@.len() implies self.migrations@[j].version
                != v by {
                if j > pos {
                    assert(self.migrations@[pos as int].version < self.migrations@[j].version);
                }
            }
        }
        let ghost before = self.migrations@;
        let ghost mg = migration;
        let mut held: Vec<Migration> = Vec::new();
        std::mem::swap(&mut held, &mut self.migrations);
        assert(held@ == before);
        held.insert(pos, migration);
        assert(held@ == before.insert(pos as int, mg));
        assert(before == old(self)@);
        assert(versions_increasing(held@)) by {
            assert forall|i: int, j: int|
                0 <= i < j < held@.len() implies held@[i].version < held@[j].version by {
                if j < pos {
                } else if j == pos {
                } else if i < pos {
                    assert(held@[j] == before[j - 1]);
                    if pos < before.len() {
                        assert(before[pos as int].version > v);
                    }
                } else if i == pos {
                    assert(before[pos as int].version > v);
                    assert(held@[j] == before[j - 1]);
                } else {
                    assert(held@[j] == before[j - 1]);
                    assert(held@[i] == before[i - 1]);
                }
            }
        }
        self.migrations = held;
        assert(self@ == old(self)@.insert(pos as int, mg));
        Ok(())
    }

    /// All registered migrations, in version order.
    pub fn all(&self) -> (r: &[Migration])
        ensures
            r@ == self@,
            versions_increasing(r@),
    {
        proof {
            use_type_invariant(self);
        }
        self.migrations.as_slice()
    }

    /// The migrations whose version is **not** in `applied`, in version order.
    pub fn pending<'a>(&'a self, applied: &[u64]) -> (r: Vec<&'a Migration>)
        ensures
            derefs(r@) == keep_pending(self@, applied@),
            versions_increasing(derefs(r@)),
    {
        proof {
            use_type_invariant(self);
            lemma_pending_in_order(self@, applied@);
        }
        let mut r: Vec<&Migration> = Vec::new();
        let mut i: usize = 0;
        while i < self.migrations.len()
            invariant
                i <= self.migrations@.len(),
                derefs(r@) == keep_pending(self.migrations@.take(i as int), applied@),
            decreases self.migrations.len() - i,
        {
            let m = &self.migrations[i];
            assert(self.migrations@.take(i + 1).drop_last() =~= self.migrations@.take(i as int));
            if !contains_version(applied, m.version) {
                r.push(m);
            }
            assert(derefs(r@) =~= keep_pending(self.migrations@.take(i + 1), applied@));
            i = i + 1;
        }
        assert(self.migrations@.take(i as int) =~= self.migrations@);
        r
    }

    /// The migrations whose version is in `applied`, in version order.
    pub fn applied<'a>(&'a self, applied: &[u64]) -> (r: Vec<&'a Migration>)
        ensures
            derefs(r@) == keep_applied(self@, applied@),
            versions_increasing(derefs(r@)),
    {
        proof {
            use_type_invariant(self);
            lemma_pending_in_order(self@, applied@);
        }
        let mut r: Vec<&Migration> = Vec::new();
        let mut i: usize = 0;
        while i < self.migrations.len()
            invariant
                i <= self.migrations@.len(),
                derefs(r@) == keep_applied(self.migrations@.take(i as int), applied@),
            decreases self.migrations.len() - i,
        {
            let m = &self.migrations[i];
            assert(self.migrations@.take(i + 1).drop_last() =~= self.migrations@.take(i as int));
            if contains_version(applied, m.version) {
                r.push(m);
            }
            assert(derefs(r@) =~= keep_applied(self.migrations@.take(i + 1), applied@));
            i = i + 1;
        }
        assert(self.migrations@.take(i as int) =~= self.migrations@);
        r
    }

    /// The SQL that creates the migration-history table.
    pub fn history_table_sql() -> (r: &'static str)
        ensures
            r@ == history_table_sql_spec(),
    {
        "CREATE TABLE IF NOT EXISTS _rok_migrations (\n    version     BIGINT      PRIMARY KEY,\n    name        TEXT        NOT NULL,\n    applied_at  TIMESTAMPTZ NOT NULL DEFAULT NOW()\n);"
    }

    /// The INSERT that records that `migration` was applied.
    pub fn record_sql(migration: &Migration) -> (r: String)
        ensures
            r@ == record_sql_spec(*migration),
    {
        let mut r = owned("INSERT INTO _rok_migrations (version, name) VALUES (");
        push_dec(&mut r, migration.version);
        push_str(&mut r, ", '");
        let quoted = replace_all(migration.name.as_str(), "'", "''");
        push_str(&mut r, quoted.as_str());
        push_str(&mut r, "');");
        r
    }

    /// The DELETE that removes the record of `version` (rollback).
    pub fn revert_record_sql(version: u64) -> (r: String)
        ensures
            r@ == revert_record_sql_spec(version),
    {
        let mut r = owned("DELETE FROM _rok_migrations WHERE version = ");
        push_dec(&mut r, version);
        push_str(&mut r, ";");
        r
    }

    /// The plan that applies every pending migration, in version order: each
    /// step runs `up_sql` followed by the history-table INSERT.
    pub fn plan_up<'a>(&'a self, applied: &[u64]) -> (r: Vec<MigrationPlan<'a>>)
        ensures
            plan_targets(r@) == keep_pending(self@, applied@),
            versions_increasing(plan_targets(r@)),
            forall|i: int|
                0 <= i < r@.len() ==> {
                    &&& (#[trigger] r@[i]).sql@ == up_plan_sql(*r@[i].migration)
                    &&& r@[i].direction == Direction::Up
                },
    {
        let pending = self.pending(applied);
        let mut r: Vec<MigrationPlan<'a>> = Vec::new();
        let mut i: usize = 0;
        while i < pending.len()
            invariant
                i <= pending@.len(),
                derefs(pending@) == keep_pending(self@, applied@),
                plan_targets(r@) == derefs(pending@).take(i as int),
                forall|k: int|
                    0 <= k < r@.len() ==> {
                        &&& (#[trigger] r@[k]).sql@ == up_plan_sql(*r@[k].migration)
                        &&& r@[k].direction == Direction::Up
                    },
            decreases pending.len() - i,
        {
            let m: &'a Migration = pending[i];
            let mut sql = m.up_sql.clone();
            push_str(&mut sql, "\n");
            let rec = Self::record_sql(m);
            push_str(&mut sql, rec.as_str());
            let ghost prev = r@;
            let plan = MigrationPlan { migration: m, sql, direction: Direction::Up };
            r.push(plan);
            assert(r@ == prev.push(plan));
            assert(*m == derefs(pending@)[i as int]);
            assert(plan_targets(r@) =~= plan_targets(prev).push(*m));
            assert(derefs(pending@).take(i + 1) =~= derefs(pending@).take(i as int).push(*m));
            i = i + 1;
        }
        assert(derefs(pending@).take(i as int) =~= derefs(pending@));
        r
    }

    /// The plan that rolls back applied migrations, newest first; `steps`
    /// caps how many.  Refused with `Irreversible` for the first targeted
    /// migration that has no `down_sql`.
    pub fn plan_down<'a>(&'a self, applied: &[u64], steps: Option<usize>) -> (r: Result<
        Vec<MigrationPlan<'a>>,
        MigrateError,
    >)
        ensures
            ({
                let t = down_targets(self@, applied@, steps);
                match r {
                    Ok(plans) => {
                        &&& forall|i: int| 0 <= i < t.len() ==> (#[trigger] t[i]).down_sql.is_some()
                        &&& plan_targets(plans@) == t
                        &&& versions_decreasing(plan_targets(plans@))
                        &&& forall|i: int|
                            0 <= i < plans@.len() ==> {
                                &&& (#[trigger] plans@[i]).sql@ == down_plan_sql(
                                    *plans@[i].migration,
                                    plans@[i].migration.down_sql->0@,
                                )
                                &&& plans@[i].direction == Direction::Down
                            }
                    },
                    Err(e) => exists|k: int|
                        0 <= k < t.len() && t[k].down_sql.is_none() && (forall|j: int|
                            0 <= j < k ==> (#[trigger] t[j]).down_sql.is_some()) && e
                            == MigrateError::Irreversible(t[k].version),
                }
            }),
    {
        proof {
            use_type_invariant(self);
            lemma_down_in_order(self@, applied@, steps);
        }
        let done = self.applied(applied);
        assert(derefs(done@).len() == done@.len());
        let ghost all_t = derefs(done@).reverse();
        let mut count = done.len();
        match steps {
            Some(n) => {
                if n < count {
                    count = n;
                }
            },
            None => {},
        }
        let ghost t = all_t.take(count as int);
        assert(t =~= down_targets(self@, applied@, steps));
        let mut r: Vec<MigrationPlan<'a>> = Vec::new();
        let mut i: usize = 0;
        while i < count
            invariant
                count <= done@.len(),
                i <= count,
                all_t == derefs(done@).reverse(),
                derefs(done@) == keep_applied(self@, applied@),
                t == all_t.take(count as int),
                t == down_targets(self@, applied@, steps),
                plan_targets(r@) == t.take(i as int),
                forall|k: int| 0 <= k < i ==> (#[trigger] t[k]).down_sql.is_some(),
                forall|k: int|
                    0 <= k < r@.len() ==> {
                        &&& (#[trigger] r@[k]).sql@ == down_plan_sql(
                            *r@[k].migration,
                            r@[k].migration.down_sql->0@,
                        )
                        &&& r@[k].direction == Direction::Down
                    },
            decreases count - i,
        {
            let m: &'a Migration = done[done.len() - 1 - i];
            assert(*m == t[i as int]);
            match &m.down_sql {
                None => {
                    return Err(MigrateError::Irreversible(m.version));
                },
                Some(down) => {
                    let mut sql = down.clone();
                    push_str(&mut sql, "\n");
                    let rec = Self::revert_record_sql(m.version);
                    push_str(&mut sql, rec.as_str());
                    let ghost prev = r@;
                    let plan = MigrationPlan { migration: m, sql, direction: Direction::Down };
                    r.push(plan);
                    assert(r@ == prev.push(plan));
                    assert(plan_targets(r@) =~= plan_targets(prev).push(*m));
                    assert(t.take(i + 1) =~= t.take(i as int).push(*m));
                },
            }
            i = i + 1;
        }
        assert(t.take(i as int) =~= t);
        Ok(r)
    }
}

/// The statement that creates the migration-history table.
pub open spec fn history_table_sql_spec() -> Seq<char> {
    "CREATE TABLE IF NOT EXISTS _rok_migrations (\n    version     BIGINT      PRIMARY KEY,\n    name        TEXT        NOT NULL,\n    applied_at  TIMESTAMPTZ NOT NULL DEFAULT NOW()\n);"@
}


// ---------------------------------------------------------------------------
// laws
// ---------------------------------------------------------------------------

/// Every migration is either pending or applied, never both: the two lists
/// together are as long as the whole set, and each migration of the set
/// appears in exactly the one that its version selects.
pub proof fn lemma_pending_applied_partition(s: Seq<Migration>, applied: Seq<u64>)
    ensures
        keep_pending(s, applied).len() + keep_applied(s, applied).len() == s.len(),
        forall|m: Migration|
            s.contains(m) ==> (keep_pending(s, applied).contains(m) <==> !applied.contains(
                m.version,
            )),
        forall|m: Migration|
            s.contains(m) ==> (keep_applied(s, applied).contains(m) <==> applied.contains(
                m.version,
            )),
        forall|m: Migration| #[trigger]
            keep_pending(s, applied).contains(m) ==> s.contains(m) && !applied.contains(
                m.version,
            ),
        forall|m: Migration| #[trigger]
            keep_applied(s, applied).contains(m) ==> s.contains(m) && applied.contains(
                m.version,
            ),
    decreases s.len(),
{
    if s.len() > 0 {
        let t = s.drop_last();
        lemma_pending_applied_partition(t, applied);
        assert forall|m: Migration| s.contains(m) implies t.contains(m) || m == s.last() by {
            let i = choose|i: int| 0 <= i < s.len() && s[i] == m;
            if i < s.len() - 1 {
                assert(t[i] == m);
            }
        }
        assert forall|m: Migration| t.contains(m) implies s.contains(m) by {
            let i = choose|i: int| 0 <= i < t.len() && t[i] == m;
            assert(s[i] == m);
        }
        assert(s.contains(s.last())) by {
            assert(s[s.len() - 1] == s.last());
        }
        let p = keep_pending(t, applied);
        let q = keep_applied(t, applied);
        assert forall|m: Migration| p.push(s.last()).contains(m) implies p.contains(m) || m
            == s.last() by {
            let i = choose|i: int| 0 <= i < p.len() + 1 && p.push(s.last())[i] == m;
            if i < p.len() {
                assert(p[i] == m);
            }
        }
        assert forall|m: Migration| q.push(s.last()).contains(m) implies q.contains(m) || m
            == s.last() by {
            let i = choose|i: int| 0 <= i < q.len() + 1 && q.push(s.last())[i] == m;
            if i < q.len() {
                assert(q[i] == m);
            }
        }
        assert forall|m: Migration| p.contains(m) implies p.push(s.last()).contains(m) by {
            let i = choose|i: int| 0 <= i < p.len() && p[i] == m;
            assert(p.push(s.last())[i] == m);
        }
        assert forall|m: Migration| q.contains(m) implies q.push(s.last()).contains(m) by {
            let i = choose|i: int| 0 <= i < q.len() && q[i] == m;
            assert(q.push(s.last())[i] == m);
        }
        assert(p.push(s.last())[p.len() as int] == s.last());
        assert(q.push(s.last())[q.len() as int] == s.last());
        if applied.contains(s.last().version) {
            assert(keep_pending(s, applied) == p);
            assert(keep_applied(s, applied) == q.push(s.last()));
            assert forall|m: Migration| #[trigger]
                keep_applied(s, applied).contains(m) implies s.contains(m) && applied.contains(
                m.version,
            ) by {
                if m != s.last() {
                    assert(q.contains(m));
                }
            }
        } else {
            assert(keep_pending(s, applied) == p.push(s.last()));
            assert(keep_applied(s, applied) == q);
            assert forall|m: Migration| #[trigger]
                keep_pending(s, applied).contains(m) implies s.contains(m) && !applied.contains(
                m.version,
            ) by {
                if m != s.last() {
                    assert(p.contains(m));
                }
            }
        }
    }
}

/// The versions of a list of migrations.
pub open spec fn versions(s: Seq<Migration>) -> Seq<u64> {
    s.map_values(|m: Migration| m.version)
}

/// Once every pending migration has been applied, nothing is pending any more.
pub proof fn lemma_nothing_pending_after_up(s: Seq<Migration>, applied: Seq<u64>)
    ensures
        keep_pending(s, applied + versions(keep_pending(s, applied))).len() == 0,
{
    let a2 = applied + versions(keep_pending(s, applied));
    lemma_pending_applied_partition(s, applied);
    lemma_pending_applied_partition(s, a2);
    if keep_pending(s, a2).len() > 0 {
        let m = keep_pending(s, a2)[0];
        assert(keep_pending(s, a2).contains(m));
        assert(s.contains(m));
        assert(!a2.contains(m.version));
        if applied.contains(m.version) {
            let j = choose|j: int| 0 <= j < applied.len() && applied[j] == m.version;
            assert(a2[j] == m.version);
        } else {
            assert(keep_pending(s, applied).contains(m));
            let j = choose|j: int|
                0 <= j < keep_pending(s, applied).len() && keep_pending(s, applied)[j] == m;
            assert(a2[applied.len() + j] == m.version);
        }
    }
}

/// A full rollback (no step limit) targets exactly the applied migrations,
/// newest first, and a capped one targets the newest `n` of them.
pub proof fn lemma_down_targets(s: Seq<Migration>, applied: Seq<u64>, n: usize)
    ensures
        down_targets(s, applied, None) == keep_applied(s, applied).reverse(),
        down_targets(s, applied, Some(n)).len() == if n < keep_applied(s, applied).len() {
            n as int
        } else {
            keep_applied(s, applied).len() as int
        },
        forall|i: int|
            0 <= i < down_targets(s, applied, Some(n)).len() ==> down_targets(s, applied, Some(n))[i]
                == keep_applied(s, applied)[keep_applied(s, applied).len() - 1 - i],
{
}

/// A rollback's targets come out newest first when the set is in version
/// order.
pub proof fn lemma_down_in_order(s: Seq<Migration>, applied: Seq<u64>, steps: Option<usize>)
    requires
        versions_increasing(s),
    ensures
        versions_decreasing(down_targets(s, applied, steps)),
{
    lemma_pending_in_order(s, applied);
    let k = keep_applied(s, applied);
    let t = k.reverse();
    assert forall|i: int, j: int| 0 <= i < j < t.len() implies t[i].version > t[j].version by {
        assert(t[i] == k[k.len() - 1 - i]);
        assert(t[j] == k[k.len() - 1 - j]);
    }
    let d = down_targets(s, applied, steps);
    assert forall|i: int, j: int| 0 <= i < j < d.len() implies d[i].version > d[j].version by {
        assert(d[i] == t[i]);
        assert(d[j] == t[j]);
    }
}

/// Pending migrations come out in version order when the set is in version order.
pub proof fn lemma_pending_in_order(s: Seq<Migration>, applied: Seq<u64>)
    requires
        versions_increasing(s),
    ensures
        versions_increasing(keep_pending(s, applied)),
        versions_increasing(keep_applied(s, applied)),
    decreases s.len(),
{
    if s.len() > 0 {
        let t = s.drop_last();
        assert(versions_increasing(t));
        lemma_pending_in_order(t, applied);
        lemma_pending_applied_partition(t, applied);
        let p = keep_pending(t, applied);
        let q = keep_applied(t, applied);
        assert forall|i: int| 0 <= i < p.len() implies p[i].version < s.last().version by {
            assert(p.contains(p[i]));
            let j = choose|j: int| 0 <= j < t.len() && t[j] == p[i];
            assert(s[j] == t[j]);
        }
        assert forall|i: int| 0 <= i < q.len() implies q[i].version < s.last().version by {
            assert(q.contains(q[i]));
            let j = choose|j: int| 0 <= j < t.len() && t[j] == q[i];
            assert(s[j] == t[j]);
        }
    }
}


// ---------------------------------------------------------------------------
// migration files
// ---------------------------------------------------------------------------

/// What a `{version}_{name}` file stem means: the digits before the first
/// `_` and the (non-empty) rest after it.  `path` names the file in the error.
pub open spec fn parse_filename_spec(stem: Seq<char>, path: Seq<char>) -> Option<(u64, Seq<char>)> {
    let i = find_char(stem, '_');
    if i <= 0 || i + 1 >= stem.len() {
        None
    } else {
        match parse_u64_spec(stem.take(i)) {
            Some(v) => Some((v, stem.skip(i + 1))),
            None => None,
        }
    }
}

/// Split a `{version}_{name}` file stem into its version and name.
pub fn parse_filename(stem: &str, path: &str) -> (r: Result<(u64, String), MigrateError>)
    ensures
        match parse_filename_spec(stem@, path@) {
            Some((v, name)) => r matches Ok((rv, rn)) && rv == v && rn@ == name,
            None => r matches Err(MigrateError::InvalidFilename(p)) && p@ == path@,
        },
{
    let v = chars_of(stem);
    let mut i: usize = 0;
    while i < v.len() && v[i] != '_'
        invariant
            i <= v.len(),
            forall|j: int| 0 <= j < i ==> v@[j] != '_',
        decreases v.len() - i,
    {
        i = i + 1;
    }
    proof {
        lemma_find_char(v@, '_');
        if i < v.len() {
            if find_char(v@, '_') >= 0 && find_char(v@, '_') < i {
                assert(v@[find_char(v@, '_')] == '_');
            }
        }
    }
    if i == 0 || i >= v.len() || i + 1 >= v.len() {
        return Err(MigrateError::InvalidFilename(owned(path)));
    }
    let digits = slice_chars(&v, 0, i);
    assert(digits@ == v@.take(i as int));
    match parse_u64(&digits) {
        Some(version) => {
            let name = string_of_range(&v, i + 1, v.len());
            assert(v@.subrange(i + 1, v@.len() as int) =~= v@.skip(i + 1));
            Ok((version, name))
        },
        None => Err(MigrateError::InvalidFilename(owned(path))),
    }
}


/// What a migration file holds: its text, trimmed and without a leading
/// `-- UP` marker; the part before the first `-- DOWN` is the up SQL, the part
/// after it (trimmed, if not empty) the down SQL.
pub open spec fn parse_content_spec(content: Seq<char>) -> (Seq<char>, Option<Seq<char>>) {
    let c = trim_spec(content);
    let c2 = if starts_with_spec(c, "-- UP"@) {
        trim_start_spec(c.skip("-- UP"@.len() as int))
    } else {
        c
    };
    let i = find_seq(c2, "-- DOWN"@);
    if i < 0 {
        (c2, None)
    } else {
        let down = trim_spec(c2.skip(i + "-- DOWN"@.len()));
        (trim_spec(c2.take(i)), if down.len() == 0 {
            None
        } else {
            Some(down)
        })
    }
}

/// Split the text of a migration file into its up and down SQL.
pub fn parse_content(content: &str) -> (r: (String, Option<String>))
    ensures
        r.0@ == parse_content_spec(content@).0,
        match parse_content_spec(content@).1 {
            Some(d) => r.1 matches Some(rd) && rd@ == d,
            None => r.1.is_none(),
        },
{
    let all = chars_of(content);
    let c = trim_chars(&all);
    let up_marker = chars_of("-- UP");
    let c2 = if starts_with_chars(&c, &up_marker) {
        let rest = slice_chars(&c, up_marker.len(), c.len());
        assert(rest@ =~= c@.skip(up_marker@.len() as int));
        trim_start_chars(&rest)
    } else {
        c
    };
    let down_marker = chars_of("-- DOWN");
    match find_first(&c2, &down_marker) {
        None => (string_of(&c2), None),
        Some(i) => {
            proof {
                lemma_find_seq(c2@, down_marker@);
                assert(crate::text::occurs_at(c2@, down_marker@, i as int));
                assert(i + down_marker@.len() <= c2@.len());
            }
            let dl = down_marker.len();
            let cl = c2.len();
            assert(i + dl <= cl);
            let before = slice_chars(&c2, 0, i);
            let after = slice_chars(&c2, i + dl, cl);
            assert(before@ =~= c2@.take(i as int));
            assert(after@ =~= c2@.skip(i + down_marker@.len()));
            let up = trim_chars(&before);
            let down = trim_chars(&after);
            let up_s = string_of(&up);
            if down.len() == 0 {
                (up_s, None)
            } else {
                (up_s, Some(string_of(&down)))
            }
        },
    }
}

// ---------------------------------------------------------------------------
// loading a directory of migration files
// ---------------------------------------------------------------------------

/// A migration by its parts: version, name, up SQL and down SQL.
pub type MigrationView = (u64, Seq<char>, Seq<char>, Option<Seq<char>>);

pub open spec fn migration_view(m: Migration) -> MigrationView {
    (m.version, m.name@, m.up_sql@, crate::text::opt_text(m.down_sql))
}

pub open spec fn migration_views(s: Seq<Migration>) -> Seq<MigrationView> {
    s.map_values(|m: Migration| migration_view(m))
}

/// A migration file is one whose extension is `sql`.
pub open spec fn is_sql_file(path: Seq<char>) -> bool {
    crate::paths::extension_spec(path) == Some("sql"@)
}

/// `m` put after every migration of `s` with a version not above its own
/// (`s` being in order, the result is too, and equal versions keep their
/// order).
pub open spec fn insert_by_version(s: Seq<MigrationView>, m: MigrationView) -> Seq<MigrationView>
    decreases s.len(),
{
    if s.len() == 0 {
        seq![m]
    } else if s.last().0 <= m.0 {
        s.push(m)
    } else {
        insert_by_version(s.drop_last(), m).push(s.last())
    }
}

/// `s` in order of version; migrations of one version keep their order
/// (`sort_by_key`, which is stable).
pub open spec fn sort_by_version(s: Seq<MigrationView>) -> Seq<MigrationView>
    decreases s.len(),
{
    if s.len() == 0 {
        s
    } else {
        insert_by_version(sort_by_version(s.drop_last()), s.last())
    }
}

proof fn lemma_insert_by_version(s: Seq<MigrationView>, m: MigrationView)
    requires
        forall|i: int, j: int| 0 <= i < j < s.len() ==> s[i].0 <= s[j].0,
    ensures
        insert_by_version(s, m).len() == s.len() + 1,
        forall|i: int, j: int| 0 <= i < j < s.len() + 1 ==> insert_by_version(s, m)[i].0 <= insert_by_version(s, m)[j].0,
        forall|i: int| 0 <= i < s.len() + 1 ==> insert_by_version(s, m)[i].0 == m.0 || exists|k: int| 0 <= k < s.len() && s[k].0 == insert_by_version(s, m)[i].0,
    decreases s.len(),
{
    if s.len() > 0 && s.last().0 > m.0 {
        let d = s.drop_last();
        lemma_insert_by_version(d, m);
        let t = insert_by_version(d, m);
        assert forall|i: int| 0 <= i < t.len() implies t[i].0 <= s.last().0 by {
            if t[i].0 != m.0 {
                let k = choose|k: int| 0 <= k < d.len() && d[k].0 == t[i].0;
                assert(d[k] == s[k]);
            }
        }
        assert forall|i: int| 0 <= i < s.len() + 1 implies insert_by_version(s, m)[i].0 == m.0 || exists|k: int| 0 <= k < s.len() && s[k].0 == insert_by_version(s, m)[i].0 by {
            if i < t.len() && t[i].0 != m.0 {
                let k = choose|k: int| 0 <= k < d.len() && d[k].0 == t[i].0;
                assert(d[k] == s[k]);
            } else if i == t.len() {
                assert(s[s.len() - 1].0 == insert_by_version(s, m)[i].0);
            }
        }
    } else if s.len() > 0 {
        assert forall|i: int| 0 <= i < s.len() + 1 implies insert_by_version(s, m)[i].0 == m.0 || exists|k: int| 0 <= k < s.len() && s[k].0 == insert_by_version(s, m)[i].0 by {
            if i < s.len() {
                assert(s[i].0 == insert_by_version(s, m)[i].0);
            }
        }
    }
}

proof fn lemma_insert_by_version_multiset(s: Seq<MigrationView>, m: MigrationView)
    ensures
        insert_by_version(s, m).to_multiset() == s.to_multiset().insert(m),
    decreases s.len(),
{
    broadcast use vstd::seq_lib::group_to_multiset_ensures;
    broadcast use vstd::multiset::group_multiset_axioms;

    if s.len() > 0 && s.last().0 > m.0 {
        let d = s.drop_last();
        lemma_insert_by_version_multiset(d, m);
        assert(d.push(s.last()) =~= s);
        assert(insert_by_version(s, m).to_multiset() =~= s.to_multiset().insert(m));
    }
}

/// Migrations put in order of version are in order, and they are the same
/// migrations, each as often as before.
pub proof fn lemma_sort_by_version(s: Seq<MigrationView>)
    ensures
        sort_by_version(s).len() == s.len(),
        forall|i: int, j: int| 0 <= i < j < s.len() ==> sort_by_version(s)[i].0 <= sort_by_version(s)[j].0,
        sort_by_version(s).to_multiset() == s.to_multiset(),
    decreases s.len(),
{
    broadcast use vstd::seq_lib::group_to_multiset_ensures;

    if s.len() > 0 {
        lemma_sort_by_version(s.drop_last());
        lemma_insert_by_version(sort_by_version(s.drop_last()), s.last());
        lemma_insert_by_version_multiset(sort_by_version(s.drop_last()), s.last());
        assert(s.drop_last().push(s.last()) =~= s);
    }
}

/// The migrations in a list of files (path, text) in the order listed:
/// files that are not `.sql` are ignored; the first `.sql` file whose name
/// is not `{version}_{name}.sql` is the error.
pub open spec fn parsed_files(files: Seq<(Seq<char>, Seq<char>)>) -> Result<Seq<MigrationView>, Seq<char>>
    decreases files.len(),
{
    if files.len() == 0 {
        Ok(Seq::empty())
    } else {
        match parsed_files(files.drop_last()) {
            Err(p) => Err(p),
            Ok(ms) => {
                let (path, text) = files.last();
                if !is_sql_file(path) {
                    Ok(ms)
                } else {
                    match parse_filename_spec(crate::paths::stem_ext_spec(path).0, path) {
                        None => Err(path),
                        Some((v, name)) => {
                            let (up, down) = parse_content_spec(text);
                            Ok(ms.push((v, name, up, down)))
                        },
                    }
                }
            },
        }
    }
}

/// `true` for a file that holds a migration (extension `sql`).
pub fn is_migration_file(path: &str) -> (r: bool)
    requires
        path@.len() < i64::MAX,
    ensures
        r == is_sql_file(path@),
{
    proof {
        reveal_strlit("sql");
    }
    match crate::paths::extension_of(path) {
        Some(e) => crate::text::same_text(e.as_str(), "sql"),
        None => false,
    }
}

/// Inserts `m` after the migrations of `v` with a version not above its own.
fn insert_sorted(v: &mut Vec<Migration>, m: Migration)
    ensures
        migration_views(final(v)@) == insert_by_version(migration_views(old(v)@), migration_view(m)),
{
    let ghost s = migration_views(v@);
    let ghost mv = migration_view(m);
    let mut p: usize = v.len();
    assert(s.take(p as int) =~= s);
    assert(s.skip(p as int) =~= Seq::<MigrationView>::empty());
    while p > 0 && v[p - 1].version > m.version
        invariant
            p <= v@.len(),
            s == migration_views(v@),
            mv == migration_view(m),
            insert_by_version(s, mv) == insert_by_version(s.take(p as int), mv) + s.skip(p as int),
        decreases p,
    {
        let ghost t = s.take(p as int);
        assert(t.last() == s[p - 1]);
        assert(t.drop_last() =~= s.take(p - 1));
        assert(s.skip(p - 1) =~= seq![s[p - 1]] + s.skip(p as int));
        assert(insert_by_version(t, mv) == insert_by_version(s.take(p - 1), mv).push(s[p - 1]));
        assert(insert_by_version(s.take(p - 1), mv).push(s[p - 1]) + s.skip(p as int) =~= insert_by_version(
            s.take(p - 1),
            mv,
        ) + s.skip(p - 1));
        p = p - 1;
    }
    proof {
        let t = s.take(p as int);
        if p > 0 {
            assert(t.last() == s[p - 1]);
        }
        assert(insert_by_version(t, mv) =~= t.push(mv));
    }
    v.insert(p, m);
    assert(migration_views(v@) =~= s.take(p as int).push(mv) + s.skip(p as int));
}

/// Reads migrations out of a directory's files, each given by its path and
/// text: the `.sql` files among them, parsed, in order of version (files of
/// one version in the order given).  A `.sql` file whose name is not
/// `{version}_{name}.sql` is refused with its path.
pub fn load_migrations(files: &[(String, String)]) -> (r: Result<Vec<Migration>, MigrateError>)
    requires
        forall|i: int| 0 <= i < files@.len() ==> (#[trigger] files@[i]).0@.len() < i64::MAX,
    ensures
        match parsed_files(crate::text::pair_views(files@)) {
            Ok(ms) => r matches Ok(v) && migration_views(v@) == sort_by_version(ms),
            Err(p) => r matches Err(MigrateError::InvalidFilename(q)) && q@ == p,
        },
{
    let ghost fv = crate::text::pair_views(files@);
    let mut parsed: Vec<Migration> = Vec::new();
    let mut i: usize = 0;
    assert(fv.take(0) =~= Seq::<(Seq<char>, Seq<char>)>::empty());
    assert(migration_views(parsed@) =~= Seq::<MigrationView>::empty());
    while i < files.len()
        invariant
            i <= files@.len(),
            fv == crate::text::pair_views(files@),
            forall|k: int| 0 <= k < files@.len() ==> (#[trigger] files@[k]).0@.len() < i64::MAX,
            parsed_files(fv.take(i as int)) == Ok::<Seq<MigrationView>, Seq<char>>(migration_views(parsed@)),
        decreases files.len() - i,
    {
        let path = files[i].0.as_str();
        let text = files[i].1.as_str();
        assert(fv.take(i + 1).drop_last() =~= fv.take(i as int));
        assert(fv.take(i + 1).last() == (path@, text@));
        if is_migration_file(path) {
            let (stem, _ext) = crate::paths::stem_ext(path);
            match parse_filename(stem.as_str(), path) {
                Ok((version, name)) => {
                    let (up, down) = parse_content(text);
                    let m = Migration::new(version, name.as_str(), up.as_str(), down);
                    let ghost before = migration_views(parsed@);
                    parsed.push(m);
                    assert(migration_views(parsed@) =~= before.push(migration_view(m)));
                },
                Err(e) => {
                    proof {
                        assert(parsed_files(fv.take(i + 1)) == Err::<Seq<MigrationView>, Seq<char>>(path@));
                        lemma_parsed_files_err(fv, i + 1);
                    }
                    return Err(e);
                },
            }
        }
        i = i + 1;
    }
    assert(fv.take(files@.len() as int) =~= fv);
    let mut sorted: Vec<Migration> = Vec::new();
    let ghost ps = migration_views(parsed@);
    let mut k: usize = 0;
    while k < parsed.len()
        invariant
            ps == migration_views(parsed@),
            k <= ps.len(),
            migration_views(sorted@) == sort_by_version(ps.take(k as int)),
        decreases parsed.len() - k,
    {
        let m = parsed[k].duplicate();
        insert_sorted(&mut sorted, m);
        assert(ps.take(k + 1).drop_last() =~= ps.take(k as int));
        assert(ps.take(k + 1).last() == ps[k as int]);
        k = k + 1;
    }
    assert(ps.take(ps.len() as int) =~= ps);
    Ok(sorted)
}

proof fn lemma_parsed_files_err(fv: Seq<(Seq<char>, Seq<char>)>, n: int)
    requires
        0 <= n <= fv.len(),
        parsed_files(fv.take(n)) is Err,
    ensures
        parsed_files(fv) == parsed_files(fv.take(n)),
    decreases fv.len() - n,
{
    if n < fv.len() {
        assert(fv.take(n + 1).drop_last() =~= fv.take(n));
        lemma_parsed_files_err(fv, n + 1);
    } else {
        assert(fv.take(n) =~= fv);
    }
}

} // verus!
