//! A small ORM core: SQL values and conditions, a fluent builder of
//! parameterized statements, and the `Model` trait that scopes a builder to a
//! table.
use crate::schema::copy_strings;
use crate::text::{dec, join_spec, join_strings, owned, push_dec, push_str};
use core::marker::PhantomData;
use vstd::prelude::*;
use vstd::string::*;

verus! {

/// A value bound to a `$n` placeholder.
#[derive(Debug, Clone, PartialEq)]
pub enum SqlValue {
    Null,
    Bool(bool),
    Integer(i64),
    Text(String),
}

/// What a SQL value holds, with text by its characters.
pub enum ValView {
    Null,
    Bool(bool),
    Integer(i64),
    Text(Seq<char>),
}

impl View for SqlValue {
    type V = ValView;

    open spec fn view(&self) -> ValView {
        match self {
            SqlValue::Null => ValView::Null,
            SqlValue::Bool(b) => ValView::Bool(*b),
            SqlValue::Integer(i) => ValView::Integer(*i),
            SqlValue::Text(s) => ValView::Text(s@),
        }
    }
}

/// The views of a sequence of values.
pub open spec fn vals_view(s: Seq<SqlValue>) -> Seq<ValView> {
    s.map_values(|v: SqlValue| v@)
}

impl SqlValue {
    /// A copy of this value.
    pub fn copy(&self) -> (r: Self)
        ensures
            r == *self,
    {
        match self {
            SqlValue::Null => SqlValue::Null,
            SqlValue::Bool(b) => SqlValue::Bool(*b),
            SqlValue::Integer(i) => SqlValue::Integer(*i),
            SqlValue::Text(s) => SqlValue::Text(s.clone()),
        }
    }
}

impl From<i64> for SqlValue {
    fn from(v: i64) -> (r: Self) {
        SqlValue::Integer(v)
    }
}

impl vstd::std_specs::convert::FromSpecImpl<i64> for SqlValue {
    open spec fn obeys_from_spec() -> bool {
        true
    }

    open spec fn from_spec(v: i64) -> Self {
        SqlValue::Integer(v)
    }
}

impl From<i32> for SqlValue {
    fn from(v: i32) -> (r: Self) {
        SqlValue::Integer(v as i64)
    }
}

impl vstd::std_specs::convert::FromSpecImpl<i32> for SqlValue {
    open spec fn obeys_from_spec() -> bool {
        true
    }

    open spec fn from_spec(v: i32) -> Self {
        SqlValue::Integer(v as i64)
    }
}

impl From<bool> for SqlValue {
    fn from(v: bool) -> (r: Self) {
        SqlValue::Bool(v)
    }
}

impl vstd::std_specs::convert::FromSpecImpl<bool> for SqlValue {
    open spec fn obeys_from_spec() -> bool {
        true
    }

    open spec fn from_spec(v: bool) -> Self {
        SqlValue::Bool(v)
    }
}

impl From<String> for SqlValue {
    fn from(v: String) -> (r: Self) {
        SqlValue::Text(v)
    }
}

impl vstd::std_specs::convert::FromSpecImpl<String> for SqlValue {
    open spec fn obeys_from_spec() -> bool {
        true
    }

    open spec fn from_spec(v: String) -> Self {
        SqlValue::Text(v)
    }
}

impl<'a> From<&'a str> for SqlValue {
    fn from(v: &'a str) -> (r: Self)
        ensures
            r matches SqlValue::Text(s) && s@ == v@,
    {
        SqlValue::Text(owned(v))
    }
}

impl<'a> vstd::std_specs::convert::FromSpecImpl<&'a str> for SqlValue {
    open spec fn obeys_from_spec() -> bool {
        false
    }

    open spec fn from_spec(v: &'a str) -> Self {
        SqlValue::Null
    }
}


/// The direction of an `ORDER BY` term.
#[derive(Debug, Clone, Copy, PartialEq, Eq, Structural)]
pub enum OrderDir {
    Asc,
    Desc,
}

/// The keyword of an ordering direction.
pub open spec fn dir_word(d: OrderDir) -> Seq<char> {
    match d {
        OrderDir::Asc => "ASC"@,
        OrderDir::Desc => "DESC"@,
    }
}

impl OrderDir {
    /// `ASC` or `DESC`.
    pub fn keyword(&self) -> (r: &'static str)
        ensures
            r@ == dir_word(*self),
    {
        match self {
            OrderDir::Asc => "ASC",
            OrderDir::Desc => "DESC",
        }
    }
}

/// One `WHERE` condition.
#[derive(Debug, Clone, PartialEq)]
pub enum Condition {
    Eq(String, SqlValue),
    Ne(String, SqlValue),
    Gt(String, SqlValue),
    Gte(String, SqlValue),
    Lt(String, SqlValue),
    Lte(String, SqlValue),
    Like(String, String),
    IsNull(String),
    IsNotNull(String),
    In(String, Vec<SqlValue>),
    Raw(String),
}

/// What a condition holds, with text by its characters.
pub enum CondView {
    Eq(Seq<char>, ValView),
    Ne(Seq<char>, ValView),
    Gt(Seq<char>, ValView),
    Gte(Seq<char>, ValView),
    Lt(Seq<char>, ValView),
    Lte(Seq<char>, ValView),
    Like(Seq<char>, Seq<char>),
    IsNull(Seq<char>),
    IsNotNull(Seq<char>),
    In(Seq<char>, Seq<ValView>),
    Raw(Seq<char>),
}

impl View for Condition {
    type V = CondView;

    open spec fn view(&self) -> CondView {
        match self {
            Condition::Eq(c, v) => CondView::Eq(c@, v@),
            Condition::Ne(c, v) => CondView::Ne(c@, v@),
            Condition::Gt(c, v) => CondView::Gt(c@, v@),
            Condition::Gte(c, v) => CondView::Gte(c@, v@),
            Condition::Lt(c, v) => CondView::Lt(c@, v@),
            Condition::Lte(c, v) => CondView::Lte(c@, v@),
            Condition::Like(c, p) => CondView::Like(c@, p@),
            Condition::IsNull(c) => CondView::IsNull(c@),
            Condition::IsNotNull(c) => CondView::IsNotNull(c@),
            Condition::In(c, vals) => CondView::In(c@, vals_view(vals@)),
            Condition::Raw(s) => CondView::Raw(s@),
        }
    }
}

/// The views of a sequence of conditions.
pub open spec fn conds_view(s: Seq<Condition>) -> Seq<CondView> {
    s.map_values(|c: Condition| c@)
}

/// `"$n"`.
pub open spec fn placeholder(n: nat) -> Seq<char> {
    "$"@ + dec(n)
}

/// `"$start", "$start+1", …` — `n` placeholders.
pub open spec fn placeholders(start: nat, n: nat) -> Seq<Seq<char>> {
    Seq::new(n, |i: int| placeholder((start + i) as nat))
}

/// `col op $start`.
pub open spec fn compare_frag(col: Seq<char>, op: Seq<char>, start: nat) -> Seq<char> {
    col + " "@ + op + " $"@ + dec(start)
}

/// The SQL of a condition whose first placeholder is `$start`.
pub open spec fn cond_frag(c: CondView, start: nat) -> Seq<char> {
    match c {
        CondView::Eq(col, _) => compare_frag(col, "="@, start),
        CondView::Ne(col, _) => compare_frag(col, "!="@, start),
        CondView::Gt(col, _) => compare_frag(col, ">"@, start),
        CondView::Gte(col, _) => compare_frag(col, ">="@, start),
        CondView::Lt(col, _) => compare_frag(col, "<"@, start),
        CondView::Lte(col, _) => compare_frag(col, "<="@, start),
        CondView::Like(col, _) => compare_frag(col, "LIKE"@, start),
        CondView::IsNull(col) => col + " IS NULL"@,
        CondView::IsNotNull(col) => col + " IS NOT NULL"@,
        CondView::In(col, vals) => col + " IN ("@ + join_spec(placeholders(start, vals.len()), ", "@)
            + ")"@,
        CondView::Raw(sql) => sql,
    }
}

/// The values a condition binds, in placeholder order.
pub open spec fn cond_params(c: CondView) -> Seq<ValView> {
    match c {
        CondView::Eq(_, v) => seq![v],
        CondView::Ne(_, v) => seq![v],
        CondView::Gt(_, v) => seq![v],
        CondView::Gte(_, v) => seq![v],
        CondView::Lt(_, v) => seq![v],
        CondView::Lte(_, v) => seq![v],
        CondView::Like(_, p) => seq![ValView::Text(p)],
        CondView::IsNull(_) => Seq::empty(),
        CondView::IsNotNull(_) => Seq::empty(),
        CondView::In(_, vals) => vals,
        CondView::Raw(_) => Seq::empty(),
    }
}

fn push_compare(s: &mut String, col: &String, op: &str, start: usize)
    ensures
        final(s)@ == old(s)@ + compare_frag(col@, op@, start as nat),
{
    push_str(s, col.as_str());
    push_str(s, " ");
    push_str(s, op);
    push_str(s, " $");
    push_dec(s, start as u64);
}

/// Copies of the values of `vals`.
pub fn copy_values(vals: &[SqlValue]) -> (r: Vec<SqlValue>)
    ensures
        r@ == vals@,
        vals_view(r@) == vals_view(vals@),
{
    let mut r: Vec<SqlValue> = Vec::new();
    let mut i: usize = 0;
    while i < vals.len()
        invariant
            i <= vals.len(),
            r@ == vals@.take(i as int),
        decreases vals.len() - i,
    {
        r.push(vals[i].copy());
        assert(vals@.take(i + 1) =~= vals@.take(i as int).push(vals@[i as int]));
        i = i + 1;
    }
    assert(vals@.take(vals.len() as int) =~= vals@);
    r
}

impl Condition {
    /// A copy of this condition.
    pub fn copy(&self) -> (r: Self)
        ensures
            r@ == self@,
    {
        match self {
            Condition::Eq(c, v) => Condition::Eq(c.clone(), v.copy()),
            Condition::Ne(c, v) => Condition::Ne(c.clone(), v.copy()),
            Condition::Gt(c, v) => Condition::Gt(c.clone(), v.copy()),
            Condition::Gte(c, v) => Condition::Gte(c.clone(), v.copy()),
            Condition::Lt(c, v) => Condition::Lt(c.clone(), v.copy()),
            Condition::Lte(c, v) => Condition::Lte(c.clone(), v.copy()),
            Condition::Like(c, p) => Condition::Like(c.clone(), p.clone()),
            Condition::IsNull(c) => Condition::IsNull(c.clone()),
            Condition::IsNotNull(c) => Condition::IsNotNull(c.clone()),
            Condition::In(c, vals) => Condition::In(c.clone(), copy_values(vals.as_slice())),
            Condition::Raw(s) => Condition::Raw(s.clone()),
        }
    }

    /// The SQL of this condition with its placeholders numbered from `start`,
    /// and the values they bind.
    pub fn to_param_sql(&self, start: usize) -> (r: (String, Vec<SqlValue>))
        requires
            start + cond_params(self@).len() <= usize::MAX + 1,
        ensures
            r.0@ == cond_frag(self@, start as nat),
            vals_view(r.1@) == cond_params(self@),
    {
        let mut s = String::new();
        match self {
            Condition::Eq(c, v) => {
                push_compare(&mut s, c, "=", start);
                (s, vec![v.copy()])
            },
            Condition::Ne(c, v) => {
                push_compare(&mut s, c, "!=", start);
                (s, vec![v.copy()])
            },
            Condition::Gt(c, v) => {
                push_compare(&mut s, c, ">", start);
                (s, vec![v.copy()])
            },
            Condition::Gte(c, v) => {
                push_compare(&mut s, c, ">=", start);
                (s, vec![v.copy()])
            },
            Condition::Lt(c, v) => {
                push_compare(&mut s, c, "<", start);
                (s, vec![v.copy()])
            },
            Condition::Lte(c, v) => {
                push_compare(&mut s, c, "<=", start);
                (s, vec![v.copy()])
            },
            Condition::Like(c, p) => {
                push_compare(&mut s, c, "LIKE", start);
                (s, vec![SqlValue::Text(p.clone())])
            },
            Condition::IsNull(c) => {
                push_str(&mut s, c.as_str());
                push_str(&mut s, " IS NULL");
                (s, Vec::new())
            },
            Condition::IsNotNull(c) => {
                push_str(&mut s, c.as_str());
                push_str(&mut s, " IS NOT NULL");
                (s, Vec::new())
            },
            Condition::In(c, vals) => {
                push_str(&mut s, c.as_str());
                push_str(&mut s, " IN (");
                let ghost base = s@;
                let ghost ph = placeholders(start as nat, vals@.len());
                assert(vals_view(vals@).len() == vals@.len());
                let mut i: usize = 0;
                while i < vals.len()
                    invariant
                        i <= vals@.len(),
                        start + vals@.len() <= usize::MAX + 1,
                        ph == placeholders(start as nat, vals@.len()),
                        vals_view(vals@).len() == vals@.len(),
                        s@ == base + join_spec(ph.take(i as int), ", "@),
                    decreases vals.len() - i,
                {
                    assert(ph.take(i + 1).drop_last() =~= ph.take(i as int));
                    assert(ph.take(i + 1).last() == placeholder((start + i) as nat));
                    if i > 0 {
                        push_str(&mut s, ", ");
                    }
                    push_str(&mut s, "$");
                    push_dec(&mut s, (start + i) as u64);
                    i = i + 1;
                }
                assert(ph.take(i as int) =~= ph);
                push_str(&mut s, ")");
                (s, copy_values(vals.as_slice()))
            },
            Condition::Raw(sql) => {
                push_str(&mut s, sql.as_str());
                (s, Vec::new())
            },
        }
    }
}


/// What a query builder holds.
pub struct QueryView {
    pub table: Seq<char>,
    pub cols: Option<Seq<Seq<char>>>,
    pub conds: Seq<CondView>,
    pub order: Seq<(Seq<char>, OrderDir)>,
    pub limit: Option<usize>,
    pub offset: Option<usize>,
}

/// A fluent builder that produces parameterized SQL statements.
#[derive(Debug)]
pub struct QueryBuilder<T> {
    table: String,
    select_cols: Option<Vec<String>>,
    conditions: Vec<Condition>,
    order: Vec<(String, OrderDir)>,
    limit_val: Option<usize>,
    offset_val: Option<usize>,
    _marker: PhantomData<T>,
}

/// The views of a list of column names.
pub open spec fn str_views(s: Seq<&str>) -> Seq<Seq<char>> {
    s.map_values(|c: &str| c@)
}

/// The views of an ordering list.
pub open spec fn order_view(s: Seq<(String, OrderDir)>) -> Seq<(Seq<char>, OrderDir)> {
    s.map_values(|p: (String, OrderDir)| (p.0@, p.1))
}

impl<T> View for QueryBuilder<T> {
    type V = QueryView;

    closed spec fn view(&self) -> QueryView {
        QueryView {
            table: self.table@,
            cols: match self.select_cols {
                Some(v) => Some(crate::text::views(v@)),
                None => None,
            },
            conds: conds_view(self.conditions@),
            order: order_view(self.order@),
            limit: self.limit_val,
            offset: self.offset_val,
        }
    }
}

/// The values that the conditions `c` bind, in order.
pub open spec fn where_params(c: Seq<CondView>) -> Seq<ValView>
    decreases c.len(),
{
    if c.len() == 0 {
        Seq::empty()
    } else {
        where_params(c.drop_last()) + cond_params(c.last())
    }
}

/// The SQL of each condition of `c`, placeholders numbered after the `base`
/// values already bound.
pub open spec fn where_parts(c: Seq<CondView>, base: nat) -> Seq<Seq<char>>
    decreases c.len(),
{
    if c.len() == 0 {
        Seq::empty()
    } else {
        where_parts(c.drop_last(), base).push(
            cond_frag(c.last(), base + where_params(c.drop_last()).len() + 1),
        )
    }
}

/// The conditions of a query come out in the order they were added: the
/// values bound are those of each condition in turn, and the placeholders of
/// each condition are numbered after every value bound by the conditions
/// before it.
pub proof fn lemma_where_numbering(c: Seq<CondView>, base: nat)
    ensures
        where_parts(c, base).len() == c.len(),
        forall|i: int|
            0 <= i < c.len() ==> #[trigger] where_parts(c, base)[i] == cond_frag(
                c[i],
                base + where_params(c.take(i)).len() + 1,
            ),
        forall|i: int|
            0 <= i < c.len() ==> #[trigger] where_params(c.take(i + 1)) == where_params(c.take(i))
                + cond_params(c[i]),
    decreases c.len(),
{
    if c.len() > 0 {
        let d = c.drop_last();
        lemma_where_numbering(d, base);
        assert forall|i: int| 0 <= i < c.len() implies #[trigger] where_parts(c, base)[i] == cond_frag(
            c[i],
            base + where_params(c.take(i)).len() + 1,
        ) by {
            if i < d.len() {
                assert(c.take(i) =~= d.take(i));
                assert(where_parts(c, base)[i] == where_parts(d, base)[i]);
            } else {
                assert(c.take(i) =~= d);
            }
        }
        assert forall|i: int| 0 <= i < c.len() implies #[trigger] where_params(c.take(i + 1)) == where_params(
            c.take(i),
        ) + cond_params(c[i]) by {
            assert(c.take(i + 1).drop_last() =~= c.take(i));
            assert(c.take(i + 1).last() == c[i]);
        }
    }
}

/// ` WHERE a AND b …`, or nothing without conditions.
pub open spec fn where_clause(c: Seq<CondView>, base: nat) -> Seq<char> {
    if c.len() == 0 {
        Seq::empty()
    } else {
        " WHERE "@ + join_spec(where_parts(c, base), " AND "@)
    }
}

/// ` ORDER BY col DIR, …`, or nothing without ordering.
pub open spec fn order_clause(o: Seq<(Seq<char>, OrderDir)>) -> Seq<char> {
    if o.len() == 0 {
        Seq::empty()
    } else {
        " ORDER BY "@ + join_spec(
            o.map_values(|p: (Seq<char>, OrderDir)| p.0 + " "@ + dir_word(p.1)),
            ", "@,
        )
    }
}

/// The selected columns, or `*`.
pub open spec fn cols_text(cols: Option<Seq<Seq<char>>>) -> Seq<char> {
    match cols {
        Some(cs) => join_spec(cs, ", "@),
        None => "*"@,
    }
}

/// ` KEYWORD n` when `n` is given.
pub open spec fn number_clause(keyword: Seq<char>, n: Option<usize>) -> Seq<char> {
    match n {
        Some(v) => keyword + dec(v as nat),
        None => Seq::empty(),
    }
}

/// The SELECT statement of a query.
pub open spec fn select_sql(q: QueryView) -> Seq<char> {
    "SELECT "@ + cols_text(q.cols) + " FROM "@ + q.table + where_clause(q.conds, 0)
        + order_clause(q.order) + number_clause(" LIMIT "@, q.limit) + number_clause(
        " OFFSET "@,
        q.offset,
    )
}

/// The number of values a query binds fits the machine.
pub open spec fn params_fit(q: QueryView) -> bool {
    where_params(q.conds).len() < usize::MAX
}

/// Copies of the conditions `v`.
fn copy_conditions(v: &Vec<Condition>) -> (r: Vec<Condition>)
    ensures
        conds_view(r@) == conds_view(v@),
{
    let mut r: Vec<Condition> = Vec::new();
    let mut i: usize = 0;
    while i < v.len()
        invariant
            i <= v.len(),
            conds_view(r@) == conds_view(v@).take(i as int),
        decreases v.len() - i,
    {
        let ghost prev = r@;
        r.push(v[i].copy());
        assert(conds_view(r@) =~= conds_view(prev).push(v@[i as int]@));
        assert(conds_view(v@).take(i + 1) =~= conds_view(v@).take(i as int).push(v@[i as int]@));
        i = i + 1;
    }
    assert(conds_view(v@).take(v.len() as int) =~= conds_view(v@));
    r
}

/// A copy of the ordering list `v`.
fn copy_order(v: &Vec<(String, OrderDir)>) -> (r: Vec<(String, OrderDir)>)
    ensures
        order_view(r@) == order_view(v@),
{
    let mut r: Vec<(String, OrderDir)> = Vec::new();
    let mut i: usize = 0;
    while i < v.len()
        invariant
            i <= v.len(),
            order_view(r@) == order_view(v@).take(i as int),
        decreases v.len() - i,
    {
        let ghost prev = r@;
        r.push((v[i].0.clone(), v[i].1));
        assert(order_view(r@) =~= order_view(prev).push((v@[i as int].0@, v@[i as int].1)));
        assert(order_view(v@).take(i + 1) =~= order_view(v@).take(i as int).push(
            (v@[i as int].0@, v@[i as int].1),
        ));
        i = i + 1;
    }
    assert(order_view(v@).take(v.len() as int) =~= order_view(v@));
    r
}

impl<T> Clone for QueryBuilder<T> {
    fn clone(&self) -> (r: Self)
        ensures
            r@ == self@,
    {
        let select_cols = match &self.select_cols {
            Some(v) => Some(copy_strings(v)),
            None => None,
        };
        QueryBuilder {
            table: self.table.clone(),
            select_cols,
            conditions: copy_conditions(&self.conditions),
            order: copy_order(&self.order),
            limit_val: self.limit_val,
            offset_val: self.offset_val,
            _marker: PhantomData,
        }
    }
}

impl<T> QueryBuilder<T> {
    pub fn new(table: &str) -> (r: Self)
        ensures
            r@ == (QueryView {
                table: table@,
                cols: None,
                conds: Seq::empty(),
                order: Seq::empty(),
                limit: None,
                offset: None,
            }),
    {
        let r = QueryBuilder {
            table: owned(table),
            select_cols: None,
            conditions: Vec::new(),
            order: Vec::new(),
            limit_val: None,
            offset_val: None,
            _marker: PhantomData,
        };
        assert(conds_view(r.conditions@) =~= Seq::<CondView>::empty());
        assert(order_view(r.order@) =~= Seq::<(Seq<char>, OrderDir)>::empty());
        r
    }

    /// Select only the given columns.
    pub fn select(self, cols: &[&str]) -> (r: Self)
        ensures
            r@ == (QueryView { cols: Some(str_views(cols@)), ..self@ }),
    {
        let mut v: Vec<String> = Vec::new();
        let mut i: usize = 0;
        while i < cols.len()
            invariant
                i <= cols.len(),
                crate::text::views(v@) == str_views(cols@.take(i as int)),
            decreases cols.len() - i,
        {
            let ghost prev = v@;
            let c = owned(cols[i]);
            v.push(c);
            assert(v@ == prev.push(c));
            assert(c@ == cols@[i as int]@);
            assert(str_views(cols@.take(i + 1)) =~= str_views(cols@.take(i as int)).push(c@));
            assert(crate::text::views(v@) =~= crate::text::views(prev).push(c@));
            i = i + 1;
        }
        assert(cols@.take(i as int) =~= cols@);
        let mut r = self;
        r.select_cols = Some(v);
        r
    }

    fn push_condition(self, c: Condition) -> (r: Self)
        ensures
            r@ == (QueryView { conds: self@.conds.push(c@), ..self@ }),
    {
        let mut r = self;
        r.conditions.push(c);
        assert(conds_view(r.conditions@) =~= conds_view(self.conditions@).push(c@));
        r
    }

    /// Add the condition `col = val`.
    pub fn where_eq<V>(self, col: &str, val: V) -> (r: Self) where SqlValue: From<V>
        ensures
            exists|v: SqlValue|
                call_ensures(SqlValue::from, (val,), v) && r@ == (QueryView {
                    conds: self@.conds.push(CondView::Eq(col@, v@)),
                    ..self@
                }),
    {
        let v = SqlValue::from(val);
        self.push_condition(Condition::Eq(owned(col), v))
    }

    /// Add the condition `col != val`.
    pub fn where_ne<V>(self, col: &str, val: V) -> (r: Self) where SqlValue: From<V>
        ensures
            exists|v: SqlValue|
                call_ensures(SqlValue::from, (val,), v) && r@ == (QueryView {
                    conds: self@.conds.push(CondView::Ne(col@, v@)),
                    ..self@
                }),
    {
        let v = SqlValue::from(val);
        self.push_condition(Condition::Ne(owned(col), v))
    }

    /// Add the condition `col > val`.
    pub fn where_gt<V>(self, col: &str, val: V) -> (r: Self) where SqlValue: From<V>
        ensures
            exists|v: SqlValue|
                call_ensures(SqlValue::from, (val,), v) && r@ == (QueryView {
                    conds: self@.conds.push(CondView::Gt(col@, v@)),
                    ..self@
                }),
    {
        let v = SqlValue::from(val);
        self.push_condition(Condition::Gt(owned(col), v))
    }

    /// Add the condition `col >= val`.
    pub fn where_gte<V>(self, col: &str, val: V) -> (r: Self) where SqlValue: From<V>
        ensures
            exists|v: SqlValue|
                call_ensures(SqlValue::from, (val,), v) && r@ == (QueryView {
                    conds: self@.conds.push(CondView::Gte(col@, v@)),
                    ..self@
                }),
    {
        let v = SqlValue::from(val);
        self.push_condition(Condition::Gte(owned(col), v))
    }

    /// Add the condition `col < val`.
    pub fn where_lt<V>(self, col: &str, val: V) -> (r: Self) where SqlValue: From<V>
        ensures
            exists|v: SqlValue|
                call_ensures(SqlValue::from, (val,), v) && r@ == (QueryView {
                    conds: self@.conds.push(CondView::Lt(col@, v@)),
                    ..self@
                }),
    {
        let v = SqlValue::from(val);
        self.push_condition(Condition::Lt(owned(col), v))
    }

    /// Add the condition `col <= val`.
    pub fn where_lte<V>(self, col: &str, val: V) -> (r: Self) where SqlValue: From<V>
        ensures
            exists|v: SqlValue|
                call_ensures(SqlValue::from, (val,), v) && r@ == (QueryView {
                    conds: self@.conds.push(CondView::Lte(col@, v@)),
                    ..self@
                }),
    {
        let v = SqlValue::from(val);
        self.push_condition(Condition::Lte(owned(col), v))
    }

    /// Add the condition `col LIKE pattern`.
    pub fn where_like(self, col: &str, pattern: &str) -> (r: Self)
        ensures
            r@ == (QueryView { conds: self@.conds.push(CondView::Like(col@, pattern@)), ..self@ }),
    {
        self.push_condition(Condition::Like(owned(col), owned(pattern)))
    }

    /// Add the condition `col IS NULL`.
    pub fn where_null(self, col: &str) -> (r: Self)
        ensures
            r@ == (QueryView { conds: self@.conds.push(CondView::IsNull(col@)), ..self@ }),
    {
        self.push_condition(Condition::IsNull(owned(col)))
    }

    /// Add the condition `col IS NOT NULL`.
    pub fn where_not_null(self, col: &str) -> (r: Self)
        ensures
            r@ == (QueryView { conds: self@.conds.push(CondView::IsNotNull(col@)), ..self@ }),
    {
        self.push_condition(Condition::IsNotNull(owned(col)))
    }

    /// Add the condition `col IN (vals…)`.
    pub fn where_in<V>(self, col: &str, vals: Vec<V>) -> (r: Self) where SqlValue: From<V>
        ensures
            exists|vs: Seq<SqlValue>|
                vs.len() == vals@.len() && (forall|i: int|
                    0 <= i < vs.len() ==> call_ensures(SqlValue::from, (vals@[i],), #[trigger] vs[i]))
                    && r@ == (QueryView {
                    conds: self@.conds.push(CondView::In(col@, vals_view(vs))),
                    ..self@
                }),
    {
        let ghost orig = vals@;
        let mut converted: Vec<SqlValue> = Vec::new();
        for v in it: vals
            invariant
                it.seq() == orig,
                converted@.len() == it.index(),
                forall|i: int|
                    0 <= i < converted@.len() ==> call_ensures(
                        SqlValue::from,
                        (orig[i],),
                        #[trigger] converted@[i],
                    ),
        {
            let ghost prev = converted@;
            let x = SqlValue::from(v);
            converted.push(x);
            assert(converted@ == prev.push(x));
        }
        let ghost vs = converted@;
        let r = self.push_condition(Condition::In(owned(col), converted));
        assert(vs.len() == orig.len());
        r
    }

    /// Add a raw SQL condition.
    pub fn where_raw(self, sql: &str) -> (r: Self)
        ensures
            r@ == (QueryView { conds: self@.conds.push(CondView::Raw(sql@)), ..self@ }),
    {
        self.push_condition(Condition::Raw(owned(sql)))
    }

    fn push_order(self, col: &str, dir: OrderDir) -> (r: Self)
        ensures
            r@ == (QueryView { order: self@.order.push((col@, dir)), ..self@ }),
    {
        let mut r = self;
        let c = owned(col);
        r.order.push((c, dir));
        assert(order_view(r.order@) =~= order_view(self.order@).push((col@, dir)));
        r
    }

    /// Order by `col` ascending.
    pub fn order_by(self, col: &str) -> (r: Self)
        ensures
            r@ == (QueryView { order: self@.order.push((col@, OrderDir::Asc)), ..self@ }),
    {
        self.push_order(col, OrderDir::Asc)
    }

    /// Order by `col` descending.
    pub fn order_by_desc(self, col: &str) -> (r: Self)
        ensures
            r@ == (QueryView { order: self@.order.push((col@, OrderDir::Desc)), ..self@ }),
    {
        self.push_order(col, OrderDir::Desc)
    }

    /// Return at most `n` rows.
    pub fn limit(self, n: usize) -> (r: Self)
        ensures
            r@ == (QueryView { limit: Some(n), ..self@ }),
    {
        let mut r = self;
        r.limit_val = Some(n);
        r
    }

    /// Skip the first `n` rows.
    pub fn offset(self, n: usize) -> (r: Self)
        ensures
            r@ == (QueryView { offset: Some(n), ..self@ }),
    {
        let mut r = self;
        r.offset_val = Some(n);
        r
    }
}


proof fn lemma_where_params_grow(c: Seq<CondView>, k: int)
    requires
        0 <= k <= c.len(),
    ensures
        where_params(c.take(k)).len() <= where_params(c).len(),
    decreases c.len() - k,
{
    if k < c.len() {
        lemma_where_params_grow(c, k + 1);
        assert(c.take(k + 1).drop_last() =~= c.take(k));
    } else {
        assert(c.take(k) =~= c);
    }
}

/// ` WHERE …` for `conds`, placeholders numbered after the values already in
/// `params`, whose own values are appended to `params`.
pub fn where_sql(conds: &[Condition], params: &mut Vec<SqlValue>) -> (r: String)
    requires
        old(params)@.len() + where_params(conds_view(conds@)).len() < usize::MAX,
    ensures
        r@ == where_clause(conds_view(conds@), old(params)@.len()),
        vals_view(final(params)@) == vals_view(old(params)@) + where_params(conds_view(conds@)),
{
    let ghost base = params@.len();
    let ghost start_vals = vals_view(params@);
    let ghost cv = conds_view(conds@);
    if conds.len() == 0 {
        assert(vals_view(params@) + where_params(cv) =~= vals_view(params@));
        return String::new();
    }
    let mut parts: Vec<String> = Vec::new();
    let mut i: usize = 0;
    assert(cv.take(0) =~= Seq::<CondView>::empty());
    assert(start_vals + where_params(cv.take(0)) =~= start_vals);
    while i < conds.len()
        invariant
            cv == conds_view(conds@),
            cv.len() == conds@.len(),
            i <= conds.len(),
            base + where_params(cv).len() < usize::MAX,
            crate::text::views(parts@) == where_parts(cv.take(i as int), base),
            vals_view(params@) == start_vals + where_params(cv.take(i as int)),
            params@.len() == base + where_params(cv.take(i as int)).len(),
        decreases conds.len() - i,
    {
        proof {
            lemma_where_params_grow(cv, i + 1);
            assert(cv.take(i + 1).drop_last() =~= cv.take(i as int));
            assert(cv.take(i + 1).last() == conds@[i as int]@);
        }
        let start = params.len() + 1;
        let (frag, mut ps) = conds[i].to_param_sql(start);
        let ghost prev_params = params@;
        let ghost ps_view = vals_view(ps@);
        params.append(&mut ps);
        assert(vals_view(params@) =~= vals_view(prev_params) + ps_view);
        let ghost prev_parts = parts@;
        parts.push(frag);
        assert(parts@ == prev_parts.push(frag));
        assert(crate::text::views(parts@) =~= crate::text::views(prev_parts).push(frag@));
        i = i + 1;
    }
    assert(cv.take(i as int) =~= cv);
    let joined = join_strings(parts.as_slice(), " AND ");
    let mut r = owned(" WHERE ");
    push_str(&mut r, joined.as_str());
    r
}

/// ` ORDER BY …` for an ordering list.
fn order_sql(order: &[(String, OrderDir)]) -> (r: String)
    ensures
        r@ == order_clause(order_view(order@)),
{
    let ghost ov = order_view(order@);
    let ghost terms = ov.map_values(|p: (Seq<char>, OrderDir)| p.0 + " "@ + dir_word(p.1));
    if order.len() == 0 {
        return String::new();
    }
    let mut parts: Vec<String> = Vec::new();
    let mut i: usize = 0;
    while i < order.len()
        invariant
            i <= order.len(),
            ov == order_view(order@),
            terms == ov.map_values(|p: (Seq<char>, OrderDir)| p.0 + " "@ + dir_word(p.1)),
            crate::text::views(parts@) == terms.take(i as int),
        decreases order.len() - i,
    {
        let mut t = order[i].0.clone();
        push_str(&mut t, " ");
        push_str(&mut t, order[i].1.keyword());
        assert(t@ == terms[i as int]);
        let ghost prev = parts@;
        parts.push(t);
        assert(parts@ == prev.push(t));
        assert(terms.take(i + 1) =~= terms.take(i as int).push(t@));
        assert(crate::text::views(parts@) =~= crate::text::views(prev).push(t@));
        i = i + 1;
    }
    assert(terms.take(i as int) =~= terms);
    let joined = join_strings(parts.as_slice(), ", ");
    let mut r = owned(" ORDER BY ");
    push_str(&mut r, joined.as_str());
    r
}

/// The column names of insert/update data.
pub open spec fn data_cols(data: Seq<(&str, SqlValue)>) -> Seq<Seq<char>> {
    data.map_values(|p: (&str, SqlValue)| p.0@)
}

/// The values of insert/update data.
pub open spec fn data_vals(data: Seq<(&str, SqlValue)>) -> Seq<ValView> {
    data.map_values(|p: (&str, SqlValue)| p.1@)
}

/// `INSERT INTO table (c1, c2, …) VALUES ($1, $2, …)`.
pub open spec fn insert_sql_spec(table: Seq<char>, cols: Seq<Seq<char>>) -> Seq<char> {
    "INSERT INTO "@ + table + " ("@ + join_spec(cols, ", "@) + ") VALUES ("@ + join_spec(
        placeholders(1, cols.len()),
        ", "@,
    ) + ")"@
}

/// `c1 = $1, c2 = $2, …`.
pub open spec fn set_parts(cols: Seq<Seq<char>>) -> Seq<Seq<char>> {
    Seq::new(cols.len(), |i: int| cols[i] + " = $"@ + dec((i + 1) as nat))
}

/// `UPDATE table SET c1 = $1, … [WHERE …]`.
pub open spec fn update_sql_spec(table: Seq<char>, cols: Seq<Seq<char>>, conds: Seq<CondView>) -> Seq<char> {
    "UPDATE "@ + table + " SET "@ + join_spec(set_parts(cols), ", "@) + where_clause(conds, cols.len())
}

fn data_values(data: &[(&str, SqlValue)]) -> (r: Vec<SqlValue>)
    ensures
        vals_view(r@) == data_vals(data@),
{
    let mut r: Vec<SqlValue> = Vec::new();
    let mut i: usize = 0;
    while i < data.len()
        invariant
            i <= data.len(),
            vals_view(r@) == data_vals(data@).take(i as int),
        decreases data.len() - i,
    {
        let ghost prev = r@;
        let v = data[i].1.copy();
        r.push(v);
        assert(r@ == prev.push(v));
        assert(v@ == data_vals(data@)[i as int]);
        assert(data_vals(data@).take(i + 1) =~= data_vals(data@).take(i as int).push(v@));
        assert(vals_view(r@) =~= vals_view(prev).push(v@));
        i = i + 1;
    }
    assert(data_vals(data@).take(i as int) =~= data_vals(data@));
    r
}

impl<T> QueryBuilder<T> {
    /// A parameterized `SELECT` and its values, in `$1, $2, …` order.
    pub fn to_sql(&self) -> (r: (String, Vec<SqlValue>))
        requires
            params_fit(self@),
        ensures
            r.0@ == select_sql(self@),
            vals_view(r.1@) == where_params(self@.conds),
    {
        let mut sql = owned("SELECT ");
        match &self.select_cols {
            Some(cols) => {
                let j = join_strings(cols.as_slice(), ", ");
                push_str(&mut sql, j.as_str());
            },
            None => push_str(&mut sql, "*"),
        }
        push_str(&mut sql, " FROM ");
        push_str(&mut sql, self.table.as_str());
        let mut params: Vec<SqlValue> = Vec::new();
        let w = where_sql(self.conditions.as_slice(), &mut params);
        push_str(&mut sql, w.as_str());
        let o = order_sql(self.order.as_slice());
        push_str(&mut sql, o.as_str());
        match self.limit_val {
            Some(n) => {
                push_str(&mut sql, " LIMIT ");
                push_dec(&mut sql, n as u64);
            },
            None => {},
        }
        match self.offset_val {
            Some(n) => {
                push_str(&mut sql, " OFFSET ");
                push_dec(&mut sql, n as u64);
            },
            None => {},
        }
        assert(vals_view(Seq::<SqlValue>::empty()) + where_params(self@.conds) =~= where_params(
            self@.conds,
        ));
        (sql, params)
    }

    /// `SELECT COUNT(*) FROM table [WHERE …]` and its values.
    pub fn to_count_sql(&self) -> (r: (String, Vec<SqlValue>))
        requires
            params_fit(self@),
        ensures
            r.0@ == "SELECT COUNT(*) FROM "@ + self@.table + where_clause(self@.conds, 0),
            vals_view(r.1@) == where_params(self@.conds),
    {
        let mut params: Vec<SqlValue> = Vec::new();
        let w = where_sql(self.conditions.as_slice(), &mut params);
        let mut sql = owned("SELECT COUNT(*) FROM ");
        push_str(&mut sql, self.table.as_str());
        push_str(&mut sql, w.as_str());
        assert(vals_view(Seq::<SqlValue>::empty()) + where_params(self@.conds) =~= where_params(
            self@.conds,
        ));
        (sql, params)
    }

    /// `DELETE FROM table [WHERE …]` and its values.
    pub fn to_delete_sql(&self) -> (r: (String, Vec<SqlValue>))
        requires
            params_fit(self@),
        ensures
            r.0@ == "DELETE FROM "@ + self@.table + where_clause(self@.conds, 0),
            vals_view(r.1@) == where_params(self@.conds),
    {
        let mut params: Vec<SqlValue> = Vec::new();
        let w = where_sql(self.conditions.as_slice(), &mut params);
        let mut sql = owned("DELETE FROM ");
        push_str(&mut sql, self.table.as_str());
        push_str(&mut sql, w.as_str());
        assert(vals_view(Seq::<SqlValue>::empty()) + where_params(self@.conds) =~= where_params(
            self@.conds,
        ));
        (sql, params)
    }

    /// An `INSERT INTO` statement from column-value pairs.
    pub fn insert_sql(table: &str, data: &[(&str, SqlValue)]) -> (r: (String, Vec<SqlValue>))
        ensures
            r.0@ == insert_sql_spec(table@, data_cols(data@)),
            vals_view(r.1@) == data_vals(data@),
    {
        let ghost cols = data_cols(data@);
        let ghost ph = placeholders(1, cols.len());
        let mut sql = owned("INSERT INTO ");
        push_str(&mut sql, table);
        push_str(&mut sql, " (");
        let mut i: usize = 0;
        let ghost base = sql@;
        while i < data.len()
            invariant
                i <= data.len(),
                cols == data_cols(data@),
                sql@ == base + join_spec(cols.take(i as int), ", "@),
            decreases data.len() - i,
        {
            assert(cols.take(i + 1).drop_last() =~= cols.take(i as int));
            if i > 0 {
                push_str(&mut sql, ", ");
            }
            push_str(&mut sql, data[i].0);
            i = i + 1;
        }
        assert(cols.take(i as int) =~= cols);
        push_str(&mut sql, ") VALUES (");
        let ghost base2 = sql@;
        let mut k: usize = 0;
        while k < data.len()
            invariant
                k <= data.len(),
                cols.len() == data@.len(),
                ph == placeholders(1, cols.len()),
                sql@ == base2 + join_spec(ph.take(k as int), ", "@),
            decreases data.len() - k,
        {
            assert(ph.take(k + 1).drop_last() =~= ph.take(k as int));
            if k > 0 {
                push_str(&mut sql, ", ");
            }
            push_str(&mut sql, "$");
            push_dec(&mut sql, (k + 1) as u64);
            k = k + 1;
        }
        assert(ph.take(k as int) =~= ph);
        push_str(&mut sql, ")");
        (sql, data_values(data))
    }

    /// An `UPDATE … SET … [WHERE …]` statement: the data values bind
    /// `$1…$n`, the condition values the placeholders after them.
    pub fn update_sql(table: &str, data: &[(&str, SqlValue)], conditions: &[Condition]) -> (r: (
        String,
        Vec<SqlValue>,
    ))
        requires
            data@.len() + where_params(conds_view(conditions@)).len() < usize::MAX,
        ensures
            r.0@ == update_sql_spec(table@, data_cols(data@), conds_view(conditions@)),
            vals_view(r.1@) == data_vals(data@) + where_params(conds_view(conditions@)),
    {
        let ghost cols = data_cols(data@);
        let ghost sp = set_parts(cols);
        let mut sql = owned("UPDATE ");
        push_str(&mut sql, table);
        push_str(&mut sql, " SET ");
        let ghost base = sql@;
        let mut i: usize = 0;
        while i < data.len()
            invariant
                i <= data.len(),
                cols == data_cols(data@),
                sp == set_parts(cols),
                sql@ == base + join_spec(sp.take(i as int), ", "@),
            decreases data.len() - i,
        {
            assert(sp.take(i + 1).drop_last() =~= sp.take(i as int));
            if i > 0 {
                push_str(&mut sql, ", ");
            }
            push_str(&mut sql, data[i].0);
            push_str(&mut sql, " = $");
            push_dec(&mut sql, (i + 1) as u64);
            i = i + 1;
        }
        assert(sp.take(i as int) =~= sp);
        let mut params = data_values(data);
        assert(params@.len() == vals_view(params@).len());
        let w = where_sql(conditions, &mut params);
        push_str(&mut sql, w.as_str());
        (sql, params)
    }
}


/// The snake_case form that the `heck` crate gives `s`.
pub uninterp spec fn heck_snake_case(s: Seq<char>) -> Seq<char>;

/// `heck::ToSnakeCase::to_snake_case`: the result is named, not described;
/// heck's word splitting and lowering are not stated here.
#[verifier::external_body]
pub(crate) fn heck_to_snake_case(s: &str) -> (r: String)
    ensures
        r@ == heck_snake_case(s@),
{
    heck::ToSnakeCase::to_snake_case(s)
}

/// The table a model struct maps to: its name in snake_case, plus `s`.
pub fn model_table_name(struct_name: &str) -> (r: String)
    ensures
        r@ == heck_snake_case(struct_name@) + "s"@,
{
    let mut r = heck_to_snake_case(struct_name);
    push_str(&mut r, "s");
    r
}

/// The shape of the item a model is derived for.
#[derive(Debug)]
pub enum ItemShape {
    /// A struct with named fields, in declaration order.
    NamedStruct(Vec<String>),
    /// A tuple or unit struct.
    UnnamedStruct,
    /// An enum or a union.
    NotAStruct,
}

/// What deriving a model for an item gives: its table (the struct's name in
/// snake_case, plus `s`) and its columns (the fields in declaration order);
/// an item that is not a struct with named fields is refused with the
/// reason.
pub fn model_parts(struct_name: &str, shape: ItemShape) -> (r: Result<(String, Vec<String>), String>)
    ensures
        match shape {
            ItemShape::NamedStruct(fields) => r matches Ok((t, cols)) && t@ == heck_snake_case(struct_name@) + "s"@
                && cols == fields,
            ItemShape::UnnamedStruct => r matches Err(m) && m@ == "#[derive(Model)] only supports structs with named fields"@,
            ItemShape::NotAStruct => r matches Err(m) && m@ == "#[derive(Model)] only supports structs"@,
        },
{
    match shape {
        ItemShape::NamedStruct(fields) => Ok((model_table_name(struct_name), fields)),
        ItemShape::UnnamedStruct => Err(owned("#[derive(Model)] only supports structs with named fields")),
        ItemShape::NotAStruct => Err(owned("#[derive(Model)] only supports structs")),
    }
}

/// A type stored in a table: its name, key and columns, and queries scoped to it.
pub trait Model: Sized {
    /// SQL table name (e.g. `"users"`).
    fn table_name() -> &'static str;

    /// Primary-key column.  Defaults to `"id"`.
    fn primary_key() -> (r: &'static str)
        default_ensures
            r@ == "id"@,
    {
        "id"
    }

    /// All column names in declaration order.
    fn columns() -> &'static [&'static str];

    /// A new query builder on this model's table.
    fn query() -> (q: QueryBuilder<Self>)
        ensures
            exists|t: &'static str|
                call_ensures(Self::table_name, (), t) && q@ == (QueryView {
                    table: t@,
                    cols: None,
                    conds: Seq::empty(),
                    order: Seq::empty(),
                    limit: None,
                    offset: None,
                }),
    {
        QueryBuilder::new(Self::table_name())
    }

    /// `SELECT … WHERE <pk> = $1` for the given key.
    fn find<V>(id: V) -> (q: QueryBuilder<Self>) where SqlValue: From<V>
        ensures
            exists|t: &'static str, pk: &'static str, v: SqlValue|
                call_ensures(Self::table_name, (), t) && call_ensures(Self::primary_key, (), pk)
                    && call_ensures(SqlValue::from, (id,), v) && q@ == (QueryView {
                    table: t@,
                    cols: None,
                    conds: seq![CondView::Eq(pk@, v@)],
                    order: Seq::empty(),
                    limit: None,
                    offset: None,
                }),
    {
        Self::query().where_eq(Self::primary_key(), id)
    }
}

} // verus!
