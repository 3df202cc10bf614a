//! Code generation for the rok ecosystem's generator tools: the Rust type a
//! PostgreSQL column becomes, the models read off a database's columns, the
//! context a model template is rendered with, DTO sources and the files a
//! CRUD scaffold consists of.
//!
//! Rendering templates, querying the database and writing files are the
//! tools' part.
use crate::json::{entries_map, json_views, lemma_views_push, obj_insert, Json, JsonView};
use crate::orm::{heck_snake_case, heck_to_snake_case};
use crate::text::{owned, push_str, same_text, starts_with_spec, starts_with_str};
use vstd::prelude::*;

verus! {

// ---------------------------------------------------------------------------
// column types
// ---------------------------------------------------------------------------

/// The Rust type of a PostgreSQL `data_type`; unknown types read as text.
pub open spec fn pg_base(t: Seq<char>) -> Seq<char> {
    if t == "integer"@ || t == "int"@ || t == "int4"@ {
        "i32"@
    } else if t == "bigint"@ || t == "int8"@ {
        "i64"@
    } else if t == "smallint"@ || t == "int2"@ {
        "i16"@
    } else if t == "boolean"@ {
        "bool"@
    } else if t == "real"@ || t == "float4"@ {
        "f32"@
    } else if t == "double precision"@ || t == "float8"@ || t == "numeric"@ || t == "decimal"@ {
        "f64"@
    } else if t == "bytea"@ {
        "Vec<u8>"@
    } else if t == "uuid"@ {
        "uuid::Uuid"@
    } else if t == "timestamp with time zone"@ {
        "chrono::DateTime<chrono::Utc>"@
    } else if t == "timestamp without time zone"@ || t == "timestamp"@ {
        "chrono::NaiveDateTime"@
    } else if t == "date"@ {
        "chrono::NaiveDate"@
    } else if t == "time without time zone"@ || t == "time"@ {
        "chrono::NaiveTime"@
    } else if t == "json"@ || t == "jsonb"@ {
        "serde_json::Value"@
    } else {
        "String"@
    }
}

/// The Rust type of a column: its base type, in `Option` when nullable.
pub open spec fn pg_rust(t: Seq<char>, nullable: bool) -> Seq<char> {
    if nullable {
        "Option<"@ + pg_base(t) + ">"@
    } else {
        pg_base(t)
    }
}

/// The Rust types a column can get, told apart by their text.
proof fn lemma_rust_types_distinct()
    ensures
        "bool"@ != "i32"@ && "bool"@ != "i64"@ && "bool"@ != "i16"@ && "bool"@ != "f32"@ && "bool"@ != "f64"@,
        "bool"@ != "Vec<u8>"@ && "bool"@ != "uuid::Uuid"@ && "bool"@ != "chrono::DateTime<chrono::Utc>"@,
        "bool"@ != "chrono::NaiveDateTime"@ && "bool"@ != "chrono::NaiveDate"@,
        "bool"@ != "chrono::NaiveTime"@ && "bool"@ != "serde_json::Value"@ && "bool"@ != "String"@,
{
    reveal_strlit("bool");
    reveal_strlit("i32");
    reveal_strlit("i64");
    reveal_strlit("i16");
    reveal_strlit("f32");
    reveal_strlit("f64");
    reveal_strlit("Vec<u8>");
    reveal_strlit("uuid::Uuid");
    reveal_strlit("chrono::DateTime<chrono::Utc>");
    reveal_strlit("chrono::NaiveDateTime");
    reveal_strlit("chrono::NaiveDate");
    reveal_strlit("chrono::NaiveTime");
    reveal_strlit("serde_json::Value");
    reveal_strlit("String");
    assert("bool"@.len() == 4);
    assert("i32"@.len() == 3 && "i64"@.len() == 3 && "i16"@.len() == 3 && "f32"@.len() == 3 && "f64"@.len() == 3);
    assert("Vec<u8>"@.len() == 7 && "uuid::Uuid"@.len() == 10 && "chrono::DateTime<chrono::Utc>"@.len() == 29);
    assert("chrono::NaiveDateTime"@.len() == 21 && "chrono::NaiveDate"@.len() == 17);
    assert("chrono::NaiveTime"@.len() == 17 && "serde_json::Value"@.len() == 17 && "String"@.len() == 6);
}

/// `boolean` is none of the PostgreSQL type names looked at before it.
proof fn lemma_boolean_name()
    ensures
        "boolean"@ != "integer"@ && "boolean"@ != "int"@ && "boolean"@ != "int4"@,
        "boolean"@ != "bigint"@ && "boolean"@ != "int8"@ && "boolean"@ != "smallint"@ && "boolean"@ != "int2"@,
{
    reveal_strlit("boolean");
    reveal_strlit("integer");
    reveal_strlit("int");
    reveal_strlit("int4");
    reveal_strlit("bigint");
    reveal_strlit("int8");
    reveal_strlit("smallint");
    reveal_strlit("int2");
    assert("boolean"@.len() == 7 && "integer"@.len() == 7 && "int"@.len() == 3 && "int4"@.len() == 4);
    assert("bigint"@.len() == 6 && "int8"@.len() == 4 && "smallint"@.len() == 8 && "int2"@.len() == 4);
    assert("boolean"@[0] != "integer"@[0]);
}

/// A column becomes `bool` exactly when its PostgreSQL type is `boolean`,
/// and `Option<bool>` when that column is nullable.
pub proof fn lemma_pg_boolean(t: Seq<char>, nullable: bool)
    ensures
        (pg_base(t) == "bool"@) <==> t == "boolean"@,
        pg_rust("boolean"@, nullable) == if nullable {
            "Option<bool>"@
        } else {
            "bool"@
        },
{
    lemma_rust_types_distinct();
    lemma_boolean_name();
    reveal_strlit("Option<bool>");
    reveal_strlit("Option<");
    reveal_strlit(">");
    reveal_strlit("bool");
    assert("Option<"@ + "bool"@ + ">"@ =~= "Option<bool>"@);
}

/// The Rust type each PostgreSQL type name the generator knows becomes;
/// text types, like every name it does not know, become `String`.
pub proof fn lemma_pg_type_table()
    ensures
        pg_base("integer"@) == "i32"@,
        pg_base("int"@) == "i32"@,
        pg_base("int4"@) == "i32"@,
        pg_base("bigint"@) == "i64"@,
        pg_base("int8"@) == "i64"@,
        pg_base("smallint"@) == "i16"@,
        pg_base("int2"@) == "i16"@,
        pg_base("boolean"@) == "bool"@,
        pg_base("real"@) == "f32"@,
        pg_base("float4"@) == "f32"@,
        pg_base("double precision"@) == "f64"@,
        pg_base("float8"@) == "f64"@,
        pg_base("numeric"@) == "f64"@,
        pg_base("decimal"@) == "f64"@,
        pg_base("bytea"@) == "Vec<u8>"@,
        pg_base("uuid"@) == "uuid::Uuid"@,
        pg_base("timestamp with time zone"@) == "chrono::DateTime<chrono::Utc>"@,
        pg_base("timestamp without time zone"@) == "chrono::NaiveDateTime"@,
        pg_base("timestamp"@) == "chrono::NaiveDateTime"@,
        pg_base("date"@) == "chrono::NaiveDate"@,
        pg_base("time without time zone"@) == "chrono::NaiveTime"@,
        pg_base("time"@) == "chrono::NaiveTime"@,
        pg_base("json"@) == "serde_json::Value"@,
        pg_base("jsonb"@) == "serde_json::Value"@,
        pg_base("text"@) == "String"@,
{
    reveal_strlit("integer");
    reveal_strlit("int");
    reveal_strlit("int4");
    reveal_strlit("bigint");
    reveal_strlit("int8");
    reveal_strlit("smallint");
    reveal_strlit("int2");
    reveal_strlit("boolean");
    reveal_strlit("real");
    reveal_strlit("float4");
    reveal_strlit("double precision");
    reveal_strlit("float8");
    reveal_strlit("numeric");
    reveal_strlit("decimal");
    reveal_strlit("bytea");
    reveal_strlit("uuid");
    reveal_strlit("timestamp with time zone");
    reveal_strlit("timestamp without time zone");
    reveal_strlit("timestamp");
    reveal_strlit("date");
    reveal_strlit("time without time zone");
    reveal_strlit("time");
    reveal_strlit("json");
    reveal_strlit("jsonb");
    reveal_strlit("text");
    assert("integer"@.len() == 7);
    assert("int"@.len() == 3);
    assert("int4"@.len() == 4);
    assert("bigint"@.len() == 6);
    assert("int8"@.len() == 4);
    assert("smallint"@.len() == 8);
    assert("int2"@.len() == 4);
    assert("boolean"@.len() == 7);
    assert("real"@.len() == 4);
    assert("float4"@.len() == 6);
    assert("double precision"@.len() == 16);
    assert("float8"@.len() == 6);
    assert("numeric"@.len() == 7);
    assert("decimal"@.len() == 7);
    assert("bytea"@.len() == 5);
    assert("uuid"@.len() == 4);
    assert("timestamp with time zone"@.len() == 24);
    assert("timestamp without time zone"@.len() == 27);
    assert("timestamp"@.len() == 9);
    assert("date"@.len() == 4);
    assert("time without time zone"@.len() == 22);
    assert("time"@.len() == 4);
    assert("json"@.len() == 4);
    assert("jsonb"@.len() == 5);
    assert("text"@.len() == 4);
    assert("integer"@[0] != "boolean"@[0]);
    assert("integer"@[0] != "numeric"@[0]);
    assert("integer"@[0] != "decimal"@[0]);
    assert("int4"@[3] != "int8"@[3]);
    assert("int4"@[3] != "int2"@[3]);
    assert("int4"@[0] != "real"@[0]);
    assert("int4"@[0] != "uuid"@[0]);
    assert("int4"@[0] != "date"@[0]);
    assert("int4"@[0] != "time"@[0]);
    assert("int4"@[0] != "json"@[0]);
    assert("int4"@[0] != "text"@[0]);
    assert("bigint"@[0] != "float4"@[0]);
    assert("bigint"@[0] != "float8"@[0]);
    assert("int8"@[3] != "int2"@[3]);
    assert("int8"@[0] != "real"@[0]);
    assert("int8"@[0] != "uuid"@[0]);
    assert("int8"@[0] != "date"@[0]);
    assert("int8"@[0] != "time"@[0]);
    assert("int8"@[0] != "json"@[0]);
    assert("int8"@[0] != "text"@[0]);
    assert("int2"@[0] != "real"@[0]);
    assert("int2"@[0] != "uuid"@[0]);
    assert("int2"@[0] != "date"@[0]);
    assert("int2"@[0] != "time"@[0]);
    assert("int2"@[0] != "json"@[0]);
    assert("int2"@[0] != "text"@[0]);
    assert("boolean"@[0] != "numeric"@[0]);
    assert("boolean"@[0] != "decimal"@[0]);
    assert("real"@[0] != "uuid"@[0]);
    assert("real"@[0] != "date"@[0]);
    assert("real"@[0] != "time"@[0]);
    assert("real"@[0] != "json"@[0]);
    assert("real"@[0] != "text"@[0]);
    assert("float4"@[5] != "float8"@[5]);
    assert("numeric"@[0] != "decimal"@[0]);
    assert("bytea"@[0] != "jsonb"@[0]);
    assert("uuid"@[0] != "date"@[0]);
    assert("uuid"@[0] != "time"@[0]);
    assert("uuid"@[0] != "json"@[0]);
    assert("uuid"@[0] != "text"@[0]);
    assert("date"@[0] != "time"@[0]);
    assert("date"@[0] != "json"@[0]);
    assert("date"@[0] != "text"@[0]);
    assert("time"@[0] != "json"@[0]);
    assert("time"@[1] != "text"@[1]);
    assert("json"@[0] != "text"@[0]);
}

/// A nullable column's Rust type is its non-nullable type in `Option<..>`.
pub proof fn lemma_pg_rust_nullable(t: Seq<char>)
    ensures
        pg_rust(t, true) == "Option<"@ + pg_rust(t, false) + ">"@,
{
}

fn is_one_of(t: &str, a: &str, b: &str) -> (r: bool)
    ensures
        r == (t@ == a@ || t@ == b@),
{
    same_text(t, a) || same_text(t, b)
}

fn pg_base_of(t: &str) -> (r: &'static str)
    ensures
        r@ == pg_base(t@),
{
    if is_one_of(t, "integer", "int") || same_text(t, "int4") {
        "i32"
    } else if is_one_of(t, "bigint", "int8") {
        "i64"
    } else if is_one_of(t, "smallint", "int2") {
        "i16"
    } else if same_text(t, "boolean") {
        "bool"
    } else if is_one_of(t, "real", "float4") {
        "f32"
    } else if is_one_of(t, "double precision", "float8") || is_one_of(t, "numeric", "decimal") {
        "f64"
    } else if same_text(t, "bytea") {
        "Vec<u8>"
    } else if same_text(t, "uuid") {
        "uuid::Uuid"
    } else if same_text(t, "timestamp with time zone") {
        "chrono::DateTime<chrono::Utc>"
    } else if is_one_of(t, "timestamp without time zone", "timestamp") {
        "chrono::NaiveDateTime"
    } else if same_text(t, "date") {
        "chrono::NaiveDate"
    } else if is_one_of(t, "time without time zone", "time") {
        "chrono::NaiveTime"
    } else if is_one_of(t, "json", "jsonb") {
        "serde_json::Value"
    } else {
        "String"
    }
}

/// The Rust type name of a PostgreSQL column type; a nullable column's type
/// is wrapped in `Option<..>`.
pub fn pg_type_to_rust(pg_type: &str, nullable: bool) -> (r: String)
    ensures
        r@ == pg_rust(pg_type@, nullable),
{
    let base = pg_base_of(pg_type);
    if nullable {
        let mut r = owned("Option<");
        push_str(&mut r, base);
        push_str(&mut r, ">");
        r
    } else {
        owned(base)
    }
}

// ---------------------------------------------------------------------------
// models from a database's columns
// ---------------------------------------------------------------------------

/// A column as the database describes it: table, column, data type and
/// whether it is nullable (`"YES"`).
pub type ColumnRow = (String, String, String, String);

pub type GroupView = (Seq<char>, Seq<(Seq<char>, Seq<char>)>);

pub open spec fn row_view(r: ColumnRow) -> (Seq<char>, Seq<char>, Seq<char>, Seq<char>) {
    (r.0@, r.1@, r.2@, r.3@)
}

pub open spec fn group_view(g: (String, Vec<(String, String)>)) -> GroupView {
    (g.0@, crate::text::pair_views(g.1@))
}

pub open spec fn group_views(s: Seq<(String, Vec<(String, String)>)>) -> Seq<GroupView> {
    s.map_values(|g: (String, Vec<(String, String)>)| group_view(g))
}

/// The position of the table's group, or -1.
pub open spec fn find_group(groups: Seq<GroupView>, table: Seq<char>) -> int
    decreases groups.len(),
{
    if groups.len() == 0 {
        -1
    } else if find_group(groups.drop_last(), table) >= 0 {
        find_group(groups.drop_last(), table)
    } else if groups.last().0 == table {
        groups.len() - 1
    } else {
        -1
    }
}

/// Adds a column to its table's group, opening the group at the end when
/// the table is new.
pub open spec fn add_column(groups: Seq<GroupView>, table: Seq<char>, col: (Seq<char>, Seq<char>)) -> Seq<GroupView> {
    let i = find_group(groups, table);
    if i < 0 {
        groups.push((table, seq![col]))
    } else {
        groups.update(i, (table, groups[i].1.push(col)))
    }
}

/// The models the columns make: one per table in order of first appearance,
/// its columns in order with their Rust types; rok's own `_rok_` tables are
/// left out.
pub open spec fn grouped(rows: Seq<(Seq<char>, Seq<char>, Seq<char>, Seq<char>)>) -> Seq<GroupView>
    decreases rows.len(),
{
    if rows.len() == 0 {
        Seq::empty()
    } else {
        let g = grouped(rows.drop_last());
        let r = rows.last();
        if starts_with_spec(r.0, "_rok_"@) {
            g
        } else {
            add_column(g, r.0, (r.1, pg_rust(r.2, r.3 == "YES"@)))
        }
    }
}

proof fn lemma_find_group(groups: Seq<GroupView>, table: Seq<char>)
    ensures
        -1 <= find_group(groups, table) < groups.len(),
        find_group(groups, table) >= 0 ==> groups[find_group(groups, table)].0 == table,
        find_group(groups, table) >= 0 ==> forall|j: int| 0 <= j < find_group(groups, table) ==> groups[j].0 != table,
        find_group(groups, table) < 0 ==> forall|j: int| 0 <= j < groups.len() ==> groups[j].0 != table,
    decreases groups.len(),
{
    if groups.len() > 0 {
        let d = groups.drop_last();
        lemma_find_group(d, table);
        assert(forall|j: int| 0 <= j < d.len() ==> d[j] == groups[j]);
    }
}

/// The models read off a database: one per table, no table twice, none of
/// rok's own `_rok_` tables, and none without columns.
pub open spec fn groups_wf(g: Seq<GroupView>) -> bool {
    &&& forall|i: int, j: int| 0 <= i < j < g.len() ==> g[i].0 != g[j].0
    &&& forall|i: int| 0 <= i < g.len() ==> !starts_with_spec(#[trigger] g[i].0, "_rok_"@)
    &&& forall|i: int| 0 <= i < g.len() ==> (#[trigger] g[i]).1.len() > 0
}

/// Grouping a database's columns gives one model per table, never one of
/// rok's own tables, each with at least one column.
pub proof fn lemma_grouped_wf(rows: Seq<(Seq<char>, Seq<char>, Seq<char>, Seq<char>)>)
    ensures
        groups_wf(grouped(rows)),
    decreases rows.len(),
{
    if rows.len() > 0 {
        let g = grouped(rows.drop_last());
        lemma_grouped_wf(rows.drop_last());
        lemma_find_group(g, rows.last().0);
    }
}

/// The position of a table's group, searched from the front.
fn group_position(groups: &Vec<(String, Vec<(String, String)>)>, table: &str) -> (r: Option<usize>)
    ensures
        match r {
            Some(i) => i < groups@.len() && i as int == find_group(group_views(groups@), table@)
                && groups@[i as int].0@ == table@,
            None => find_group(group_views(groups@), table@) < 0,
        },
{
    proof {
        lemma_find_group(group_views(groups@), table@);
    }
    let mut i: usize = 0;
    while i < groups.len()
        invariant
            i <= groups@.len(),
            -1 <= find_group(group_views(groups@), table@) < groups@.len(),
            find_group(group_views(groups@), table@) >= 0 ==> group_views(groups@)[find_group(group_views(groups@), table@)].0 == table@,
            find_group(group_views(groups@), table@) >= 0 ==> forall|j: int| 0 <= j < find_group(group_views(groups@), table@) ==> group_views(groups@)[j].0 != table@,
            find_group(group_views(groups@), table@) < 0 ==> forall|j: int| 0 <= j < groups@.len() ==> group_views(groups@)[j].0 != table@,
            forall|j: int| 0 <= j < i ==> group_views(groups@)[j].0 != table@,
        decreases groups.len() - i,
    {
        if same_text(groups[i].0.as_str(), table) {
            assert(group_views(groups@)[i as int].0 == table@);
            return Some(i);
        }
        i = i + 1;
    }
    None
}

/// Groups a database's columns into models: one per table, in the order
/// tables first appear, with each column's Rust type; tables whose names
/// start with `_rok_` are rok's own and are skipped.
pub fn group_columns(rows: &[ColumnRow]) -> (r: Vec<(String, Vec<(String, String)>)>)
    ensures
        group_views(r@) == grouped(rows@.map_values(|x: ColumnRow| row_view(x))),
{
    let ghost rv = rows@.map_values(|x: ColumnRow| row_view(x));
    let mut groups: Vec<(String, Vec<(String, String)>)> = Vec::new();
    let mut i: usize = 0;
    assert(rv.take(0) =~= Seq::<(Seq<char>, Seq<char>, Seq<char>, Seq<char>)>::empty());
    while i < rows.len()
        invariant
            i <= rows@.len(),
            rv == rows@.map_values(|x: ColumnRow| row_view(x)),
            group_views(groups@) == grouped(rv.take(i as int)),
        decreases rows.len() - i,
    {
        let row = &rows[i];
        assert(rv.take(i + 1).drop_last() =~= rv.take(i as int));
        assert(rv.take(i + 1).last() == row_view(*row));
        if !starts_with_str(row.0.as_str(), "_rok_") {
            let ty = pg_type_to_rust(row.2.as_str(), same_text(row.3.as_str(), "YES"));
            let col = (row.1.clone(), ty);
            let ghost colv = (col.0@, col.1@);
            let ghost before = group_views(groups@);
            match group_position(&groups, row.0.as_str()) {
                Some(p) => {
                    let ghost gs = groups@;
                    let mut g = groups.remove(p);
                    let ghost gb = g.1@;
                    g.1.push(col);
                    assert(crate::text::pair_views(g.1@) =~= crate::text::pair_views(gb).push(colv));
                    groups.insert(p, g);
                    assert(groups@ =~= gs.update(p as int, g));
                    assert(group_views(groups@) =~= before.update(p as int, (row.0@, before[p as int].1.push(colv))));
                },
                None => {
                    let mut cols: Vec<(String, String)> = Vec::new();
                    cols.push(col);
                    assert(crate::text::pair_views(cols@) =~= seq![colv]);
                    groups.push((row.0.clone(), cols));
                    assert(group_views(groups@) =~= before.push((row.0@, seq![colv])));
                },
            }
        }
        i = i + 1;
    }
    assert(rv.take(rows@.len() as int) =~= rv);
    groups
}

// ---------------------------------------------------------------------------
// template contexts and sources
// ---------------------------------------------------------------------------

/// The context a typed model template is rendered with: the struct's name
/// and its fields, each with a name and a type.
pub open spec fn model_context(name: Seq<char>, fields: Seq<(Seq<char>, Seq<char>)>) -> JsonView {
    JsonView::Object(
        map![
            "name"@ => JsonView::Str(name),
            "fields"@ => JsonView::Array(fields.map_values(|f: (Seq<char>, Seq<char>)| field_context(f))),
        ],
    )
}

pub open spec fn field_context(f: (Seq<char>, Seq<char>)) -> JsonView {
    JsonView::Object(map!["name"@ => JsonView::Str(f.0), "type"@ => JsonView::Str(f.1)])
}

fn field_json(name: &str, ty: &str) -> (r: Json)
    ensures
        r@ == field_context((name@, ty@)),
{
    let mut e: Vec<(String, Json)> = Vec::new();
    assert(entries_map(e@) =~= Map::<Seq<char>, JsonView>::empty());
    obj_insert(&mut e, "name", Json::string(name));
    obj_insert(&mut e, "type", Json::string(ty));
    let r = Json::Object(e);
    assert(r@ == JsonView::Object(entries_map(e@)));
    assert(entries_map(e@) =~= map!["name"@ => JsonView::Str(name@), "type"@ => JsonView::Str(ty@)]);
    r
}

/// The context for rendering a model with these fields (name, type).
pub fn model_vars(name: &str, fields: &[(String, String)]) -> (r: Json)
    ensures
        r@ == model_context(name@, crate::text::pair_views(fields@)),
{
    let ghost fv = crate::text::pair_views(fields@);
    let mut items: Vec<Json> = Vec::new();
    let mut i: usize = 0;
    while i < fields.len()
        invariant
            i <= fields@.len(),
            fv == crate::text::pair_views(fields@),
            json_views(items@) == fv.take(i as int).map_values(|f: (Seq<char>, Seq<char>)| field_context(f)),
        decreases fields.len() - i,
    {
        let f = field_json(fields[i].0.as_str(), fields[i].1.as_str());
        proof {
            lemma_views_push(items@, f);
        }
        items.push(f);
        assert(fv.take(i + 1).map_values(|f: (Seq<char>, Seq<char>)| field_context(f)) =~= fv.take(
            i as int,
        ).map_values(|f: (Seq<char>, Seq<char>)| field_context(f)).push(field_context(fv[i as int])));
        i = i + 1;
    }
    assert(fv.take(fields@.len() as int) =~= fv);
    let mut e: Vec<(String, Json)> = Vec::new();
    assert(entries_map(e@) =~= Map::<Seq<char>, JsonView>::empty());
    obj_insert(&mut e, "name", Json::string(name));
    obj_insert(&mut e, "fields", Json::Array(items));
    let r = Json::Object(e);
    assert(entries_map(e@) =~= map![
        "name"@ => JsonView::Str(name@),
        "fields"@ => JsonView::Array(fv.map_values(|f: (Seq<char>, Seq<char>)| field_context(f))),
    ]);
    r
}

/// The source of a DTO struct with a single `name` field.
pub open spec fn dto_source(name: Seq<char>) -> Seq<char> {
    "use serde::{Deserialize, Serialize};\n\n/// Data Transfer Object for `"@ + name
        + "`.\n#[derive(Debug, Clone, Serialize, Deserialize)]\npub struct "@ + name
        + " {\n    pub name: String,\n}\n"@
}

/// The source of a DTO struct named `name`.
pub fn dto_template(name: &str) -> (r: String)
    ensures
        r@ == dto_source(name@),
{
    let mut r = owned("use serde::{Deserialize, Serialize};\n\n/// Data Transfer Object for `");
    push_str(&mut r, name);
    push_str(&mut r, "`.\n#[derive(Debug, Clone, Serialize, Deserialize)]\npub struct ");
    push_str(&mut r, name);
    push_str(&mut r, " {\n    pub name: String,\n}\n");
    r
}

/// The file a model is written to: its name in snake_case, `.rs`.
pub fn model_file_name(name: &str) -> (r: String)
    ensures
        r@ == heck_snake_case(name@) + ".rs"@,
{
    let mut r = heck_to_snake_case(name);
    push_str(&mut r, ".rs");
    r
}

/// What is printed for a file that exists and is not to be overwritten;
/// `None` when the file is to be written.
pub fn skip_notice(dest: &str, exists: bool, force: bool) -> (r: Option<String>)
    ensures
        r is Some <==> (exists && !force),
        r matches Some(m) ==> m@ == "  skip  "@ + dest@ + " (use --force to overwrite)"@,
{
    if exists && !force {
        let mut m = owned("  skip  ");
        push_str(&mut m, dest);
        push_str(&mut m, " (use --force to overwrite)");
        Some(m)
    } else {
        None
    }
}

// ---------------------------------------------------------------------------
// CRUD scaffolds
// ---------------------------------------------------------------------------

/// The UpperCamelCase form that the `heck` crate gives `s`.
pub uninterp spec fn heck_upper_camel(s: Seq<char>) -> Seq<char>;

/// `heck::ToUpperCamelCase::to_upper_camel_case`: the result is named, not
/// described; heck's word splitting and capitalising are not stated here.
#[verifier::external_body]
pub(crate) fn heck_to_upper_camel_case(s: &str) -> (r: String)
    ensures
        r@ == heck_upper_camel(s@),
{
    heck::ToUpperCamelCase::to_upper_camel_case(s)
}

/// A path with a relative one put after it (`Path::join` on Unix): an
/// absolute `rel` replaces the base, and a separator is added unless the
/// base is empty or already ends in one.
pub open spec fn join_path(base: Seq<char>, rel: Seq<char>) -> Seq<char> {
    if rel.len() > 0 && rel[0] == '/' {
        rel
    } else if base.len() == 0 || base.last() == '/' {
        base + rel
    } else {
        base + "/"@ + rel
    }
}

fn join(base: &str, rel: &str) -> (r: String)
    ensures
        r@ == join_path(base@, rel@),
{
    let rc = crate::text::chars_of(rel);
    if rc.len() > 0 && rc[0] == '/' {
        return owned(rel);
    }
    let bc = crate::text::chars_of(base);
    let mut r = owned(base);
    if bc.len() > 0 && bc[bc.len() - 1] != '/' {
        push_str(&mut r, "/");
    }
    push_str(&mut r, rel);
    r
}

/// A file of a scaffold: where it goes, the template it is rendered from
/// and the context it is rendered with.
#[derive(Debug)]
pub struct PlannedFile {
    pub path: String,
    pub template: String,
    pub vars: Json,
}

/// What a scaffold consists of, and what is printed once it is written.
#[derive(Debug)]
pub struct ScaffoldPlan {
    pub files: Vec<PlannedFile>,
    pub summary: Vec<String>,
}

pub open spec fn planned_view(f: PlannedFile) -> (Seq<char>, Seq<char>, JsonView) {
    (f.path@, f.template@, f.vars@)
}

/// The fields every scaffolded model starts with.
pub open spec fn base_fields() -> JsonView {
    JsonView::Array(seq![JsonView::Str("name"@), JsonView::Str("created_at"@)])
}

/// The files of a scaffold for the model `pascal` (`snake` in snake_case)
/// under the source directory `out`: model, handler, repository, and the
/// migration (under `migrations/`).
pub open spec fn scaffold_files(pascal: Seq<char>, snake: Seq<char>, out: Seq<char>) -> Seq<(Seq<char>, Seq<char>, JsonView)> {
    seq![
        (
            join_path(join_path(out, "models"@), snake + ".rs"@),
            "model"@,
            JsonView::Object(map!["name"@ => JsonView::Str(pascal), "fields"@ => base_fields()]),
        ),
        (
            join_path(join_path(out, "handlers"@), snake + ".rs"@),
            "handler"@,
            JsonView::Object(map!["name"@ => JsonView::Str(pascal)]),
        ),
        (
            join_path(join_path(out, "repositories"@), snake + "_repository.rs"@),
            "repository"@,
            JsonView::Object(map!["name"@ => JsonView::Str(pascal)]),
        ),
        (
            join_path("migrations"@, "0001_create_"@ + snake + "s.sql"@),
            "migration"@,
            JsonView::Object(
                map![
                    "name"@ => JsonView::Str(pascal),
                    "created_at"@ => JsonView::Str("{{now}}"@),
                    "fields"@ => base_fields(),
                ],
            ),
        ),
    ]
}

/// The lines printed after a scaffold is written.
pub open spec fn scaffold_summary(pascal: Seq<char>, snake: Seq<char>, out: Seq<char>, crud: bool) -> Seq<Seq<char>> {
    if crud {
        seq![
            "\nCRUD scaffold generated for `"@ + pascal + "`:"@,
            "  "@ + out + "/models/"@ + snake + ".rs"@,
            "  "@ + out + "/handlers/"@ + snake + ".rs"@,
            "  "@ + out + "/repositories/"@ + snake + "_repository.rs"@,
            "  migrations/0001_create_"@ + snake + "s.sql"@,
            Seq::empty(),
            "Next steps:\n  1. Add the handler routes to your Router\n  2. Run `rok-migrate up`"@,
        ]
    } else {
        seq!["Scaffold generated for `"@ + pascal + "` (pass --crud for full CRUD handlers)."@]
    }
}

fn name_only(pascal: &str) -> (r: Vec<(String, Json)>)
    ensures
        entries_map(r@) == map!["name"@ => JsonView::Str(pascal@)],
{
    let mut e: Vec<(String, Json)> = Vec::new();
    assert(entries_map(e@) =~= Map::<Seq<char>, JsonView>::empty());
    obj_insert(&mut e, "name", Json::string(pascal));
    assert(entries_map(e@) =~= map!["name"@ => JsonView::Str(pascal@)]);
    e
}

fn base_fields_json() -> (r: Json)
    ensures
        r@ == base_fields(),
{
    let mut a: Vec<Json> = Vec::new();
    let x = Json::string("name");
    proof {
        lemma_views_push(a@, x);
    }
    a.push(x);
    let y = Json::string("created_at");
    proof {
        lemma_views_push(a@, y);
    }
    a.push(y);
    assert(json_views(a@) =~= seq![JsonView::Str("name"@), JsonView::Str("created_at"@)]);
    Json::Array(a)
}

fn line(parts: &[&str]) -> (r: String)
    ensures
        r@ == parts@.map_values(|p: &str| p@).fold_left(Seq::<char>::empty(), |acc: Seq<char>, x: Seq<char>| acc + x),
{
    let ghost ps = parts@.map_values(|p: &str| p@);
    let mut r = String::new();
    let mut i: usize = 0;
    while i < parts.len()
        invariant
            i <= parts@.len(),
            ps == parts@.map_values(|p: &str| p@),
            r@ == ps.take(i as int).fold_left(Seq::<char>::empty(), |acc: Seq<char>, x: Seq<char>| acc + x),
        decreases parts.len() - i,
    {
        push_str(&mut r, parts[i]);
        assert(ps.take(i + 1).drop_last() =~= ps.take(i as int));
        i = i + 1;
    }
    assert(ps.take(parts@.len() as int) =~= ps);
    r
}

/// The scaffold for a model named `name` (put in UpperCamelCase) under the
/// source directory `output`: its four files, and the summary printed
/// afterwards, which lists the files when `crud` is asked for.
pub fn scaffold_plan(name: &str, crud: bool, output: &str) -> (r: ScaffoldPlan)
    ensures
        r.files@.map_values(|f: PlannedFile| planned_view(f)) == scaffold_files(
            heck_upper_camel(name@),
            heck_snake_case(heck_upper_camel(name@)),
            output@,
        ),
        crate::text::views(r.summary@) == scaffold_summary(
            heck_upper_camel(name@),
            heck_snake_case(heck_upper_camel(name@)),
            output@,
            crud,
        ),
{
    let pascal = heck_to_upper_camel_case(name);
    let snake = heck_to_snake_case(pascal.as_str());
    let p = pascal.as_str();
    let sn = snake.as_str();

    let mut files: Vec<PlannedFile> = Vec::new();

    let mut model_file = owned(sn);
    push_str(&mut model_file, ".rs");
    let mut mv = name_only(p);
    obj_insert(&mut mv, "fields", base_fields_json());
    assert(entries_map(mv@) =~= map!["name"@ => JsonView::Str(pascal@), "fields"@ => base_fields()]);
    let models_dir = join(output, "models");
    files.push(PlannedFile { path: join(models_dir.as_str(), model_file.as_str()), template: owned("model"), vars: Json::Object(mv) });

    let handlers_dir = join(output, "handlers");
    files.push(PlannedFile {
        path: join(handlers_dir.as_str(), model_file.as_str()),
        template: owned("handler"),
        vars: Json::Object(name_only(p)),
    });

    let mut repo_file = owned(sn);
    push_str(&mut repo_file, "_repository.rs");
    let repos_dir = join(output, "repositories");
    files.push(PlannedFile {
        path: join(repos_dir.as_str(), repo_file.as_str()),
        template: owned("repository"),
        vars: Json::Object(name_only(p)),
    });

    let mut mig_file = owned("0001_create_");
    push_str(&mut mig_file, sn);
    push_str(&mut mig_file, "s.sql");
    let mut gv = name_only(p);
    obj_insert(&mut gv, "created_at", Json::string("{{now}}"));
    obj_insert(&mut gv, "fields", base_fields_json());
    assert(entries_map(gv@) =~= map![
        "name"@ => JsonView::Str(pascal@),
        "created_at"@ => JsonView::Str("{{now}}"@),
        "fields"@ => base_fields(),
    ]);
    files.push(PlannedFile { path: join("migrations", mig_file.as_str()), template: owned("migration"), vars: Json::Object(gv) });

    assert(files@.map_values(|f: PlannedFile| planned_view(f)) =~= scaffold_files(pascal@, snake@, output@));

    let mut summary: Vec<String> = Vec::new();
    if crud {
        summary.push(line(&["\nCRUD scaffold generated for `", p, "`:"]));
        summary.push(line(&["  ", output, "/models/", sn, ".rs"]));
        summary.push(line(&["  ", output, "/handlers/", sn, ".rs"]));
        summary.push(line(&["  ", output, "/repositories/", sn, "_repository.rs"]));
        summary.push(line(&["  migrations/0001_create_", sn, "s.sql"]));
        summary.push(String::new());
        summary.push(owned("Next steps:\n  1. Add the handler routes to your Router\n  2. Run `rok-migrate up`"));
    } else {
        summary.push(line(&["Scaffold generated for `", p, "` (pass --crud for full CRUD handlers)."]));
    }
    proof {
        reveal_with_fuel(Seq::fold_left, 6);
    }
    assert(crate::text::views(summary@) =~= scaffold_summary(pascal@, snake@, output@, crud));
    ScaffoldPlan { files, summary }
}

} // verus!
