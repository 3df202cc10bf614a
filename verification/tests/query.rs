use rok::orm::{Condition, QueryBuilder, SqlValue};

#[test]
fn simple_select() {
    let (sql, params) = QueryBuilder::<()>::new("users").to_sql();
    assert_eq!(sql, "SELECT * FROM users");
    assert!(params.is_empty());
}

#[test]
fn where_eq_generates_param() {
    let (sql, params) = QueryBuilder::<()>::new("users").where_eq("id", 42i64).to_sql();
    assert!(sql.contains("WHERE id = $1"));
    assert_eq!(params.len(), 1);
    assert_eq!(params[0], SqlValue::Integer(42));
}

#[test]
fn multiple_conditions() {
    let (sql, params) = QueryBuilder::<()>::new("posts")
        .where_eq("active", true)
        .where_like("title", "%rust%")
        .to_sql();
    assert!(sql.contains("WHERE active = $1 AND title LIKE $2"));
    assert_eq!(params.len(), 2);
}

#[test]
fn order_limit_offset() {
    let (sql, _) = QueryBuilder::<()>::new("users")
        .order_by_desc("created_at")
        .order_by("name")
        .limit(10)
        .offset(20)
        .to_sql();
    assert!(sql.contains("ORDER BY created_at DESC, name ASC"));
    assert!(sql.contains("LIMIT 10"));
    assert!(sql.contains("OFFSET 20"));
}

#[test]
fn query_count_sql() {
    let (sql, _) = QueryBuilder::<()>::new("users").where_eq("active", true).to_count_sql();
    assert!(sql.starts_with("SELECT COUNT(*) FROM users"));
}

#[test]
fn delete_sql() {
    let (sql, params) = QueryBuilder::<()>::new("sessions").where_eq("user_id", 5i64).to_delete_sql();
    assert!(sql.contains("DELETE FROM sessions WHERE user_id = $1"));
    assert_eq!(params.len(), 1);
}

#[test]
fn query_insert_sql() {
    let (sql, params) = QueryBuilder::<()>::insert_sql(
        "users",
        &[("name", "Alice".into()), ("email", "a@a.com".into())],
    );
    assert!(sql.contains("INSERT INTO users (name, email) VALUES ($1, $2)"));
    assert_eq!(params.len(), 2);
}

#[test]
fn where_in() {
    let (sql, params) = QueryBuilder::<()>::new("users").where_in("id", vec![1i64, 2, 3]).to_sql();
    assert!(sql.contains("id IN ($1, $2, $3)"));
    assert_eq!(params.len(), 3);
}

#[test]
fn select_specific_columns() {
    let (sql, _) = QueryBuilder::<()>::new("users").select(&["id", "email"]).to_sql();
    assert!(sql.starts_with("SELECT id, email FROM users"));
}

// ── further cases ────────────────────────────────────────────────────────────

#[test]
fn doc_example_full_statement() {
    let (sql, params) = QueryBuilder::<()>::new("users")
        .where_eq("active", true)
        .where_like("email", "%@example.com")
        .order_by_desc("created_at")
        .limit(20)
        .offset(40)
        .to_sql();
    assert_eq!(
        sql,
        "SELECT * FROM users WHERE active = $1 AND email LIKE $2 ORDER BY created_at DESC LIMIT 20 OFFSET 40"
    );
    assert_eq!(params, vec![SqlValue::Bool(true), SqlValue::Text("%@example.com".to_string())]);
}

#[test]
fn every_comparison_operator() {
    let (sql, params) = QueryBuilder::<()>::new("t")
        .where_ne("a", 1i64)
        .where_gt("b", 2i64)
        .where_gte("c", 3i64)
        .where_lt("d", 4i64)
        .where_lte("e", 5i64)
        .where_null("f")
        .where_raw("g > h")
        .where_in("i", vec![6i64, 7])
        .to_sql();
    assert_eq!(
        sql,
        "SELECT * FROM t WHERE a != $1 AND b > $2 AND c >= $3 AND d < $4 AND e <= $5 AND f IS NULL AND g > h AND i IN ($6, $7)"
    );
    assert_eq!(params.len(), 7);
    assert_eq!(params[6], SqlValue::Integer(7));
}

#[test]
fn update_sql_numbers_conditions_after_data() {
    let (sql, params) = QueryBuilder::<()>::update_sql(
        "users",
        &[("name", "Bob".into()), ("age", 30i64.into())],
        &[Condition::Eq("id".to_string(), SqlValue::Integer(9)), Condition::IsNotNull("email".to_string())],
    );
    assert_eq!(sql, "UPDATE users SET name = $1, age = $2 WHERE id = $3 AND email IS NOT NULL");
    assert_eq!(
        params,
        vec![SqlValue::Text("Bob".to_string()), SqlValue::Integer(30), SqlValue::Integer(9)]
    );
    let (sql, _) = QueryBuilder::<()>::update_sql("users", &[("name", "Bob".into())], &[]);
    assert_eq!(sql, "UPDATE users SET name = $1");
}

#[test]
fn param_sql_of_one_condition() {
    let (frag, ps) = Condition::In("x".to_string(), vec![SqlValue::Null]).to_param_sql(4);
    assert_eq!(frag, "x IN ($4)");
    assert_eq!(ps, vec![SqlValue::Null]);
    let (frag, ps) = Condition::Like("n".to_string(), "a%".to_string()).to_param_sql(1);
    assert_eq!(frag, "n LIKE $1");
    assert_eq!(ps, vec![SqlValue::Text("a%".to_string())]);
}

#[test]
fn values_from_plain_types() {
    assert_eq!(SqlValue::from(3i32), SqlValue::Integer(3));
    assert_eq!(SqlValue::from("x".to_string()), SqlValue::Text("x".to_string()));
    assert_eq!(SqlValue::from(false), SqlValue::Bool(false));
}
