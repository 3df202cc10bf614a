use rok::orm::{model_table_name, Model, QueryBuilder, SqlValue};

pub struct User {
    pub id: i64,
    pub name: String,
    pub email: String,
}

impl Model for User {
    fn table_name() -> &'static str {
        "users"
    }
    fn columns() -> &'static [&'static str] {
        &["id", "name", "email"]
    }
}

pub struct BlogPost {
    pub id: i64,
    pub title: String,
    pub body: String,
    pub published: bool,
}

impl Model for BlogPost {
    fn table_name() -> &'static str {
        "blog_posts"
    }
    fn columns() -> &'static [&'static str] {
        &["id", "title", "body", "published"]
    }
}

pub struct OrderItem {
    pub id: i64,
    pub quantity: i32,
}

impl Model for OrderItem {
    fn table_name() -> &'static str {
        "order_items"
    }
    fn columns() -> &'static [&'static str] {
        &["id", "quantity"]
    }
}

#[test]
fn table_name_simple() {
    assert_eq!(User::table_name(), "users");
    assert_eq!(model_table_name("User"), User::table_name());
}

#[test]
fn table_name_multi_word() {
    assert_eq!(BlogPost::table_name(), "blog_posts");
    assert_eq!(OrderItem::table_name(), "order_items");
    assert_eq!(model_table_name("BlogPost"), "blog_posts");
    assert_eq!(model_table_name("OrderItem"), "order_items");
}

#[test]
fn columns_list() {
    assert_eq!(User::columns(), &["id", "name", "email"]);
    assert_eq!(BlogPost::columns(), &["id", "title", "body", "published"]);
}

#[test]
fn query_select_all() {
    let (sql, params) = User::query().to_sql();
    assert_eq!(sql, "SELECT * FROM users");
    assert!(params.is_empty());
}

#[test]
fn query_where_eq() {
    let (sql, params) = User::query().where_eq("id", 1i64).to_sql();
    assert!(sql.contains("WHERE id = $1"));
    assert_eq!(params.len(), 1);
}

#[test]
fn query_find() {
    let (sql, params) = User::find(42i64).to_sql();
    assert!(sql.contains("WHERE id = $1"));
    assert_eq!(params[0], SqlValue::Integer(42));
}

#[test]
fn query_chaining() {
    let (sql, params) = BlogPost::query()
        .where_eq("published", true)
        .where_like("title", "%rust%")
        .order_by_desc("id")
        .limit(5)
        .offset(10)
        .to_sql();
    assert!(sql.contains("FROM blog_posts"));
    assert!(sql.contains("WHERE published = $1 AND title LIKE $2"));
    assert!(sql.contains("ORDER BY id DESC"));
    assert!(sql.contains("LIMIT 5"));
    assert!(sql.contains("OFFSET 10"));
    assert_eq!(params.len(), 2);
}

#[test]
fn integration_count_sql() {
    let (sql, _) = User::query().where_not_null("email").to_count_sql();
    assert!(sql.starts_with("SELECT COUNT(*) FROM users"));
    assert!(sql.contains("email IS NOT NULL"));
}

#[test]
fn integration_insert_sql() {
    let (sql, params) = QueryBuilder::<User>::insert_sql(
        "users",
        &[("name", "Alice".into()), ("email", "alice@example.com".into())],
    );
    assert!(sql.contains("INSERT INTO users (name, email) VALUES ($1, $2)"));
    assert_eq!(
        params,
        vec![SqlValue::Text("Alice".into()), SqlValue::Text("alice@example.com".into())]
    );
}

#[test]
fn primary_key_defaults_to_id() {
    assert_eq!(User::primary_key(), "id");
    let _ = (User { id: 1, name: String::new(), email: String::new() }, OrderItem { id: 1, quantity: 2 });
    let _ = BlogPost { id: 1, title: String::new(), body: String::new(), published: true };
}

#[test]
fn model_derivation_parts() {
    let ok = rok::orm::model_parts("BlogPost", rok::orm::ItemShape::NamedStruct(vec!["id".to_string(), "title".to_string()]));
    assert_eq!(ok, Ok(("blog_posts".to_string(), vec!["id".to_string(), "title".to_string()])));
    assert_eq!(
        rok::orm::model_parts("Pair", rok::orm::ItemShape::UnnamedStruct),
        Err("#[derive(Model)] only supports structs with named fields".to_string())
    );
    assert_eq!(
        rok::orm::model_parts("Kind", rok::orm::ItemShape::NotAStruct),
        Err("#[derive(Model)] only supports structs".to_string())
    );
}
