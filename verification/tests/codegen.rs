use rok::codegen::{dto_template, group_columns, model_file_name, model_vars, pg_type_to_rust, scaffold_plan, skip_notice};
use rok::json::Json;

#[test]
fn pg_types() {
    assert_eq!(pg_type_to_rust("integer", false), "i32");
    assert_eq!(pg_type_to_rust("bigint", true), "Option<i64>");
    assert_eq!(pg_type_to_rust("character varying", false), "String");
    assert_eq!(pg_type_to_rust("timestamp with time zone", false), "chrono::DateTime<chrono::Utc>");
    assert_eq!(pg_type_to_rust("jsonb", true), "Option<serde_json::Value>");
    assert_eq!(pg_type_to_rust("numeric", false), "f64");
    assert_eq!(pg_type_to_rust("geometry", false), "String");
}

fn row(t: &str, c: &str, ty: &str, n: &str) -> (String, String, String, String) {
    (t.to_string(), c.to_string(), ty.to_string(), n.to_string())
}

#[test]
fn columns_grouped_by_table() {
    let rows = vec![
        row("users", "id", "integer", "NO"),
        row("_rok_migrations", "version", "bigint", "NO"),
        row("posts", "id", "bigint", "NO"),
        row("users", "email", "text", "YES"),
    ];
    let g = group_columns(&rows);
    assert_eq!(g.len(), 2);
    assert_eq!(g[0].0, "users");
    assert_eq!(g[0].1, vec![("id".to_string(), "i32".to_string()), ("email".to_string(), "Option<String>".to_string())]);
    assert_eq!(g[1].0, "posts");
    assert_eq!(g[1].1, vec![("id".to_string(), "i64".to_string())]);
}

#[test]
fn model_context() {
    let v = model_vars("User", &[("id".to_string(), "i64".to_string())]);
    assert_eq!(v.get_key("name").and_then(|n| match n { Json::Str(s) => Some(s.clone()), _ => None }), Some("User".to_string()));
    let fields = v.get_key("fields").unwrap();
    let first = fields.get_index(0).unwrap();
    assert!(matches!(first.get_key("type"), Some(Json::Str(t)) if t == "i64"));
    assert!(fields.get_index(1).is_none());
}

#[test]
fn dto_source() {
    let d = dto_template("UserRequest");
    assert!(d.starts_with("use serde::{Deserialize, Serialize};\n\n/// Data Transfer Object for `UserRequest`."));
    assert!(d.contains("pub struct UserRequest {\n    pub name: String,\n}\n"));
}

#[test]
fn file_names_and_skips() {
    assert_eq!(model_file_name("BlogPost"), "blog_post.rs");
    assert_eq!(skip_notice("src/a.rs", true, false), Some("  skip  src/a.rs (use --force to overwrite)".to_string()));
    assert_eq!(skip_notice("src/a.rs", true, true), None);
    assert_eq!(skip_notice("src/a.rs", false, false), None);
}

#[test]
fn scaffold_files() {
    let p = scaffold_plan("blog post", true, "src");
    let paths: Vec<&str> = p.files.iter().map(|f| f.path.as_str()).collect();
    assert_eq!(
        paths,
        vec!["src/models/blog_post.rs", "src/handlers/blog_post.rs", "src/repositories/blog_post_repository.rs", "migrations/0001_create_blog_posts.sql"]
    );
    let templates: Vec<&str> = p.files.iter().map(|f| f.template.as_str()).collect();
    assert_eq!(templates, vec!["model", "handler", "repository", "migration"]);
    assert!(matches!(p.files[3].vars.get_key("created_at"), Some(Json::Str(s)) if s == "{{now}}"));
    assert_eq!(p.summary[0], "\nCRUD scaffold generated for `BlogPost`:");
    assert_eq!(p.summary[3], "  src/repositories/blog_post_repository.rs");
    assert_eq!(p.summary.len(), 7);
    let q = scaffold_plan("User", false, "out/");
    assert_eq!(q.files[0].path, "out/models/user.rs");
    assert_eq!(q.summary, vec!["Scaffold generated for `User` (pass --crud for full CRUD handlers).".to_string()]);
}
