use rok::migrate::{parse_content, parse_filename, Direction, MigrateError, Migration, Migrator};

fn make() -> Migrator {
    let mut m = Migrator::new();
    m.add(Migration::new(1, "create_users", "CREATE TABLE users (id INT);", None))
        .unwrap();
    m.add(Migration::new(2, "add_email", "ALTER TABLE users ADD email TEXT;", None))
        .unwrap();
    m.add(Migration::new(3, "add_index", "CREATE INDEX ON users(email);", None))
        .unwrap();
    m
}

#[test]
fn pending_all_when_none_applied() {
    let m = make();
    assert_eq!(m.pending(&[]).len(), 3);
}

#[test]
fn pending_skips_applied() {
    let m = make();
    let p = m.pending(&[1, 3]);
    assert_eq!(p.len(), 1);
    assert_eq!(p[0].version, 2);
}

#[test]
fn duplicate_version_rejected() {
    let mut m = Migrator::new();
    m.add(Migration::new(1, "a", "SQL;", None)).unwrap();
    let err = m.add(Migration::new(1, "b", "SQL;", None));
    assert!(matches!(err, Err(MigrateError::DuplicateVersion(1))));
}

#[test]
fn migrator_sorted_by_version() {
    let mut m = Migrator::new();
    m.add(Migration::new(3, "c", "SQL;", None)).unwrap();
    m.add(Migration::new(1, "a", "SQL;", None)).unwrap();
    m.add(Migration::new(2, "b", "SQL;", None)).unwrap();
    let versions: Vec<u64> = m.all().iter().map(|m| m.version).collect();
    assert_eq!(versions, vec![1, 2, 3]);
}

#[test]
fn history_table_sql_has_version_col() {
    assert!(Migrator::history_table_sql().contains("version"));
    assert!(Migrator::history_table_sql().contains("_rok_migrations"));
}

#[test]
fn plan_up_returns_pending_in_order() {
    let m = make();
    let plans = m.plan_up(&[1]);
    assert_eq!(plans.len(), 2);
    assert_eq!(plans[0].migration.version, 2);
    assert_eq!(plans[1].migration.version, 3);
    assert!(plans[0].sql.contains("ALTER TABLE"));
    assert!(plans[0].sql.contains("INSERT INTO _rok_migrations"));
    assert!(matches!(plans[0].direction, Direction::Up));
}

#[test]
fn plan_down_returns_applied_in_reverse() {
    let mut m = Migrator::new();
    m.add(Migration::new(1, "a", "CREATE TABLE a;", Some("DROP TABLE a;".to_string())))
        .unwrap();
    m.add(Migration::new(2, "b", "CREATE TABLE b;", Some("DROP TABLE b;".to_string())))
        .unwrap();
    let plans = m.plan_down(&[1, 2], None).unwrap();
    assert_eq!(plans.len(), 2);
    assert_eq!(plans[0].migration.version, 2);
    assert_eq!(plans[1].migration.version, 1);
    assert!(plans[0].sql.contains("DROP TABLE b"));
    assert!(plans[0].sql.contains("DELETE FROM _rok_migrations"));
    assert!(matches!(plans[0].direction, Direction::Down));
}

#[test]
fn plan_down_steps_limits_count() {
    let mut m = Migrator::new();
    m.add(Migration::new(1, "a", "SQL;", Some("SQL;".to_string()))).unwrap();
    m.add(Migration::new(2, "b", "SQL;", Some("SQL;".to_string()))).unwrap();
    m.add(Migration::new(3, "c", "SQL;", Some("SQL;".to_string()))).unwrap();
    let plans = m.plan_down(&[1, 2, 3], Some(1)).unwrap();
    assert_eq!(plans.len(), 1);
    assert_eq!(plans[0].migration.version, 3);
}

#[test]
fn plan_down_errors_on_irreversible() {
    let mut m = Migrator::new();
    m.add(Migration::new(1, "a", "SQL;", None)).unwrap();
    let err = m.plan_down(&[1], None);
    assert!(matches!(err, Err(MigrateError::Irreversible(1))));
}

// ── further cases ────────────────────────────────────────────────────────────

#[test]
fn lib_doc_example_pending() {
    let mut m = Migrator::new();
    m.add(Migration::new(1, "create_users", "CREATE TABLE users (id INT);", Some("DROP TABLE users;".to_string())))
        .unwrap();
    m.add(Migration::new(2, "add_email", "ALTER TABLE users ADD email TEXT;", None)).unwrap();
    assert_eq!(m.pending(&[]).len(), 2);
    let p = m.pending(&[1]);
    assert_eq!(p.len(), 1);
    assert_eq!(p[0].version, 2);
    assert_eq!(m.applied(&[1]).len(), 1);
}

#[test]
fn record_sql_exact_and_quotes_escaped() {
    let m = Migration::new(7, "it's", "SQL;", None);
    assert_eq!(
        Migrator::record_sql(&m),
        "INSERT INTO _rok_migrations (version, name) VALUES (7, 'it''s');"
    );
    assert_eq!(Migrator::revert_record_sql(42), "DELETE FROM _rok_migrations WHERE version = 42;");
}

#[test]
fn plan_sql_exact() {
    let mut m = Migrator::new();
    m.add(Migration::new(10, "t", "CREATE TABLE t;", Some("DROP TABLE t;".to_string())))
        .unwrap();
    let up = m.plan_up(&[]);
    assert_eq!(
        up[0].sql,
        "CREATE TABLE t;\nINSERT INTO _rok_migrations (version, name) VALUES (10, 't');"
    );
    let down = m.plan_down(&[10], None).unwrap();
    assert_eq!(down[0].sql, "DROP TABLE t;\nDELETE FROM _rok_migrations WHERE version = 10;");
}

#[test]
fn plan_down_irreversible_reports_first_target() {
    let mut m = Migrator::new();
    m.add(Migration::new(1, "a", "SQL;", None)).unwrap();
    m.add(Migration::new(2, "b", "SQL;", Some("UNDO;".to_string()))).unwrap();
    m.add(Migration::new(3, "c", "SQL;", None)).unwrap();
    assert!(matches!(m.plan_down(&[1, 2, 3], None), Err(MigrateError::Irreversible(3))));
    // only the newest one is targeted, and it is reversible
    let mut m2 = Migrator::new();
    m2.add(Migration::new(1, "a", "SQL;", None)).unwrap();
    m2.add(Migration::new(2, "b", "SQL;", Some("UNDO;".to_string()))).unwrap();
    assert_eq!(m2.plan_down(&[1, 2], Some(1)).unwrap().len(), 1);
}

#[test]
fn nothing_pending_after_applying_all() {
    let m = make();
    let mut applied = vec![2u64];
    for p in m.pending(&applied) {
        applied.push(p.version);
    }
    assert!(m.pending(&applied).is_empty());
}

#[test]
fn label_and_messages() {
    let m = Migration::new(3, "add_index", "x", None);
    assert_eq!(m.label(), "0003_add_index");
    assert_eq!(Migration::new(12345, "big", "x", None).label(), "12345_big");
    assert!(!m.is_reversible());
    assert_eq!(MigrateError::DuplicateVersion(4).message(), "duplicate migration version 4");
    assert_eq!(
        MigrateError::InvalidFilename("x.sql".to_string()).message(),
        "invalid migration filename `x.sql`: expected `{version}_{name}.sql`"
    );
    assert_eq!(MigrateError::NotFound(9).message(), "migration version 9 not found");
}

#[test]
fn parse_filename_cases() {
    let (v, n) = parse_filename("0001_create_users", "m/0001_create_users.sql").unwrap();
    assert_eq!(v, 1);
    assert_eq!(n, "create_users");
    assert!(matches!(parse_filename("abc_x", "p"), Err(MigrateError::InvalidFilename(p)) if p == "p"));
    assert!(parse_filename("_x", "p").is_err());
    assert!(parse_filename("12_", "p").is_err());
    assert!(parse_filename("12", "p").is_err());
    assert_eq!(parse_filename("+5_a_b", "p").unwrap(), (5, "a_b".to_string()));
    assert!(parse_filename("99999999999999999999_x", "p").is_err());
}

#[test]
fn parse_content_cases() {
    let (up, down) =
        parse_content("-- UP\nCREATE TABLE users (id INT);\n\n-- DOWN\nDROP TABLE users;\n");
    assert_eq!(up, "CREATE TABLE users (id INT);");
    assert_eq!(down.as_deref(), Some("DROP TABLE users;"));
    let (up, down) = parse_content("CREATE INDEX ON users(email);");
    assert_eq!(up, "CREATE INDEX ON users(email);");
    assert!(down.is_none());
    let (up, down) = parse_content("  SELECT 1;\n-- DOWN\n  \n");
    assert_eq!(up, "SELECT 1;");
    assert!(down.is_none());
}

fn file(name: &str, content: &str) -> (String, String) {
    (format!("migrations/{name}"), content.to_string())
}

#[test]
fn loads_up_and_down() {
    let files = vec![file("0001_create_users.sql", "-- UP\nCREATE TABLE users (id INT);\n\n-- DOWN\nDROP TABLE users;\n")];
    let ms = rok::migrate::load_migrations(&files).unwrap();
    assert_eq!(ms.len(), 1);
    assert_eq!(ms[0].version, 1);
    assert_eq!(ms[0].name, "create_users");
    assert!(ms[0].up_sql.contains("CREATE TABLE"));
    assert!(ms[0].down_sql.as_deref().unwrap().contains("DROP TABLE"));
}

#[test]
fn loads_up_only() {
    let files = vec![file("0002_add_index.sql", "CREATE INDEX ON users(email);")];
    let ms = rok::migrate::load_migrations(&files).unwrap();
    assert_eq!(ms[0].version, 2);
    assert!(ms[0].down_sql.is_none());
}

#[test]
fn loader_sorted_by_version() {
    let files = vec![file("0003_c.sql", "-- c"), file("0001_a.sql", "-- a"), file("0002_b.sql", "-- b")];
    let ms = rok::migrate::load_migrations(&files).unwrap();
    let versions: Vec<u64> = ms.iter().map(|m| m.version).collect();
    assert_eq!(versions, vec![1, 2, 3]);
}

#[test]
fn non_sql_files_ignored() {
    let files = vec![file("0001_init.sql", "SELECT 1;"), file("README.md", "# migrations")];
    let ms = rok::migrate::load_migrations(&files).unwrap();
    assert_eq!(ms.len(), 1);
}

#[test]
fn empty_dir_returns_empty() {
    let ms = rok::migrate::load_migrations(&[]).unwrap();
    assert!(ms.is_empty());
}

#[test]
fn bad_migration_file_name_is_refused() {
    let files = vec![file("0001_ok.sql", "x"), file("init.sql", "y")];
    match rok::migrate::load_migrations(&files) {
        Err(rok::migrate::MigrateError::InvalidFilename(p)) => assert_eq!(p, "migrations/init.sql"),
        other => panic!("unexpected: {:?}", other.map(|v| v.len())),
    }
    assert!(rok::migrate::is_migration_file("a/b/0001_x.sql"));
    assert!(!rok::migrate::is_migration_file("a/b/notes.md"));
}

#[test]
fn equal_versions_keep_their_order() {
    let files = vec![file("0002_b.sql", "b"), file("0001_first.sql", "1"), file("0001_second.sql", "2")];
    let ms = rok::migrate::load_migrations(&files).unwrap();
    let names: Vec<&str> = ms.iter().map(|m| m.name.as_str()).collect();
    assert_eq!(names, vec!["first", "second", "b"]);
}
