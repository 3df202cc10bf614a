use rok::cache::{get_default_cache_dir, get_stats, is_cache_file, CacheEntry};
use rok::error::{ExitCode, RokError, StepError};
use rok::option_ext::OptionExt;
use rok::progress::{status_icon, ProgressReporter};
use rok::refs::substitute_vars;
use rok::schema::{Options, Step};
use rok::test_env::TestEnv;

#[test]
fn none_becomes_error() {
    let r = None::<i32>.context("missing value");
    assert!(r.is_err());
    assert_eq!(r.unwrap_err().to_string(), "missing value");
}

#[test]
fn some_passes_through() {
    let r = Some(42).context("unreachable");
    assert_eq!(r.unwrap(), 42);
}

#[test]
fn with_context_builds_message_lazily() {
    let r = None::<u8>.with_context(|| format!("no {}", "value"));
    assert_eq!(r.unwrap_err().to_string(), "no value");
    let r = Some(7u8).with_context(|| panic!("must not be called"));
    assert_eq!(r.unwrap(), 7);
}

#[test]
fn test_step_get_id() {
    let step = Step::Bash {
        id: "my-step".to_string(),
        depends_on: vec![],
        cmd: "echo hello".to_string(),
        timeout_ms: None,
        retry: None,
    };
    assert_eq!(step.get_id(), "my-step");
}

#[test]
fn test_step_get_depends_on() {
    let step = Step::Bash {
        id: "step2".to_string(),
        depends_on: vec!["step1".to_string()],
        cmd: "echo hello".to_string(),
        timeout_ms: None,
        retry: None,
    };
    assert_eq!(step.get_depends_on(), &["step1".to_string()]);
}

#[test]
fn test_default_options() {
    let options = Options::default();
    assert_eq!(options.cwd, ".");
    assert!(options.stop_on_error);
    assert_eq!(options.timeout_ms, 30000);
    assert!(!options.cache);
    assert!(options.cache_dir.is_none());
}

#[test]
fn test_config_default_cwd() {
    let options = Options::default();
    assert_eq!(options.cwd, ".");
}

#[test]
fn test_substitute_vars_simple() {
    let result = substitute_vars("Hello {{name}}!", "name", "World");
    assert_eq!(result, "Hello World!");
}

#[test]
fn test_substitute_vars_multiple() {
    let mut result = "{{greeting}} {{name}}!".to_string();
    result = substitute_vars(&result, "greeting", "Hello");
    result = substitute_vars(&result, "name", "Alice");
    assert_eq!(result, "Hello Alice!");
}

#[test]
fn substitute_vars_replaces_every_occurrence() {
    assert_eq!(substitute_vars("{{x}}-{{x}}-{x}", "x", "1"), "1-1-{x}");
    assert_eq!(substitute_vars("no placeholders", "x", "1"), "no placeholders");
}

#[test]
fn exit_codes_map_to_process_status() {
    let codes = [
        (ExitCode::Success, 0),
        (ExitCode::Partial, 1),
        (ExitCode::SchemaError, 2),
        (ExitCode::StartupError, 3),
        (ExitCode::Timeout, 4),
        (ExitCode::ConfigError, 5),
        (ExitCode::IoError, 6),
    ];
    for (code, n) in codes {
        assert_eq!(i32::from(code), n);
    }
}

#[test]
fn rok_error_text_and_constructors() {
    let e = RokError::schema("bad payload");
    assert_eq!(e.code, ExitCode::SchemaError);
    assert_eq!(e.to_string(), "bad payload");
    let e = e.with_context("step 3");
    assert_eq!(e.to_string(), "bad payload (context: step 3)");
    assert_eq!(RokError::startup("x").code, ExitCode::StartupError);
    assert_eq!(RokError::config("x").code, ExitCode::ConfigError);
    assert_eq!(RokError::io("x").code, ExitCode::IoError);
    assert_eq!(RokError::timeout("x").code, ExitCode::Timeout);
    assert_eq!(RokError::new(ExitCode::Partial, "x").context, None);
}

#[test]
fn step_error_text() {
    assert_eq!(StepError::new(4, "boom").to_string(), "Step 4: boom");
    assert_eq!(
        StepError::with_id(2, "build".to_string(), "failed").to_string(),
        "Step 'build' (index 2): failed"
    );
}

#[test]
fn progress_reporter_counts_and_renders() {
    let mut p = ProgressReporter::new(3);
    assert_eq!(p.report(0, "build", "ok"), "[1/3] ✓ build");
    assert_eq!(p.report(1, "test", "error"), "[2/3] ✗ test");
    assert_eq!(p.report(2, "deploy", "skipped"), "[3/3] ⊘ deploy");
    assert_eq!(p.current, 3);
    assert_eq!(status_icon("weird"), "•");
}

#[test]
fn progress_counter_wraps_like_an_atomic() {
    let mut p = ProgressReporter { current: usize::MAX, total: 1 };
    let line = p.report(0, "x", "ok");
    assert_eq!(p.current, 0);
    assert_eq!(line, "[0/1] ✓ x");
}

#[test]
fn default_cache_dir() {
    assert_eq!(get_default_cache_dir(), ".rok/cache");
}

#[test]
fn cache_files_are_json_files() {
    assert!(is_cache_file("/tmp/cache/abc.json"));
    assert!(is_cache_file("x.tar.json"));
    assert!(!is_cache_file("other.txt"));
    assert!(!is_cache_file(".json"));
    assert!(!is_cache_file("json"));
}

fn entry(path: &str, size: Option<u64>, secs: Option<u64>) -> CacheEntry {
    CacheEntry { path: path.to_string(), size, modified_secs: secs }
}

#[test]
fn cache_stats_over_listing() {
    let listing = vec![
        entry("c/a.json", Some(10), Some(1_431_648_000)),
        entry("c/b.txt", Some(1000), Some(0)),
        entry("c/c.json", Some(5), Some(0)),
        entry("c/d.json", None, None),
    ];
    let s = get_stats("c", true, true, &listing);
    assert!(s.enabled);
    assert_eq!(s.cache_dir, "c");
    assert_eq!(s.total_entries, 3);
    assert_eq!(s.total_size_bytes, 15);
    assert_eq!(s.oldest_entry.as_deref(), Some("1970-01-01T00:00:00+00:00"));
    assert_eq!(s.newest_entry.as_deref(), Some("2015-05-15T00:00:00+00:00"));
}

#[test]
fn cache_stats_disabled_or_missing() {
    let listing = vec![entry("a.json", Some(10), Some(1))];
    let s = get_stats("c", false, true, &listing);
    assert!(!s.enabled);
    assert_eq!(s.total_entries, 0);
    let s = get_stats("c", true, false, &listing);
    assert_eq!(s.total_entries, 0);
    assert_eq!(s.total_size_bytes, 0);
    assert!(s.oldest_entry.is_none());
}

#[test]
fn test_env_keeps_first_original() {
    let mut env = TestEnv::new();
    assert!(env.remember("A", Some("1".to_string())));
    assert!(env.remember("B", None));
    assert!(!env.remember("A", Some("changed".to_string())));
    let o = env.originals();
    assert_eq!(o.len(), 2);
    assert_eq!(o[0], ("A".to_string(), Some("1".to_string())));
    assert_eq!(o[1], ("B".to_string(), None));
}
