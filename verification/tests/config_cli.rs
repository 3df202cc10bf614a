use rok::cli::{stdin_payload, Cli, OutputFormat, PayloadSource};
use rok::config::Config;
use rok::error::ExitCode;
use rok::refs::substitute_env_vars;
use rok::schema::Options;

fn options(cwd: &str, env: Vec<(String, String)>) -> Options {
    Options { cwd: cwd.to_string(), stop_on_error: true, timeout_ms: 30000, env, cache: false, cache_dir: None }
}

#[test]
fn test_config_from_options_nonexistent_dir() {
    let options = options("/nonexistent/path/that/does/not/exist", vec![]);
    let config = Config::from_options(options, false, false, vec![]);
    assert!(config.is_err());
    let err = config.unwrap_err();
    assert!(err.message.contains("Working directory does not exist"));
    assert!(err.code == ExitCode::StartupError);
}

#[test]
fn config_refuses_a_file() {
    let config = Config::from_options(options("/tmp/test.txt", vec![]), true, false, vec![]);
    let err = config.unwrap_err();
    assert_eq!(err.message, "Working directory is not a directory: /tmp/test.txt");
}

#[test]
fn test_config_merges_env_vars() {
    let custom = vec![("CUSTOM_VAR".to_string(), "custom_value".to_string())];
    let process = vec![
        ("PATH".to_string(), "/bin".to_string()),
        ("CUSTOM_VAR".to_string(), "from_process".to_string()),
    ];
    let config = Config::from_options(options(".", custom), true, true, process).unwrap();
    assert_eq!(config.cwd, ".");
    assert_eq!(config.env_get("CUSTOM_VAR"), Some("custom_value".to_string()));
    assert_eq!(config.env_get("PATH"), Some("/bin".to_string()));
    assert_eq!(config.env_get("MISSING"), None);
}

#[test]
fn payload_sources() {
    let mut cli = Cli { command: None, json: Some("{}".to_string()), file: Some("t.json".to_string()), output: OutputFormat::Json, dry_run: false, verbose: false };
    assert_eq!(cli.payload_source(), PayloadSource::Inline("{}".to_string()));
    cli.json = None;
    assert_eq!(cli.payload_source(), PayloadSource::File("t.json".to_string()));
    cli.file = None;
    assert_eq!(cli.payload_source(), PayloadSource::Stdin);
}

#[test]
fn blank_stdin_is_refused() {
    let e = stdin_payload("  \n\t".to_string()).unwrap_err();
    assert_eq!(e.message, "No input provided. Use --json, --file, or pipe JSON to stdin.");
    assert!(e.code == ExitCode::SchemaError);
    assert_eq!(stdin_payload(" {} ".to_string()).unwrap(), " {} ");
}

#[test]
fn test_substitute_env_vars() {
    let env = vec![("ROK_TEST_VAR".to_string(), "test_value".to_string())];
    let result = substitute_env_vars("Value: {{env.ROK_TEST_VAR}}", &env);
    assert_eq!(result, "Value: test_value");
}

#[test]
fn test_substitute_env_vars_missing() {
    let result = substitute_env_vars("Value: {{env.NONEXISTENT_VAR_12345}}", &[]);
    assert_eq!(result, "Value: {{env.NONEXISTENT_VAR_12345}}");
}

#[test]
fn env_placeholders_edge_cases() {
    let env = vec![("A".to_string(), "1".to_string()), ("A".to_string(), "2".to_string())];
    assert_eq!(substitute_env_vars("{{env.A}}{{env.A}}", &env), "22");
    assert_eq!(substitute_env_vars("{{env.}} {{env.A-}} {{env.A}", &env), "{{env.}} {{env.A-}} {{env.A}");
    assert_eq!(substitute_env_vars("x{{{env.A}}}", &env), "x{2}");
    assert_eq!(substitute_env_vars("no placeholders", &env), "no placeholders");
}

#[test]
fn test_config_from_options_valid() {
    let options = options("/tmp/rok-temp-dir", vec![]);
    let config = Config::from_options(options, true, true, vec![]);
    assert!(config.is_ok());
    let config = config.unwrap();
    assert_eq!(config.cwd, "/tmp/rok-temp-dir");
    assert_eq!(config.options.timeout_ms, 30000);
}

#[test]
fn test_get_stats_empty_cache() {
    let stats = rok::cache::get_stats("/tmp/rok-cache", true, true, &[]);
    assert_eq!(stats.total_entries, 0);
    assert_eq!(stats.total_size_bytes, 0);
}

#[test]
fn test_get_stats_disabled() {
    let listing = vec![rok::cache::CacheEntry { path: "/tmp/rok-cache/a.json".to_string(), size: Some(10), modified_secs: Some(0) }];
    let stats = rok::cache::get_stats("/tmp/rok-cache", false, true, &listing);
    assert!(!stats.enabled);
    assert_eq!(stats.total_entries, 0);
}
