use ulm::cli::{exit_code_from_status, Args, Commands};
use ulm::client::{normalize_base_url, parse_pull_event, pull_completed, pull_percent, GenerateRequest, PullProgress};
use ulm::config::Config;
use ulm::query::{dimension_matches, sanitize_page_content, validate_search, SearchGateError};
use ulm::response::parse_suggestions;
use ulm::selector::{bypass_action, UserAction};

#[test]
fn test_module_compiles() {
    assert!(true);
}

#[test]
fn test_parse_args_subcommands() {
    let args = Args::parse_args(vec!["setup".to_string()]);
    assert!(matches!(args.command, Some(Commands::Setup)));
    assert!(!args.has_query());

    let args = Args::parse_args(vec!["update".to_string()]);
    assert!(matches!(args.command, Some(Commands::Update)));

    let args = Args::parse_args(vec!["find".to_string(), "large".to_string(), "files".to_string()]);
    assert!(args.command.is_none());
    assert!(args.has_query());
    assert_eq!(args.query_string(), "find large files");
}

#[test]
fn test_exit_code_mapping() {
    assert_eq!(exit_code_from_status(0), 0);
    assert_eq!(exit_code_from_status(42), 42);
    assert_eq!(exit_code_from_status(255), 255);
    assert_eq!(exit_code_from_status(-1), 1);
    assert_eq!(exit_code_from_status(300), 1);
}

#[test]
fn test_stale_index_rejected_before_any_call() {
    let mut config = Config::default();
    config.models.embedding_model = "B".to_string();
    config.index.last_embedding_model = Some("A".to_string());

    let err = validate_search(true, &config).unwrap_err();
    assert_eq!(
        err,
        SearchGateError::IndexStale {
            old_model: "A".to_string(),
            new_model: "B".to_string()
        }
    );
}

#[test]
fn test_missing_index_rejected() {
    let config = Config::default();
    assert_eq!(
        validate_search(false, &config).unwrap_err(),
        SearchGateError::IndexMissing
    );
}

#[test]
fn test_unknown_fingerprint_rejected() {
    let config = Config::default();
    assert_eq!(
        validate_search(true, &config).unwrap_err(),
        SearchGateError::FingerprintUnknown
    );
}

#[test]
fn test_matching_fingerprint_accepted() {
    let mut config = Config::default();
    config.update_index_metadata(768);
    assert!(validate_search(true, &config).is_ok());
    assert!(dimension_matches(config.index_dimension(), 768));
    assert!(!dimension_matches(config.index_dimension(), 512));
    assert!(!dimension_matches(None, 768));
}

#[test]
fn test_single_suggestion_auto_exec() {
    let raw = r#"{"suggestions":[{"command":"echo hi","title":"t","explanation":"e","risk_level":"safe"}]}"#;
    let suggestions = parse_suggestions(raw).unwrap();
    match bypass_action(&suggestions) {
        Some(UserAction::Execute(cmd)) => {
            assert_eq!(cmd, "echo hi");
            assert_eq!(exit_code_from_status(0), 0);
        }
        _ => panic!("Expected direct execution of the single suggestion"),
    }
}

#[test]
fn test_sanitize_strips_escapes_and_collapses() {
    let raw = "LS(1)\x1b[1m   NAME\x1b[0m\n\n\n   ls  -  list";
    let cleaned = sanitize_page_content(raw);
    assert_eq!(cleaned, "LS(1) NAME\nls - list");
}

#[test]
fn test_sanitize_truncates_long_pages() {
    let raw = "z".repeat(10_000);
    let cleaned = sanitize_page_content(&raw);
    assert!(cleaned.len() <= 8000 + "\n\n[Content truncated...]".len());
    assert!(cleaned.ends_with("[Content truncated...]"));
}

#[test]
fn test_normalize_base_url() {
    assert_eq!(normalize_base_url("http://custom:8080/"), "http://custom:8080");
    assert_eq!(normalize_base_url("http://custom:8080///"), "http://custom:8080");
    assert_eq!(normalize_base_url("http://localhost:11434"), "http://localhost:11434");
}

#[test]
fn test_generate_request_format() {
    let with_json = GenerateRequest::new("llama3".to_string(), "Hello".to_string(), true);
    assert!(!with_json.stream);
    assert_eq!(with_json.format.as_deref(), Some("json"));

    let plain = GenerateRequest::new("llama3".to_string(), "Hello".to_string(), false);
    assert!(plain.format.is_none());
}

#[test]
fn test_pull_progress_deserialization() {
    let line = r#"{"status": "downloading", "digest": "sha256:abc123", "total": 2000000000, "completed": 500000000}"#;
    let progress = parse_pull_event(line).unwrap();

    assert_eq!(progress.status, "downloading");
    assert_eq!(progress.digest, Some("sha256:abc123".to_string()));
    assert_eq!(progress.total, Some(2_000_000_000));
    assert_eq!(progress.completed, Some(500_000_000));
    assert_eq!(pull_percent(500_000_000, 2_000_000_000), 25);
}

#[test]
fn test_pull_progress_minimal() {
    let progress = parse_pull_event(r#"{"status": "success"}"#).unwrap();
    assert_eq!(progress.status, "success");
    assert_eq!(progress.digest, None);
    assert_eq!(progress.total, None);
    assert_eq!(progress.completed, None);
    assert!(progress.is_success());
}

#[test]
fn test_parse_pull_event_rejects_garbage() {
    assert!(parse_pull_event("not json").is_none());
    assert!(parse_pull_event(r#"{"digest": "x"}"#).is_none());
}

#[test]
fn test_pull_completed_needs_success_event() {
    let events = vec![
        PullProgress { status: "pulling manifest".to_string(), digest: None, total: None, completed: None },
        PullProgress { status: "success".to_string(), digest: None, total: None, completed: None },
    ];
    assert!(pull_completed(&events));
    assert!(!pull_completed(&events[..1].to_vec()));
}
