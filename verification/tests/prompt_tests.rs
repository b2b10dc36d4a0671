use ulm::context::{DirectoryContext, ProjectType};
use ulm::prompt::{build_prompt, MAX_PROMPT_LENGTH};
use ulm::text::{truncate_at_boundary, truncate_content};

fn test_context() -> DirectoryContext {
    DirectoryContext {
        project_type: Some(ProjectType::Rust),
        marker_files: vec!["Cargo.toml".to_string()],
        cwd: "/home/user/project".to_string(),
    }
}

#[test]
fn test_build_prompt_contains_all_parts() {
    let context = test_context();
    let prompt = build_prompt("find large files", "NAME\n    find - search", &context);

    assert!(prompt.contains("command-line expert"));
    assert!(prompt.contains("find large files"));
    assert!(prompt.contains("NAME\n    find - search"));
    assert!(prompt.contains("Rust"));
    assert!(prompt.contains("JSON"));
}

#[test]
fn test_build_prompt_json_format() {
    let context = test_context();
    let prompt = build_prompt("test", "content", &context);

    assert!(prompt.contains("suggestions"));
    assert!(prompt.contains("command"));
    assert!(prompt.contains("risk_level"));
}

#[test]
fn test_build_prompt_truncation() {
    let context = test_context();
    let long_content = "x".repeat(100_000);
    let prompt = build_prompt("query", &long_content, &context);

    assert!(prompt.len() <= MAX_PROMPT_LENGTH + 100);
    assert!(prompt.contains("[Content truncated"));
}

#[test]
fn test_build_prompt_keeps_query_verbatim() {
    let context = test_context();
    let long_content = "y".repeat(60_000);
    let prompt = build_prompt("shrink a video file", &long_content, &context);

    assert!(prompt.contains("shrink a video file"));
    assert!(prompt.contains("/home/user/project"));
}

#[test]
fn test_truncate_at_boundary() {
    let text = "Hello, 世界!";
    let truncated = truncate_at_boundary(text, 10);
    assert!(truncated.len() <= 10);
    assert!(truncated.is_char_boundary(truncated.len()));
}

#[test]
fn test_truncate_short_text() {
    let text = "short";
    let truncated = truncate_at_boundary(text, 100);
    assert_eq!(truncated, text);
}

#[test]
fn test_truncate_content_marks_cut() {
    let text = "a".repeat(9000);
    let out = truncate_content(&text, 8000);
    assert!(out.len() <= 8000 + "\n\n[Content truncated...]".len());
    assert!(out.ends_with("\n\n[Content truncated...]"));
    assert!(out.starts_with("aaa"));
}

#[test]
fn test_truncate_content_multibyte_boundary() {
    let text = "é".repeat(300);
    let out = truncate_content(&text, 101);
    assert!(out.starts_with(&"é".repeat(50)));
    assert!(!out.starts_with(&"é".repeat(51)));
    assert!(out.ends_with("[Content truncated...]"));
}
