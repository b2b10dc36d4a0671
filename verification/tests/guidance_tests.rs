use ulm::guidance::get_guidance;
use ulm::text::to_ascii_lowercase;

#[test]
fn test_get_guidance_connection_refused() {
    let guidance = get_guidance("connection refused to localhost");
    assert!(guidance.iter().any(|s| s.contains("ollama serve")));
}

#[test]
fn test_get_guidance_model_not_found() {
    let guidance = get_guidance("model llama3 not found");
    assert!(guidance.iter().any(|s| s.contains("ollama pull")));
}

#[test]
fn test_get_guidance_database() {
    let guidance = get_guidance("lancedb error");
    assert!(guidance.iter().any(|s| s.contains("--setup")));
}

#[test]
fn test_get_guidance_clipboard() {
    let guidance = get_guidance("clipboard error");
    assert!(guidance.iter().any(|s| s.contains("display server")));
}

#[test]
fn test_get_guidance_generic() {
    let guidance = get_guidance("some unknown error");
    assert!(guidance.iter().any(|s| s.contains("RUST_LOG")));
}

#[test]
fn test_guidance_on_lowered_message() {
    let lowered = to_ascii_lowercase("Connection REFUSED by peer");
    let guidance = get_guidance(&lowered);
    assert!(guidance.iter().any(|s| s.contains("ollama serve")));
}
