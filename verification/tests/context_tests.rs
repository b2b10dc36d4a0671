use ulm::context::{scan_directory_context, ProjectType};

#[test]
fn test_project_type_as_str() {
    assert_eq!(ProjectType::Rust.as_str(), "Rust");
    assert_eq!(ProjectType::Node.as_str(), "Node.js");
    assert_eq!(ProjectType::Python.as_str(), "Python");
    assert_eq!(ProjectType::Go.as_str(), "Go");
    assert_eq!(ProjectType::CMake.as_str(), "CMake");
    assert_eq!(ProjectType::Git.as_str(), "Git");
    assert_eq!(ProjectType::Unknown.as_str(), "Unknown");
}

#[test]
fn test_scan_rust_project() {
    let files = vec!["Cargo.toml".to_string(), "src".to_string()];
    let context = scan_directory_context(&files, "/tmp/p".to_string());
    assert_eq!(context.project_type, Some(ProjectType::Rust));
    assert!(context.marker_files.contains(&"Cargo.toml".to_string()));
}

#[test]
fn test_scan_node_project() {
    let files = vec!["package.json".to_string()];
    let context = scan_directory_context(&files, "/tmp/p".to_string());
    assert_eq!(context.project_type, Some(ProjectType::Node));
    assert!(context.marker_files.contains(&"package.json".to_string()));
}

#[test]
fn test_scan_python_project() {
    let files = vec!["requirements.txt".to_string()];
    let context = scan_directory_context(&files, "/tmp/p".to_string());
    assert_eq!(context.project_type, Some(ProjectType::Python));
    assert!(context.marker_files.contains(&"requirements.txt".to_string()));
}

#[test]
fn test_scan_go_project() {
    let files = vec!["go.mod".to_string()];
    let context = scan_directory_context(&files, "/tmp/p".to_string());
    assert_eq!(context.project_type, Some(ProjectType::Go));
    assert!(context.marker_files.contains(&"go.mod".to_string()));
}

#[test]
fn test_scan_git_repo() {
    let files = vec![".git".to_string()];
    let context = scan_directory_context(&files, "/tmp/p".to_string());
    assert_eq!(context.project_type, Some(ProjectType::Git));
    assert!(context.marker_files.contains(&".git".to_string()));
}

#[test]
fn test_scan_empty_directory() {
    let files: Vec<String> = vec![];
    let context = scan_directory_context(&files, "/tmp/p".to_string());
    assert_eq!(context.project_type, None);
    assert!(context.marker_files.is_empty());
}

#[test]
fn test_priority_rust_over_git() {
    let files = vec![".git".to_string(), "Cargo.toml".to_string()];
    let context = scan_directory_context(&files, "/tmp/p".to_string());
    assert_eq!(context.project_type, Some(ProjectType::Rust));
    assert!(context.marker_files.contains(&"Cargo.toml".to_string()));
    assert!(context.marker_files.contains(&".git".to_string()));
}

#[test]
fn test_multiple_markers() {
    let files = vec!["requirements.txt".to_string(), "package.json".to_string()];
    let context = scan_directory_context(&files, "/tmp/p".to_string());
    assert_eq!(context.project_type, Some(ProjectType::Node));
    assert_eq!(context.marker_files.len(), 2);
}

#[test]
fn test_format_for_prompt_mentions_everything() {
    let files = vec!["Cargo.toml".to_string()];
    let context = scan_directory_context(&files, "/home/user/project".to_string());
    let block = context.format_for_prompt();
    assert!(block.contains("Rust"));
    assert!(block.contains("Cargo.toml"));
    assert!(block.contains("/home/user/project"));
}
