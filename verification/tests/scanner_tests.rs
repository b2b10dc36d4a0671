use ulm::page::{DirectoryListing, ManpageScanner};

fn test_listing(base: &str) -> DirectoryListing {
    DirectoryListing {
        dirs: vec![
            (
                format!("{base}/man1"),
                vec![
                    "ls.1".to_string(),
                    "cat.1.gz".to_string(),
                    "readme.txt".to_string(),
                ],
            ),
            (
                format!("{base}/man8"),
                vec!["mount.8".to_string(), "fsck.8.gz".to_string()],
            ),
        ],
    }
}

#[test]
fn test_scanner_creation() {
    let scanner = ManpageScanner::new();
    assert!(!scanner.paths().is_empty());
}

#[test]
fn test_scanner_with_custom_paths() {
    let paths = vec!["/custom/path".to_string()];
    let scanner = ManpageScanner::with_paths(paths.clone());
    assert_eq!(scanner.paths(), &paths);
}

#[test]
fn test_scan_finds_manpages() {
    let scanner = ManpageScanner::with_paths(vec!["/base".to_string()]);
    let pages = scanner.scan_directories(&test_listing("/base"));

    assert_eq!(pages.len(), 4);
    assert_eq!(pages[0], "/base/man1/ls.1");
    assert_eq!(pages[1], "/base/man1/cat.1.gz");
    assert_eq!(pages[2], "/base/man8/mount.8");
    assert_eq!(pages[3], "/base/man8/fsck.8.gz");
}

#[test]
fn test_ignores_non_manpage_files() {
    let scanner = ManpageScanner::with_paths(vec!["/base".to_string()]);
    let pages = scanner.scan_directories(&test_listing("/base"));

    assert!(!pages.iter().any(|p| p.contains("readme")));
}

#[test]
fn test_handles_missing_directories() {
    let scanner = ManpageScanner::with_paths(vec!["/nonexistent/path".to_string()]);
    let pages = scanner.scan_directories(&DirectoryListing { dirs: vec![] });
    assert!(pages.is_empty());
}

#[test]
fn test_add_manpath_dedups() {
    let mut scanner = ManpageScanner::with_paths(vec!["/usr/share/man".to_string()]);
    scanner.add_manpath("/usr/share/man:/extra/man::/extra/man:/more");
    assert_eq!(
        scanner.paths(),
        &vec![
            "/usr/share/man".to_string(),
            "/extra/man".to_string(),
            "/more".to_string()
        ]
    );
}

#[test]
fn test_is_manpage_file() {
    assert!(ManpageScanner::is_manpage_file("ls.1"));
    assert!(ManpageScanner::is_manpage_file("cat.1.gz"));
    assert!(ManpageScanner::is_manpage_file("mount.8"));
    assert!(ManpageScanner::is_manpage_file("fsck.8.gz"));

    assert!(!ManpageScanner::is_manpage_file("readme.txt"));
    assert!(!ManpageScanner::is_manpage_file("lib.3"));
    assert!(!ManpageScanner::is_manpage_file("config.5"));
}

#[test]
fn test_parse_filename() {
    let (name, section) = ManpageScanner::parse_filename("ls.1");
    assert_eq!(name, "ls");
    assert_eq!(section, "1");

    let (name, section) = ManpageScanner::parse_filename("mount.8.gz");
    assert_eq!(name, "mount");
    assert_eq!(section, "8");

    let (name, section) = ManpageScanner::parse_filename("git-commit.1");
    assert_eq!(name, "git-commit");
    assert_eq!(section, "1");
}

#[test]
fn test_extract_section() {
    let content = "NAME\n       ls - list directory contents\n\nDESCRIPTION\n       List information about the FILEs.";

    let name = ManpageScanner::extract_section(content, "NAME");
    assert!(name.is_some());
    assert!(name.unwrap().contains("list directory"));

    let desc = ManpageScanner::extract_section(content, "DESCRIPTION");
    assert!(desc.is_some());
    assert!(desc.unwrap().contains("FILEs"));
}

#[test]
fn test_parse_manpage_content() {
    let content = "NAME\n       ls - list directory contents\n\nDESCRIPTION\n       List information about the FILEs.";

    let result = ManpageScanner::parse_manpage_content(content, "ls");
    assert!(result.contains("ls"));
    assert!(result.contains("list"));
}

#[test]
fn test_extract_first_paragraph() {
    let text = "First paragraph line one. Line two.\n\nSecond paragraph.";
    let para = ManpageScanner::extract_first_paragraph(text);
    assert!(para.contains("First paragraph"));
    assert!(!para.contains("Second"));
}

#[test]
fn test_extract_content_combines_parts() {
    let page = "NAME\n       grep - print lines that match patterns\n\nDESCRIPTION\n       grep searches for PATTERNS in each FILE.";
    let content = ManpageScanner::extract_content("grep.1.gz", page);
    assert_eq!(content.tool_name, "grep");
    assert_eq!(content.section, "1");
    assert!(content.description.starts_with("grep - print lines that match patterns"));
    assert!(content.description.contains(" - grep searches for PATTERNS"));
}

#[test]
fn test_summary_falls_back_to_tool_name() {
    let content = ManpageScanner::parse_manpage_content("no sections here", "mytool");
    assert_eq!(content, "mytool");
}

#[test]
fn test_summary_truncated_with_ellipsis() {
    let long = format!("NAME\n       tool - {}\n", "word ".repeat(200));
    let result = ManpageScanner::parse_manpage_content(&long, "tool");
    assert!(result.len() <= 503);
    assert!(result.ends_with("..."));
}
