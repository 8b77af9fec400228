use git_ingest::body::file_text_from_body;
use git_ingest::command::{command_output, prepare_slash_command};
use git_ingest::errors::{GitHubApiError, GitIngestError};
use git_ingest::glob_match::pattern_matches;
use git_ingest::model::{FileContent, GitHubContent, Node};
use git_ingest::query::{first_download_url, Query, DEFAULT_IGNORE_PATTERNS};
use git_ingest::text::{
    contains_str, decimal_string, join_from, lines_of, split_all, strip_all_prefix_str,
    trim_string,
};

fn leaf(name: &str, size: u64) -> Node {
    Node {
        name: name.to_string(),
        node_type: "file".to_string(),
        size,
        children: vec![],
        file_count: 1,
        dir_count: 0,
        path: name.to_string(),
        ignore_content: false,
        download_url: None,
    }
}

fn root_with_size(size: u64) -> Node {
    Node {
        name: "r".to_string(),
        node_type: "directory".to_string(),
        size,
        children: vec![],
        file_count: 0,
        dir_count: 0,
        path: String::new(),
        ignore_content: false,
        download_url: None,
    }
}

fn size_line(size: u64) -> String {
    let q = Query::new("https://github.com/a/b").unwrap();
    let s = q.create_summary_string(&root_with_size(size), &[]);
    s.lines().find(|l| l.starts_with("Total size: ")).unwrap().to_string()
}

#[test]
fn kib_sizes_round_to_hundredths() {
    assert_eq!(size_line(0), "Total size: 0.00 KB");
    assert_eq!(size_line(1024), "Total size: 1.00 KB");
    assert_eq!(size_line(1536), "Total size: 1.50 KB");
    assert_eq!(size_line(10), "Total size: 0.01 KB");
    // Exactly halfway between hundredths: ties go to the even neighbour.
    assert_eq!(size_line(128), "Total size: 0.12 KB");
    assert_eq!(size_line(384), "Total size: 0.38 KB");
    assert_eq!(size_line(640), "Total size: 0.62 KB");
    assert_eq!(size_line(896), "Total size: 0.88 KB");
    assert_eq!(size_line(1024 * 1000 + 5), "Total size: 1000.00 KB");
    for size in [0u64, 1, 7, 128, 383, 384, 1000, 51200, 123456789, 1 << 40] {
        let expected = format!("Total size: {:.2} KB", size as f64 / 1024.0);
        assert_eq!(size_line(size), expected, "size {}", size);
    }
}

#[test]
fn summary_without_files_has_no_file_section() {
    let q = Query::new("https://github.com/a/b").unwrap();
    let s = q.create_summary_string(&root_with_size(0), &[]);
    assert!(!s.contains("Selected file contents"));
    assert!(s.ends_with("Directory structure:\n└── r\n"));
    let files = vec![FileContent { path: "p".to_string(), content: "c".to_string() }];
    let s2 = q.create_summary_string(&root_with_size(0), &files);
    assert!(s2.ends_with("└── r\n\nSelected file contents:\n\n--- p ---\nc\n"));
}

#[test]
fn tree_draws_middle_and_last_children() {
    let q = Query::new("https://github.com/a/b").unwrap();
    let mut sub = root_with_size(0);
    sub.name = "sub".to_string();
    sub.children = vec![leaf("x", 1)];
    let mut root = root_with_size(0);
    root.children = vec![sub, leaf("y", 1)];
    let tree = q.create_tree_structure(&root, "", true);
    assert_eq!(tree, "└── r\n    ├── sub\n    │   └── x\n    └── y\n");
    let not_last = q.create_tree_structure(&leaf("z", 1), "ab", false);
    assert_eq!(not_last, "ab├── z\n");
}

#[test]
fn query_new_handles_whitespace_blob_and_deep_paths() {
    let q = Query::new("  https://github.com/u/r/blob/v1/a/b/c.rs \n").unwrap();
    assert_eq!(q.user_name, "u");
    assert_eq!(q.repo_name, "r");
    assert_eq!(q.branch.as_deref(), Some("v1"));
    assert_eq!(q.path.as_deref(), Some("a/b/c.rs"));

    let q2 = Query::new("https://github.com//u//r///").unwrap();
    assert_eq!(q2.user_name, "u");
    assert_eq!(q2.repo_name, "r");
    assert!(q2.branch.is_none());

    // A path is taken from the fifth segment on even without `tree`.
    let q3 = Query::new("https://github.com/u/r/other/x/y").unwrap();
    assert!(q3.branch.is_none());
    assert_eq!(q3.path.as_deref(), Some("y"));
}

#[test]
fn query_new_errors() {
    match Query::new("https://github.com/onlyuser") {
        Err(GitIngestError::InvalidUrl(m)) => assert_eq!(m, "Invalid repository URL"),
        _ => panic!("expected InvalidUrl"),
    }
    match Query::new("HTTPS://GITHUB.COM/u/r") {
        Err(GitIngestError::InvalidUrl(m)) => assert_eq!(m, "Not a GitHub URL"),
        _ => panic!("expected InvalidUrl"),
    }
    match Query::new("http://github.com/u/r") {
        Err(GitIngestError::InvalidUrl(m)) => assert_eq!(m, "Not a GitHub URL"),
        _ => panic!("expected InvalidUrl"),
    }
}

#[test]
fn api_url_without_path_or_branch() {
    let q = Query::new("https://github.com/u/r").unwrap();
    assert_eq!(q.api_url(""), "https://api.github.com/repos/u/r/contents");
    assert_eq!(q.api_url("a/b"), "https://api.github.com/repos/u/r/contents/a/b");
    assert_eq!(q.root_path(), "");
}

#[test]
fn glob_patterns_through_the_glob_crate() {
    assert!(pattern_matches("*.rs", "main.rs"));
    assert!(!pattern_matches("*.rs", "main.py"));
    assert!(pattern_matches("**/*.rs", "src/a/b.rs"));
    // An invalid pattern matches nothing, not even its own text.
    assert!(!pattern_matches("***", "***"));
    assert!(!pattern_matches("[", "["));
}

#[test]
fn should_exclude_with_ignore_patterns() {
    let mut q = Query::new("https://github.com/u/r").unwrap();
    q.ignore_patterns = vec!["target".to_string()];
    assert!(q.should_exclude("x/target/debug"));
    assert!(!q.should_exclude("x/targ"));
    q.exclude_patterns = vec!["[".to_string()];
    assert!(!q.should_exclude("["));
}

#[test]
fn set_ignore_patterns_reads_gitignore_lines() {
    let mut q = Query::new("https://github.com/u/r").unwrap();
    q.set_ignore_patterns(Some("# comment\n\n  \ndist\r\n  build  \n   # indented comment\nlast"));
    let n = DEFAULT_IGNORE_PATTERNS.len();
    assert_eq!(q.ignore_patterns.len(), n + 3);
    for (i, p) in DEFAULT_IGNORE_PATTERNS.iter().enumerate() {
        assert_eq!(q.ignore_patterns[i], *p);
    }
    assert_eq!(q.ignore_patterns[n], "dist");
    assert_eq!(q.ignore_patterns[n + 1], "  build  ");
    assert_eq!(q.ignore_patterns[n + 2], "last");
    q.set_ignore_patterns(None);
    assert_eq!(q.ignore_patterns.len(), n);
}

#[test]
fn first_download_url_of_listing() {
    assert!(first_download_url(&vec![]).is_none());
    let c = GitHubContent {
        name: ".gitignore".to_string(),
        path: ".gitignore".to_string(),
        content_type: "file".to_string(),
        size: Some(3),
        sha: String::new(),
        url: String::new(),
        html_url: String::new(),
        git_url: String::new(),
        download_url: Some("https://raw/.gitignore".to_string()),
        links: serde_json::Value::Null,
        content: None,
        encoding: None,
    };
    assert_eq!(first_download_url(&vec![c]).as_deref(), Some("https://raw/.gitignore"));
}

#[test]
fn slash_command_arguments() {
    let args = vec![
        "https://github.com/u/r".to_string(),
        "exclude:*.log, test/* ,".to_string(),
        "include:*.rs".to_string(),
        "include:include:src/*".to_string(),
        "other".to_string(),
    ];
    let q = prepare_slash_command("gitingest", &args).unwrap();
    assert_eq!(q.exclude_patterns, vec!["*.log", "test/*", ""]);
    assert_eq!(q.include_patterns, vec!["*.rs", "src/*"]);
    assert!(q.ignore_patterns.is_empty());
}

#[test]
fn slash_command_errors() {
    assert_eq!(
        prepare_slash_command("gitingest", &vec![]).unwrap_err(),
        "nothing to ingest"
    );
    assert_eq!(
        prepare_slash_command("other", &vec![]).unwrap_err(),
        "unknown slash command: \"other\""
    );
    assert_eq!(
        prepare_slash_command("gitingest", &vec!["nope".to_string()]).unwrap_err(),
        "invalid repository url: Invalid URL: Not a GitHub URL"
    );
}

#[test]
fn command_output_text() {
    assert_eq!(command_output(Ok("sum".to_string())), "sum");
    assert_eq!(
        command_output(Err(GitIngestError::MaxSizeExceeded(7))),
        "error: Max size exceeded: 7 bytes"
    );
}

#[test]
fn file_bodies_decode_as_utf8() {
    assert_eq!(file_text_from_body("héllo".as_bytes().to_vec()).unwrap(), "héllo");
    match file_text_from_body(vec![0xff, 0xfe]) {
        Err(GitHubApiError::Other(m)) => assert!(!m.is_empty()),
        _ => panic!("expected an error"),
    }
}

#[test]
fn text_helpers() {
    assert_eq!(trim_string("\u{3000} a b \t\n"), "a b");
    assert_eq!(trim_string("   "), "");
    assert_eq!(lines_of("a\r\nb\n\nc\r"), vec!["a", "b", "", "c\r"]);
    assert_eq!(lines_of("x\n"), vec!["x"]);
    assert!(lines_of("").is_empty());
    assert!(contains_str("abcabd", "abd"));
    assert!(!contains_str("ab", "abc"));
    assert!(contains_str("ab", ""));
    assert_eq!(split_all(",a,,b", ','), vec!["", "a", "", "b"]);
    assert_eq!(strip_all_prefix_str("ababx", "ab"), "x");
    assert_eq!(decimal_string(0), "0");
    assert_eq!(decimal_string(1234567890), "1234567890");
    assert_eq!(decimal_string(u64::MAX), u64::MAX.to_string());
    let parts = vec!["a".to_string(), "b".to_string(), "c".to_string()];
    assert_eq!(join_from(&parts, 1, "/"), "b/c");
    assert_eq!(join_from(&parts, 3, "/"), "");
}
