use git_ingest::command::prepare_slash_command;
use git_ingest::errors::{GitHubApiError, GitIngestError};
use git_ingest::model::{FileContent, GitHubContent, Node, MAX_FILE_SIZE};
use git_ingest::query::{Query, DEFAULT_IGNORE_PATTERNS};

fn create_mock_github_content(
    name: &str,
    path: &str,
    content_type: &str,
    size: Option<u64>,
    download_url: Option<String>,
) -> GitHubContent {
    GitHubContent {
        name: name.to_string(),
        path: path.to_string(),
        content_type: content_type.to_string(),
        size,
        sha: "mock_sha".to_string(),
        url: "https://api.github.com/mock".to_string(),
        html_url: "https://github.com/mock".to_string(),
        git_url: "git://github.com/mock.git".to_string(),
        download_url,
        links: serde_json::Value::Object(serde_json::Map::new()),
        content: None,
        encoding: None,
    }
}

fn empty_query() -> Query {
    Query {
        user_name: String::from("test_user"),
        repo_name: String::from("test_repo"),
        path: None,
        branch: None,
        ignore_patterns: Vec::new(),
        exclude_patterns: Vec::new(),
        include_patterns: Vec::new(),
        github_token: None,
    }
}

#[test]
fn test_query_new_valid_url() {
    let url = "https://github.com/username/repo";
    let query = Query::new(url).unwrap();
    assert_eq!(query.user_name, "username");
    assert_eq!(query.repo_name, "repo");
    assert!(query.path.is_none());
    assert!(query.branch.is_none());
}

#[test]
fn test_query_new_with_branch() {
    let url = "https://github.com/username/repo/tree/main";
    let query = Query::new(url).unwrap();
    assert_eq!(query.user_name, "username");
    assert_eq!(query.repo_name, "repo");
    assert!(query.path.is_none());
    assert_eq!(query.branch.unwrap(), "main");
}

#[test]
fn test_query_new_with_path() {
    let url = "https://github.com/username/repo/tree/main/src";
    let query = Query::new(url).unwrap();
    assert_eq!(query.user_name, "username");
    assert_eq!(query.repo_name, "repo");
    assert_eq!(query.path.unwrap(), "src");
    assert_eq!(query.branch.unwrap(), "main");
}

#[test]
fn test_query_new_invalid_url() {
    let url = "not_a_github_url";
    let result = Query::new(url);
    assert!(result.is_err());
    assert!(matches!(result.unwrap_err(), GitIngestError::InvalidUrl(_)));
}

#[test]
fn test_create_summary_string() {
    let query = empty_query();

    let root_node = Node {
        name: String::from("test_repo"),
        node_type: String::from("directory"),
        size: 1024,
        children: vec![],
        file_count: 5,
        dir_count: 2,
        path: String::new(),
        ignore_content: false,
        download_url: None,
    };

    let files = vec![FileContent {
        path: String::from("test.txt"),
        content: String::from("test content"),
    }];

    let summary = query.create_summary_string(&root_node, &files);
    assert!(summary.contains("test_user/test_repo"));
    assert!(summary.contains("Total files: 5"));
    assert!(summary.contains("Total size: 1.00 KB"));
    assert!(summary.contains("Directory count: 2"));
}

#[test]
fn test_create_tree_structure() {
    let query = empty_query();

    let child_node = Node {
        name: String::from("child"),
        node_type: String::from("file"),
        size: 100,
        children: vec![],
        file_count: 1,
        dir_count: 0,
        path: String::from("child"),
        ignore_content: false,
        download_url: None,
    };

    let root_node = Node {
        name: String::from("root"),
        node_type: String::from("directory"),
        size: 100,
        children: vec![child_node],
        file_count: 1,
        dir_count: 1,
        path: String::new(),
        ignore_content: false,
        download_url: None,
    };

    let tree = query.create_tree_structure(&root_node, "", true);
    assert!(tree.contains("└── root"));
    assert!(tree.contains("    └── child"));
}

#[test]
fn test_extension_run_invalid_command() {
    let result = prepare_slash_command("invalid", &vec![]);
    assert!(result.is_err());
}

#[test]
fn test_github_api_error_display() {
    let network = GitHubApiError::Network("connection failed".to_string());
    let other = GitHubApiError::Other("unknown error".to_string());

    assert_eq!(network.to_string(), "Network error: connection failed");
    assert_eq!(other.to_string(), "Error: unknown error");
}

#[test]
fn test_git_ingest_error_display() {
    let max_size = GitIngestError::MaxSizeExceeded(1000);
    let not_found = GitIngestError::RepoNotFound("repo missing".to_string());
    let invalid_url = GitIngestError::InvalidUrl("bad url".to_string());

    assert_eq!(max_size.to_string(), "Max size exceeded: 1000 bytes");
    assert_eq!(not_found.to_string(), "Repository not found: repo missing");
    assert_eq!(invalid_url.to_string(), "Invalid URL: bad url");
}

#[test]
fn test_node_creation() {
    let mock_content = create_mock_github_content(
        "test.txt",
        "test/test.txt",
        "file",
        Some(100),
        Some("https://test.com/download".to_string()),
    );

    let node = Node {
        name: mock_content.name,
        node_type: "file".to_string(),
        size: mock_content.size.unwrap(),
        children: vec![],
        file_count: 1,
        dir_count: 0,
        path: mock_content.path,
        ignore_content: mock_content.size.unwrap() > MAX_FILE_SIZE,
        download_url: mock_content.download_url,
    };

    assert_eq!(node.name, "test.txt");
    assert_eq!(node.node_type, "file");
    assert_eq!(node.size, 100);
    assert_eq!(node.file_count, 1);
    assert_eq!(node.dir_count, 0);
    assert_eq!(node.path, "test/test.txt");
    assert!(!node.ignore_content);
    assert_eq!(node.download_url.unwrap(), "https://test.com/download");
}

#[test]
fn test_query_api_url_construction() {
    let query = Query {
        user_name: "test-user".to_string(),
        repo_name: "test-repo".to_string(),
        path: Some("src".to_string()),
        branch: Some("main".to_string()),
        ignore_patterns: Vec::new(),
        exclude_patterns: Vec::new(),
        include_patterns: Vec::new(),
        github_token: None,
    };

    let path = query.path.as_deref().unwrap_or("");
    let api_url = query.api_url(path);
    assert!(api_url.starts_with("https://api.github.com/repos/"));
    assert!(api_url.contains("test-user/test-repo"));
    assert!(api_url.contains("/src"));
    assert!(api_url.contains("?ref=main"));
}

#[test]
fn test_ignore_patterns_filtering() {
    let patterns: Vec<String> = DEFAULT_IGNORE_PATTERNS
        .iter()
        .map(|&s| s.to_string())
        .collect();

    let mock_files = vec![
        "node_modules/package.json",
        ".git/config",
        "__pycache__/cache.pyc",
        "src/main.rs",
        "docs/README.md",
    ];

    for file in mock_files {
        let should_ignore = patterns.iter().any(|p| file.contains(p));

        if file.contains("node_modules") || file.contains(".git") || file.contains("__pycache__") {
            assert!(should_ignore, "Should ignore {}", file);
        } else {
            assert!(!should_ignore, "Should not ignore {}", file);
        }
    }
}

#[test]
fn test_include_exclude_patterns() {
    let query = Query {
        user_name: String::from("test_user"),
        repo_name: String::from("test_repo"),
        path: None,
        branch: None,
        ignore_patterns: Vec::new(),
        exclude_patterns: vec!["test/*.log".to_string()],
        include_patterns: vec!["**/*.rs".to_string()],
        github_token: None,
    };

    let mock_files = vec![
        "src/main.rs",
        "src/lib.rs",
        "test/output.log",
        "docs/index.html",
        "test/test.rs",
    ];

    for path in mock_files {
        let included = query.should_include(path);
        let excluded = query.should_exclude(path);

        match path {
            "src/main.rs" | "src/lib.rs" => {
                assert!(included, "Should include {}", path);
                assert!(!excluded, "Should not exclude {}", path);
            }
            "test/output.log" => {
                assert!(!included, "Should not include {}", path);
                assert!(excluded, "Should exclude {}", path);
            }
            "docs/index.html" => {
                assert!(!included, "Should not include {}", path);
                assert!(!excluded, "Should not exclude {}", path);
            }
            "test/test.rs" => {
                assert!(included, "Should include {}", path);
                assert!(!excluded, "Should not exclude {}", path);
            }
            _ => panic!("Unexpected test file"),
        }
    }
}

#[test]
fn test_empty_patterns() {
    let query = empty_query();

    let test_paths = vec!["src/main.rs", "test/file.txt", "docs/index.html"];

    for path in test_paths {
        assert!(
            query.should_include(path),
            "Should include all files when include_patterns is empty"
        );
        assert!(
            !query.should_exclude(path),
            "Should exclude no files when exclude_patterns is empty"
        );
    }
}
