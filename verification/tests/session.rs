use std::collections::HashMap;

use git_ingest::command::prepare_slash_command;
use git_ingest::errors::{GitHubApiError, GitIngestError};
use git_ingest::model::GitHubContent;
use git_ingest::query::Query;
use git_ingest::session::{Ingest, Reply, Request};

fn entry(path: &str, kind: &str, size: Option<u64>) -> GitHubContent {
    let name = path.rsplit('/').next().unwrap().to_string();
    GitHubContent {
        name,
        path: path.to_string(),
        content_type: kind.to_string(),
        size,
        sha: String::new(),
        url: String::new(),
        html_url: String::new(),
        git_url: String::new(),
        download_url: if kind == "file" {
            Some(format!("raw:{}", path))
        } else {
            None
        },
        links: serde_json::Value::Null,
        content: None,
        encoding: None,
    }
}

const API: &str = "https://api.github.com/repos/o/p/contents";

/// A repository served from memory: listings by API URL, texts by URL.
struct Server {
    listings: HashMap<String, Vec<GitHubContent>>,
    texts: HashMap<String, String>,
    requests: Vec<String>,
}

impl Server {
    fn new() -> Self {
        Server { listings: HashMap::new(), texts: HashMap::new(), requests: Vec::new() }
    }

    fn listing(&mut self, path: &str, entries: Vec<GitHubContent>) {
        let url = if path.is_empty() { API.to_string() } else { format!("{}/{}", API, path) };
        self.listings.insert(url, entries);
    }

    fn text(&mut self, path: &str, text: &str) {
        self.texts.insert(format!("raw:{}", path), text.to_string());
    }

    fn run(&mut self, query: Query) -> Result<String, GitIngestError> {
        let (mut run, mut request) = Ingest::start(query);
        loop {
            let reply = match request {
                Request::Listing(url) => {
                    self.requests.push(url.clone());
                    Reply::Listing(
                        self.listings
                            .get(&url)
                            .map(|l| l.iter().map(copy).collect())
                            .ok_or(GitHubApiError::Other("404".to_string())),
                    )
                }
                Request::Text(url) => {
                    self.requests.push(url.clone());
                    Reply::Text(
                        self.texts.get(&url).cloned().ok_or(GitHubApiError::Network("404".to_string())),
                    )
                }
                Request::Finished(r) => return r,
                Request::SizeOverflow => panic!("overflow"),
            };
            let (next, next_request) = run.resume(reply);
            run = next;
            request = next_request;
        }
    }
}

fn copy(c: &GitHubContent) -> GitHubContent {
    entry(&c.path, &c.content_type, c.size)
}

fn query() -> Query {
    Query::new("https://github.com/o/p").unwrap()
}

#[test]
fn run_loads_default_and_gitignore_patterns() {
    let mut s = Server::new();
    s.listing(
        "",
        vec![
            entry("node_modules", "dir", None),
            entry("app.log", "file", Some(4)),
            entry("main.rs", "file", Some(7)),
        ],
    );
    s.listing(".gitignore", vec![entry(".gitignore", "file", Some(6))]);
    s.text(".gitignore", "# logs\n.log\n");
    s.text("main.rs", "fn main");
    let summary = s.run(query()).unwrap();
    assert!(summary.contains("Total files: 1\n"));
    assert!(summary.contains("└── p\n    └── main.rs\n"));
    assert!(summary.contains("\n--- main.rs ---\nfn main\n"));
    assert!(summary.ends_with("\nIgnored files and directories:\nnode_modules\napp.log\n"));
    assert_eq!(
        s.requests,
        vec![
            API.to_string(),
            format!("{}/.gitignore", API),
            "raw:.gitignore".to_string(),
            "raw:main.rs".to_string(),
        ]
    );
}

#[test]
fn run_without_gitignore_uses_defaults() {
    let mut s = Server::new();
    s.listing("", vec![entry("target", "dir", None), entry("a.txt", "file", Some(1))]);
    s.text("a.txt", "a");
    let summary = s.run(query()).unwrap();
    assert!(summary.contains("Ignored files and directories:\ntarget\n"));
    assert!(!summary.contains("└── target"));
}

#[test]
fn run_with_preset_ignore_patterns_skips_gitignore() {
    let mut s = Server::new();
    s.listing("", vec![entry("a.txt", "file", Some(1))]);
    s.text("a.txt", "a");
    let mut q = query();
    q.ignore_patterns = vec!["zzz".to_string()];
    s.run(q).unwrap();
    assert_eq!(s.requests, vec![API.to_string(), "raw:a.txt".to_string()]);
}

#[test]
fn run_reports_missing_repository() {
    let mut s = Server::new();
    match s.run(query()) {
        Err(GitIngestError::RepoNotFound(m)) => assert_eq!(m, "Error: 404"),
        other => panic!("unexpected {:?}", other),
    }
}

#[test]
fn run_reports_failed_download() {
    let mut s = Server::new();
    s.listing("", vec![entry("a.txt", "file", Some(1)), entry("b.txt", "file", Some(1))]);
    s.text("b.txt", "b");
    match s.run(query()) {
        Err(GitIngestError::RepoNotFound(m)) => assert_eq!(m, "Network error: 404"),
        other => panic!("unexpected {:?}", other),
    }
    // The run stops at the first failed download.
    assert_eq!(s.requests.last().unwrap(), "raw:a.txt");
}

#[test]
fn run_enters_directories_and_skips_unlistable_ones() {
    let mut s = Server::new();
    s.listing(
        "",
        vec![entry("src", "dir", None), entry("gone", "dir", None), entry("z.md", "file", Some(2))],
    );
    s.listing("src", vec![entry("src/lib.rs", "file", Some(3))]);
    s.text("src/lib.rs", "lib");
    s.text("z.md", "z");
    let mut q = query();
    q.include_patterns = vec!["src/*.rs".to_string()];
    let summary = s.run(q).unwrap();
    assert!(summary.contains("Total files: 1\nTotal size: 0.00 KB\nDirectory count: 1\n"));
    assert!(summary.contains("└── p\n    └── src\n        └── lib.rs\n"));
    assert!(summary.ends_with("\n--- src/lib.rs ---\nlib\n"));
}

#[test]
fn token_argument_authenticates_requests() {
    let args = vec![
        "https://github.com/o/p".to_string(),
        "github_token: abc123 ".to_string(),
    ];
    let q = prepare_slash_command("gitingest", &args).unwrap();
    assert_eq!(q.github_token.as_deref(), Some("abc123"));
    let headers = q.request_headers("application/vnd.github+json");
    assert_eq!(
        headers,
        vec![
            ("User-Agent".to_string(), "X-GitHub-Api-Version: 2022-11-28".to_string()),
            ("Accept".to_string(), "application/vnd.github+json".to_string()),
            ("Authorization".to_string(), "Bearer abc123".to_string()),
        ]
    );
    let plain = query().request_headers("x");
    assert_eq!(plain.len(), 2);
    let blank = prepare_slash_command(
        "gitingest",
        &vec!["https://github.com/o/p".to_string(), "github_token:  ".to_string()],
    )
    .unwrap();
    assert!(blank.github_token.is_none());
}

#[test]
fn run_never_downloads_large_files() {
    let mut s = Server::new();
    s.listing("", vec![entry("big.bin", "file", Some(60_000)), entry("a.txt", "file", Some(1))]);
    s.text("big.bin", "never");
    s.text("a.txt", "a");
    let summary = s.run(query()).unwrap();
    assert!(summary.contains("├── big.bin\n"));
    assert!(!summary.contains("--- big.bin ---"));
    assert!(!s.requests.contains(&"raw:big.bin".to_string()));
    assert_eq!(s.requests.last().unwrap(), "raw:a.txt");
}

#[test]
fn run_ends_when_total_size_passes_limit() {
    let mut s = Server::new();
    s.listing(
        "",
        vec![
            entry("a.bin", "file", Some(600_000)),
            entry("b.bin", "file", Some(600_000)),
            entry("c.txt", "file", Some(1)),
        ],
    );
    match s.run(query()) {
        Err(GitIngestError::MaxSizeExceeded(size)) => assert_eq!(size, 1_200_000),
        other => panic!("unexpected {:?}", other),
    }
    // No download was asked for.
    assert!(s.requests.iter().all(|r| !r.starts_with("raw:") || r == "raw:.gitignore"));
}

#[test]
fn run_ends_when_file_count_passes_limit() {
    let mut s = Server::new();
    let entries: Vec<GitHubContent> =
        (0..501).map(|i| entry(&format!("f{}.txt", i), "file", Some(1))).collect();
    s.listing("", entries);
    match s.run(query()) {
        Err(GitIngestError::MaxSizeExceeded(size)) => assert_eq!(size, 501),
        other => panic!("unexpected {:?}", other),
    }
}

#[test]
fn run_keeps_query_and_token_in_every_phase() {
    let args = vec!["https://github.com/o/p".to_string(), "github_token:t0k".to_string()];
    let q = prepare_slash_command("gitingest", &args).unwrap();
    let (mut run, mut request) = Ingest::start(q);
    let replies = vec![
        Reply::Listing(Ok(vec![entry("a.txt", "file", Some(1))])),
        Reply::Listing(Ok(vec![entry(".gitignore", "file", Some(3))])),
        Reply::Text(Ok("*.o\n".to_string())),
        Reply::Text(Ok("a".to_string())),
    ];
    for reply in replies {
        assert!(!matches!(request, Request::Finished(_)));
        let (next, next_request) = run.resume(reply);
        assert_eq!(next.query.github_token.as_deref(), Some("t0k"));
        assert_eq!(next.query.user_name, "o");
        assert_eq!(next.query.repo_name, "p");
        run = next;
        request = next_request;
    }
    assert!(run.query.ignore_patterns.contains(&"*.o".to_string()));
    assert!(run.query.ignore_patterns.contains(&"node_modules".to_string()));
    match request {
        Request::Finished(Ok(text)) => assert!(text.contains("\n--- a.txt ---\na\n")),
        _ => panic!("run did not finish"),
    }
}

#[test]
fn run_lists_every_excluded_path() {
    let mut s = Server::new();
    s.listing(
        "",
        vec![entry("docs", "dir", None), entry("a.md", "file", Some(1)), entry("b.rs", "file", Some(1))],
    );
    s.listing("docs", vec![entry("docs/x.md", "file", Some(1)), entry("docs/y.rs", "file", Some(1))]);
    s.text("b.rs", "b");
    s.text("docs/y.rs", "y");
    let mut q = query();
    q.exclude_patterns = vec!["*.md".to_string()];
    let summary = s.run(q).unwrap();
    assert!(summary.ends_with("\nIgnored files and directories:\ndocs/x.md\na.md\n"));
}
