use std::collections::HashMap;

use git_ingest::errors::{GitHubApiError, GitIngestError};
use git_ingest::files::{file_targets, gather_file_contents};
use git_ingest::model::{GitHubContent, Node, MAX_FILES, MAX_FILE_SIZE, MAX_TOTAL_SIZE};
use git_ingest::query::Query;
use git_ingest::walk::{RepoTree, RepoWalk, WalkStep};

fn entry(name: &str, path: &str, kind: &str, size: Option<u64>) -> GitHubContent {
    GitHubContent {
        name: name.to_string(),
        path: path.to_string(),
        content_type: kind.to_string(),
        size,
        sha: "sha".to_string(),
        url: "https://api.github.com/x".to_string(),
        html_url: "https://github.com/x".to_string(),
        git_url: "git://github.com/x.git".to_string(),
        download_url: if kind == "file" {
            Some(format!("https://raw.example/{}", path))
        } else {
            None
        },
        links: serde_json::Value::Null,
        content: None,
        encoding: None,
    }
}

fn query() -> Query {
    Query::new("https://github.com/owner/proj").unwrap()
}

/// Runs a walk to its end, answering listing requests from `listings`
/// (a missing path is a failed listing). Returns the result and the paths
/// whose listing was asked for.
fn run(
    q: &Query,
    root: Vec<GitHubContent>,
    mut listings: HashMap<String, Vec<GitHubContent>>,
) -> (Result<RepoTree, GitIngestError>, Vec<String>) {
    let mut asked = Vec::new();
    let mut walk = RepoWalk::start(q, Ok(root)).unwrap();
    let result = loop {
        match walk.step(q) {
            WalkStep::Continue(next) => walk = next,
            WalkStep::NeedListing(next, path) => {
                asked.push(path.clone());
                let listing = listings.remove(&path);
                walk = next.enter_directory(q, listing);
            }
            WalkStep::Finished(r) => break r,
            WalkStep::SizeOverflow => panic!("size overflow"),
        }
    };
    (result, asked)
}

fn names(n: &Node) -> Vec<String> {
    n.children.iter().map(|c| c.name.clone()).collect()
}

#[test]
fn walk_builds_tree_in_listing_order() {
    let q = query();
    let root = vec![
        entry("README.md", "README.md", "file", Some(10)),
        entry("src", "src", "dir", None),
        entry("link", "link", "symlink", Some(3)),
        entry("Cargo.toml", "Cargo.toml", "file", Some(20)),
    ];
    let mut listings = HashMap::new();
    listings.insert(
        "src".to_string(),
        vec![
            entry("main.rs", "src/main.rs", "file", Some(100)),
            entry("util", "src/util", "dir", None),
        ],
    );
    listings.insert(
        "src/util".to_string(),
        vec![entry("mod.rs", "src/util/mod.rs", "file", None)],
    );
    let (result, asked) = run(&q, root, listings);
    let tree = result.unwrap().root;
    assert_eq!(asked, vec!["src".to_string(), "src/util".to_string()]);
    assert_eq!(tree.name, "proj");
    assert_eq!(tree.node_type, "directory");
    assert_eq!(names(&tree), vec!["README.md", "src", "Cargo.toml"]);
    assert_eq!(tree.file_count, 4);
    assert_eq!(tree.size, 130);
    assert_eq!(tree.dir_count, 1);
    let src = &tree.children[1];
    assert_eq!(src.node_type, "directory");
    assert_eq!(src.file_count, 0);
    assert_eq!(src.dir_count, 1);
    assert_eq!(names(src), vec!["main.rs", "util"]);
    assert_eq!(src.children[1].children[0].size, 0);
    assert_eq!(src.children[1].children[0].path, "src/util/mod.rs");
}

#[test]
fn walk_passes_over_unlistable_directory() {
    let q = query();
    let root = vec![
        entry("gone", "gone", "dir", None),
        entry("a.txt", "a.txt", "file", Some(1)),
    ];
    let (result, asked) = run(&q, root, HashMap::new());
    let tree = result.unwrap().root;
    assert_eq!(asked, vec!["gone".to_string()]);
    assert_eq!(names(&tree), vec!["a.txt"]);
    assert_eq!(tree.dir_count, 0);
}

#[test]
fn walk_leaves_out_excluded_and_not_included_paths() {
    let mut q = query();
    q.include_patterns = vec!["**/*.rs".to_string()];
    q.exclude_patterns = vec!["src/gen*".to_string()];
    let root = vec![
        entry("lib.rs", "lib.rs", "file", Some(5)),
        entry("notes.md", "notes.md", "file", Some(5)),
        entry("src", "src", "dir", None),
    ];
    let mut listings = HashMap::new();
    listings.insert(
        "src".to_string(),
        vec![
            entry("generated.rs", "src/generated.rs", "file", Some(5)),
            entry("kept.rs", "src/kept.rs", "file", Some(6)),
        ],
    );
    let (result, asked) = run(&q, root, listings);
    let tree = result.unwrap();
    // Include patterns apply to files only: `src` is entered.
    assert_eq!(asked, vec!["src".to_string()]);
    assert_eq!(names(&tree.root), vec!["lib.rs", "src"]);
    assert_eq!(names(&tree.root.children[1]), vec!["kept.rs"]);
    assert_eq!(tree.root.file_count, 2);
    assert_eq!(tree.root.size, 11);
    // Only paths left out by exclude or ignore patterns are recorded.
    assert_eq!(tree.ignored, vec!["src/generated.rs".to_string()]);
}

#[test]
fn include_patterns_reach_files_in_unmatched_directories() {
    let mut q = query();
    q.include_patterns = vec!["src/*.ts".to_string()];
    let root = vec![entry("src", "src", "dir", None), entry("b.ts", "b.ts", "file", Some(1))];
    let mut listings = HashMap::new();
    listings.insert("src".to_string(), vec![entry("a.ts", "src/a.ts", "file", Some(3))]);
    let (result, _) = run(&q, root, listings);
    let tree = result.unwrap().root;
    assert_eq!(names(&tree), vec!["src"]);
    assert_eq!(names(&tree.children[0]), vec!["a.ts"]);
}

#[test]
fn walk_applies_ignore_patterns_as_substrings() {
    let mut q = query();
    q.set_ignore_patterns(None);
    let root = vec![
        entry("node_modules", "node_modules", "dir", None),
        entry(".env.local", ".env.local", "file", Some(1)),
        entry("main.rs", "main.rs", "file", Some(2)),
    ];
    let (result, asked) = run(&q, root, HashMap::new());
    assert!(asked.is_empty());
    let tree = result.unwrap();
    assert_eq!(names(&tree.root), vec!["main.rs"]);
    assert_eq!(tree.ignored, vec!["node_modules".to_string(), ".env.local".to_string()]);
}

#[test]
fn walk_stops_past_total_size_limit() {
    let q = query();
    let half = 600 * 1024;
    let root = vec![
        entry("a", "a", "file", Some(half)),
        entry("b", "b", "file", Some(half)),
    ];
    match run(&q, root, HashMap::new()).0 {
        Err(GitIngestError::MaxSizeExceeded(size)) => assert_eq!(size, 2 * half),
        other => panic!("unexpected {:?}", other),
    }
    let exact = vec![
        entry("a", "a", "file", Some(MAX_TOTAL_SIZE - 1)),
        entry("b", "b", "file", Some(1)),
    ];
    let tree = run(&q, exact, HashMap::new()).0.unwrap().root;
    assert_eq!(tree.size, MAX_TOTAL_SIZE);
}

#[test]
fn walk_stops_after_max_files() {
    let q = query();
    let root: Vec<GitHubContent> = (0..MAX_FILES + 1)
        .map(|i| entry(&format!("f{}", i), &format!("f{}", i), "file", Some(2)))
        .collect();
    let (result, _) = run(&q, root, HashMap::new());
    match result {
        Err(GitIngestError::MaxSizeExceeded(size)) => assert_eq!(size, 2 * (MAX_FILES as u64 + 1)),
        other => panic!("unexpected {:?}", other),
    }
}

#[test]
fn walk_takes_exactly_max_files() {
    let q = query();
    let root: Vec<GitHubContent> = (0..MAX_FILES)
        .map(|i| entry(&format!("f{}", i), &format!("f{}", i), "file", Some(1)))
        .collect();
    let (result, _) = run(&q, root, HashMap::new());
    let tree = result.unwrap().root;
    assert_eq!(tree.file_count, MAX_FILES);
    assert_eq!(tree.size, MAX_FILES as u64);
}

#[test]
fn walk_reports_size_overflow() {
    let q = query();
    let root = vec![
        entry("a", "a", "file", Some(1)),
        entry("b", "b", "file", Some(u64::MAX)),
    ];
    let mut walk = RepoWalk::start(&q, Ok(root)).unwrap();
    let mut overflowed = false;
    for _ in 0..10 {
        match walk.step(&q) {
            WalkStep::Continue(next) => walk = next,
            WalkStep::SizeOverflow => {
                overflowed = true;
                break;
            }
            _ => panic!("unexpected step"),
        }
    }
    assert!(overflowed);
}

#[test]
fn walk_start_reports_missing_repository() {
    let q = query();
    match RepoWalk::start(&q, Err(GitHubApiError::Network("offline".to_string()))) {
        Err(GitIngestError::RepoNotFound(m)) => assert_eq!(m, "Network error: offline"),
        _ => panic!("expected RepoNotFound"),
    }
}

#[test]
fn file_nodes_mark_large_content() {
    let q = query();
    let root = vec![
        entry("small", "small", "file", Some(MAX_FILE_SIZE)),
        entry("big", "big", "file", Some(MAX_FILE_SIZE + 1)),
    ];
    let (result, _) = run(&q, root, HashMap::new());
    let tree = result.unwrap().root;
    assert!(!tree.children[0].ignore_content);
    assert!(tree.children[1].ignore_content);
    let targets = file_targets(&tree);
    assert_eq!(targets.len(), 1);
    assert_eq!(targets[0].path, "small");
    assert_eq!(targets[0].download_url, "https://raw.example/small");
}

#[test]
fn file_targets_are_depth_first() {
    let q = query();
    let root = vec![
        entry("d", "d", "dir", None),
        entry("z.txt", "z.txt", "file", Some(1)),
    ];
    let mut listings = HashMap::new();
    listings.insert("d".to_string(), vec![entry("a.txt", "d/a.txt", "file", Some(1))]);
    let (result, _) = run(&q, root, listings);
    let tree = result.unwrap().root;
    let targets = file_targets(&tree);
    let paths: Vec<&str> = targets.iter().map(|t| t.path.as_str()).collect();
    assert_eq!(paths, vec!["d/a.txt", "z.txt"]);

    let fetched = vec![Ok("aaa".to_string()), Ok("zzz".to_string())];
    let files = gather_file_contents(&targets, &fetched).unwrap();
    assert_eq!(files.len(), 2);
    assert_eq!(files[1].path, "z.txt");
    assert_eq!(files[1].content, "zzz");

    // A failed download makes the gathering fail with its error.
    let failed = vec![Err(GitHubApiError::Network("down".to_string()))];
    match gather_file_contents(&targets, &failed) {
        Err(GitHubApiError::Network(m)) => assert_eq!(m, "down"),
        _ => panic!("expected the download error"),
    }
}

#[test]
fn summary_of_walked_repository() {
    let q = Query::new("https://github.com/owner/proj/tree/dev").unwrap();
    let root = vec![
        entry("a.rs", "a.rs", "file", Some(1536)),
        entry("docs", "docs", "dir", None),
    ];
    let mut listings = HashMap::new();
    listings.insert("docs".to_string(), vec![entry("x.md", "docs/x.md", "file", Some(512))]);
    let (result, _) = run(&q, root, listings);
    let tree = result.unwrap();
    let targets = file_targets(&tree.root);
    let fetched = vec![Ok("fn a() {}".to_string()), Ok("# x".to_string())];
    let files = gather_file_contents(&targets, &fetched).unwrap();
    let summary = q.create_repo_summary(&tree, &files);
    let expected = "Repository: owner/proj\n\
Total files: 2\n\
Total size: 2.00 KB\n\
Directory count: 1\n\n\
API URL:\n\
https://api.github.com/repos/owner/proj/contents?ref=dev\n\n\
Directory structure:\n\
└── proj\n    ├── a.rs\n    └── docs\n        └── x.md\n\
\nSelected file contents:\n\
\n--- a.rs ---\nfn a() {}\n\
\n--- docs/x.md ---\n# x\n";
    assert_eq!(summary, expected);
}
