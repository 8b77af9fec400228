//! A request for a repository's contents: parsed from a GitHub URL, it
//! knows the API URL to list and which paths to take in.
use vstd::prelude::*;
use crate::errors::{GitIngestError, IngestErrorView};
use crate::glob_match::{glob_hit, pattern_matches};
use crate::model::{clone_opt_string, opt_view, GitHubContent};
use crate::text::{
    lines, lines_of, chars_of, contains, contains_str, join, join_from, segments, split_segments, starts_with,
    starts_with_chars, trim, trim_string, views,
};

verus! {

/// Patterns of files and directories that are ignored by default.
pub const DEFAULT_IGNORE_PATTERNS: [&'static str; 34] = [
    // Python
    "*.pyc",
    "*.pyo",
    "*.pyd",
    "__pycache__",
    ".pytest_cache",
    ".coverage",
    ".tox",
    ".nox",
    ".mypy_cache",
    ".ruff_cache",
    ".hypothesis",
    "poetry.lock",
    "Pipfile.lock",
    // JavaScript/Node
    "node_modules",
    "bower_components",
    "package-lock.json",
    "pnpm-lock.yaml",
    "yarn.lock",
    ".npm",
    ".yarn",
    ".pnpm-store",
    // Rust
    "Cargo.lock",
    "target",
    // Version control
    ".git",
    ".svn",
    ".hg",
    ".gitignore",
    ".gitattributes",
    ".gitmodules",
    // Virtual environments
    "venv",
    ".venv",
    "env",
    ".env",
    "virtualenv",
];

/// The default ignore patterns as character sequences.
pub open spec fn default_ignore_patterns() -> Seq<Seq<char>> {
    DEFAULT_IGNORE_PATTERNS@.map_values(|s: &str| s@)
}

/// The lines of a `.gitignore` file that are patterns: those that are not
/// blank and, once trimmed, do not start with `#`. They are kept untrimmed.
pub open spec fn gitignore_patterns(ls: Seq<Seq<char>>) -> Seq<Seq<char>>
    decreases ls.len(),
{
    if ls.len() == 0 {
        seq![]
    } else {
        let rest = gitignore_patterns(ls.drop_last());
        let l = ls.last();
        if trim(l).len() > 0 && !starts_with(trim(l), "#"@) {
            rest.push(l)
        } else {
            rest
        }
    }
}

/// The ignore patterns set from a `.gitignore` text, where one was fetched:
/// the default ones, followed by its pattern lines.
pub open spec fn ignore_patterns_from(gitignore: Option<&str>) -> Seq<Seq<char>> {
    ignore_patterns_for(
        match gitignore {
            Some(t) => Some(t@),
            None => None,
        },
    )
}

/// The ignore patterns set from the text of a `.gitignore`, where one was
/// fetched: the default ones, followed by its pattern lines.
pub open spec fn ignore_patterns_for(gitignore: Option<Seq<char>>) -> Seq<Seq<char>> {
    default_ignore_patterns() + match gitignore {
        Some(t) => gitignore_patterns(lines(t)),
        None => seq![],
    }
}

/// A query for the contents of one repository.
#[derive(Debug)]
pub struct Query {
    /// The owner of the repository.
    pub user_name: String,
    /// The name of the repository.
    pub repo_name: String,
    /// The path within the repository to list, if any.
    pub path: Option<String>,
    /// The branch to list, if any.
    pub branch: Option<String>,
    /// Substrings; a path that holds one of them is left out.
    pub ignore_patterns: Vec<String>,
    /// Glob patterns; a path that matches one of them is left out.
    pub exclude_patterns: Vec<String>,
    /// Glob patterns; where there are any, only files whose path matches
    /// one are taken.
    pub include_patterns: Vec<String>,
    /// A GitHub personal access token that authenticates requests, if any.
    pub github_token: Option<String>,
}

/// The headers of a request to GitHub that accepts `accept`: the API
/// version, the accepted media type, and a bearer token where one is given.
pub open spec fn request_headers_spec(token: Option<Seq<char>>, accept: Seq<char>) -> Seq<
    (Seq<char>, Seq<char>),
> {
    seq![("User-Agent"@, "X-GitHub-Api-Version: 2022-11-28"@), ("Accept"@, accept)] + match token {
        Some(t) => seq![("Authorization"@, "Bearer "@ + t)],
        None => seq![],
    }
}

/// The views of a sequence of headers.
pub open spec fn header_views(hs: Seq<(String, String)>) -> Seq<(Seq<char>, Seq<char>)> {
    hs.map_values(|h: (String, String)| (h.0@, h.1@))
}

/// The prefix every repository URL must start with.
pub open spec fn github_prefix() -> Seq<char> {
    "https://github.com/"@
}

/// The non-empty `/`-separated segments of a URL after the GitHub prefix,
/// once surrounding whitespace is removed.
pub open spec fn url_segments(url: Seq<char>) -> Seq<Seq<char>> {
    segments(trim(url).skip(github_prefix().len() as int), '/')
}

/// The branch a URL names: the fourth segment when the third is `tree` or
/// `blob`.
pub open spec fn url_branch(segs: Seq<Seq<char>>) -> Option<Seq<char>> {
    if segs.len() > 3 && (segs[2] == "tree"@ || segs[2] == "blob"@) {
        Some(segs[3])
    } else {
        None
    }
}

/// The path a URL names: the segments from the fifth on, joined by `/`.
pub open spec fn url_path(segs: Seq<Seq<char>>) -> Option<Seq<char>> {
    if segs.len() > 4 {
        Some(join(segs.skip(4), "/"@))
    } else {
        None
    }
}

/// The contents API URL for `path` in the repository `user/repo`, on
/// `branch` where one is given.
pub open spec fn api_url_text(
    user: Seq<char>,
    repo: Seq<char>,
    path: Seq<char>,
    branch: Option<Seq<char>>,
) -> Seq<char> {
    "https://api.github.com/repos/"@ + user + "/"@ + repo + "/contents"@ + (if path.len() > 0 {
        "/"@ + path
    } else {
        seq![]
    }) + (match branch {
        Some(b) => "?ref="@ + b,
        None => seq![],
    })
}

/// The mathematical value of a `Query`.
pub struct QueryView {
    pub user_name: Seq<char>,
    pub repo_name: Seq<char>,
    pub path: Option<Seq<char>>,
    pub branch: Option<Seq<char>>,
    pub ignore_patterns: Seq<Seq<char>>,
    pub exclude_patterns: Seq<Seq<char>>,
    pub include_patterns: Seq<Seq<char>>,
    pub github_token: Option<Seq<char>>,
}

impl View for Query {
    type V = QueryView;

    open spec fn view(&self) -> QueryView {
        QueryView {
            user_name: self.user_name@,
            repo_name: self.repo_name@,
            path: opt_view(self.path),
            branch: opt_view(self.branch),
            ignore_patterns: views(self.ignore_patterns@),
            exclude_patterns: views(self.exclude_patterns@),
            include_patterns: views(self.include_patterns@),
            github_token: opt_view(self.github_token),
        }
    }
}

impl QueryView {
    /// Whether the include patterns let `path` in: there are none, or one
    /// of them matches.
    pub open spec fn includes(self, path: Seq<char>) -> bool {
        self.include_patterns.len() == 0 || exists|i: int|
            0 <= i < self.include_patterns.len() && #[trigger] glob_hit(
                self.include_patterns[i],
                path,
            )
    }

    /// Whether `path` is left out: an exclude pattern matches it, or it
    /// holds an ignore pattern.
    pub open spec fn excludes(self, path: Seq<char>) -> bool {
        ||| exists|i: int|
            0 <= i < self.exclude_patterns.len() && #[trigger] glob_hit(
                self.exclude_patterns[i],
                path,
            )
        ||| exists|j: int|
            0 <= j < self.ignore_patterns.len() && #[trigger] contains(
                path,
                self.ignore_patterns[j],
            )
    }

    /// Whether a file at `path` is taken into the tree (a directory needs
    /// only not to be excluded).
    pub open spec fn admits(self, path: Seq<char>) -> bool {
        self.includes(path) && !self.excludes(path)
    }

    /// The path within the repository that the query lists: its path, or
    /// the empty path for the repository's root.
    pub open spec fn root_path(self) -> Seq<char> {
        match self.path {
            Some(p) => p,
            None => Seq::<char>::empty(),
        }
    }

    /// The contents API URL for `path` in the query's repository.
    pub open spec fn contents_url(self, path: Seq<char>) -> Seq<char> {
        api_url_text(self.user_name, self.repo_name, path, self.branch)
    }

    /// The query with its ignore patterns set to `patterns`.
    pub open spec fn with_ignore(self, patterns: Seq<Seq<char>>) -> QueryView {
        QueryView { ignore_patterns: patterns, ..self }
    }
}

impl Query {
    /// Parses a GitHub repository URL such as `https://github.com/user/repo`,
    /// optionally followed by `/tree/branch` and a path.
    pub fn new(url: &str) -> (r: Result<Query, GitIngestError>)
        ensures
            !starts_with(trim(url@), github_prefix()) ==> (r matches Err(e) && e@
                == IngestErrorView::InvalidUrl("Not a GitHub URL"@)),
            starts_with(trim(url@), github_prefix()) && url_segments(url@).len() < 2 ==> (r matches Err(
                e,
            ) && e@ == IngestErrorView::InvalidUrl("Invalid repository URL"@)),
            starts_with(trim(url@), github_prefix()) && url_segments(url@).len() >= 2 ==> (r matches Ok(
                q,
            ) && {
                let segs = url_segments(url@);
                &&& q.user_name@ == segs[0]
                &&& q.repo_name@ == segs[1]
                &&& opt_view(q.branch) == url_branch(segs)
                &&& opt_view(q.path) == url_path(segs)
                &&& q.ignore_patterns@.len() == 0
                &&& q.exclude_patterns@.len() == 0
                &&& q.include_patterns@.len() == 0
                &&& q.github_token is None
            }),
    {
        let trimmed = trim_string(url);
        let t = chars_of(trimmed.as_str());
        let prefix = chars_of("https://github.com/");
        if !starts_with_chars(&t, 0, &prefix) {
            assert(t@.skip(0) =~= t@);
            return Err(GitIngestError::InvalidUrl(String::from_str("Not a GitHub URL")));
        }
        assert(t@.skip(0) =~= t@);
        let segs = split_segments(&t, prefix.len(), t.len(), '/');
        assert(t@.subrange(prefix@.len() as int, t@.len() as int) =~= t@.skip(
            github_prefix().len() as int,
        ));
        let ghost sv = views(segs@);
        assert(sv.len() == segs@.len());
        if segs.len() < 2 {
            return Err(GitIngestError::InvalidUrl(String::from_str("Invalid repository URL")));
        }
        assert(sv[0] == segs@[0]@ && sv[1] == segs@[1]@);
        let user_name = segs[0].clone();
        let repo_name = segs[1].clone();
        let branch = if segs.len() > 3 {
            let tree = String::from_str("tree");
            let blob = String::from_str("blob");
            assert(sv[2] == segs@[2]@ && sv[3] == segs@[3]@);
            if segs[2] == tree || segs[2] == blob {
                Some(segs[3].clone())
            } else {
                None
            }
        } else {
            None
        };
        let path = if segs.len() > 4 {
            assert(sv.skip(4) =~= views(segs@).skip(4));
            Some(join_from(&segs, 4, "/"))
        } else {
            None
        };
        Ok(
            Query {
                user_name,
                repo_name,
                path,
                branch,
                ignore_patterns: Vec::new(),
                exclude_patterns: Vec::new(),
                include_patterns: Vec::new(),
                github_token: None,
            },
        )
    }

    /// The GitHub contents API URL for `path` in this repository, on this
    /// query's branch where it names one.
    pub fn api_url(&self, path: &str) -> (r: String)
        ensures
            r@ == api_url_text(self.user_name@, self.repo_name@, path@, opt_view(self.branch)),
    {
        let mut url = String::from_str("https://api.github.com/repos/");
        url.append(self.user_name.as_str());
        url.append("/");
        url.append(self.repo_name.as_str());
        url.append("/contents");
        let ghost base = url@;
        if !path.is_empty() {
            url.append("/");
            url.append(path);
        }
        let ghost with_path = url@;
        assert(with_path == base + (if path@.len() > 0 {
            "/"@ + path@
        } else {
            seq![]
        }));
        match &self.branch {
            Some(b) => {
                url.append("?ref=");
                url.append(b.as_str());
            },
            None => {
                assert(url@ =~= with_path + Seq::<char>::empty());
            },
        }
        url
    }

    /// Whether `path` is let in by the include patterns: true where there
    /// are none, else whether one of them matches it.
    pub fn should_include(&self, path: &str) -> (r: bool)
        ensures
            r == self@.includes(path@),
            self.include_patterns@.len() == 0 ==> r,
    {
        let n = self.include_patterns.len();
        if n == 0 {
            return true;
        }
        let mut i: usize = 0;
        while i < n
            invariant
                n == self.include_patterns@.len(),
                i <= n,
                forall|k: int| 0 <= k < i ==> !#[trigger] glob_hit(
                    self.include_patterns@[k]@,
                    path@,
                ),
            decreases n - i,
        {
            if pattern_matches(self.include_patterns[i].as_str(), path) {
                assert(self@.include_patterns[i as int] == self.include_patterns@[i as int]@);
                return true;
            }
            i = i + 1;
        }
        false
    }

    /// Whether `path` is left out: it matches an exclude pattern or holds
    /// an ignore pattern as a substring.
    pub fn should_exclude(&self, path: &str) -> (r: bool)
        ensures
            r == self@.excludes(path@),
    {
        let n = self.exclude_patterns.len();
        let mut i: usize = 0;
        while i < n
            invariant
                n == self.exclude_patterns@.len(),
                i <= n,
                forall|k: int| 0 <= k < i ==> !#[trigger] glob_hit(
                    self.exclude_patterns@[k]@,
                    path@,
                ),
            decreases n - i,
        {
            if pattern_matches(self.exclude_patterns[i].as_str(), path) {
                assert(self@.exclude_patterns[i as int] == self.exclude_patterns@[i as int]@);
                return true;
            }
            i = i + 1;
        }
        let m = self.ignore_patterns.len();
        let mut j: usize = 0;
        while j < m
            invariant
                m == self.ignore_patterns@.len(),
                j <= m,
                forall|k: int| 0 <= k < self.exclude_patterns@.len() ==> !#[trigger] glob_hit(
                    self.exclude_patterns@[k]@,
                    path@,
                ),
                forall|k: int| 0 <= k < j ==> !#[trigger] contains(
                    path@,
                    self.ignore_patterns@[k]@,
                ),
            decreases m - j,
        {
            if contains_str(path, self.ignore_patterns[j].as_str()) {
                assert(self@.ignore_patterns[j as int] == self.ignore_patterns@[j as int]@);
                return true;
            }
            j = j + 1;
        }
        false
    }

    /// Sets the ignore patterns: the default ones, followed by the pattern
    /// lines of the repository's `.gitignore` text where one was fetched.
    pub fn set_ignore_patterns(&mut self, gitignore: Option<&str>)
        ensures
            views(final(self).ignore_patterns@) == default_ignore_patterns() + match gitignore {
                Some(t) => gitignore_patterns(lines(t@)),
                None => seq![],
            },
            final(self).user_name == old(self).user_name,
            final(self).repo_name == old(self).repo_name,
            final(self).path == old(self).path,
            final(self).branch == old(self).branch,
            final(self).exclude_patterns == old(self).exclude_patterns,
            final(self).include_patterns == old(self).include_patterns,
            final(self).github_token == old(self).github_token,
            final(self)@ == old(self)@.with_ignore(ignore_patterns_from(gitignore)),
    {
        let mut patterns: Vec<String> = Vec::new();
        let mut i: usize = 0;
        while i < 34
            invariant
                i <= 34,
                views(patterns@) == default_ignore_patterns().take(i as int),
            decreases 34 - i,
        {
            let pat: &str = DEFAULT_IGNORE_PATTERNS[i];
            assert(pat == DEFAULT_IGNORE_PATTERNS@[i as int]);
            assert(DEFAULT_IGNORE_PATTERNS@.len() == 34);
            let ghost before = patterns@;
            patterns.push(String::from_str(pat));
            assert(views(patterns@) =~= views(before).push(pat@));
            assert(default_ignore_patterns().take(i + 1) =~= default_ignore_patterns().take(
                i as int,
            ).push(pat@));
            i = i + 1;
        }
        assert(default_ignore_patterns().take(34) =~= default_ignore_patterns());
        let ghost defaults = views(patterns@);
        if let Some(text) = gitignore {
            let ls = lines_of(text);
            let n = ls.len();
            let mut k: usize = 0;
            assert(views(ls@).take(0) =~= Seq::<Seq<char>>::empty());
            assert(defaults + gitignore_patterns(Seq::<Seq<char>>::empty()) =~= defaults);
            while k < n
                invariant
                    n == ls@.len(),
                    k <= n,
                    views(patterns@) == defaults + gitignore_patterns(views(ls@).take(k as int)),
                decreases n - k,
            {
                let line = ls[k].as_str();
                let t = trim_string(line);
                let tv = chars_of(t.as_str());
                let hash = chars_of("#");
                let ghost before = views(patterns@);
                assert(tv@.skip(0) =~= tv@);
                assert(views(ls@).take(k + 1).drop_last() =~= views(ls@).take(k as int));
                assert(views(ls@).take(k + 1).last() == ls@[k as int]@);
                if tv.len() > 0 && !starts_with_chars(&tv, 0, &hash) {
                    patterns.push(ls[k].clone());
                    assert(views(patterns@) =~= before.push(ls@[k as int]@));
                }
                k = k + 1;
            }
            assert(views(ls@).take(n as int) =~= views(ls@));
        } else {
            assert(defaults + Seq::<Seq<char>>::empty() =~= defaults);
        }
        self.ignore_patterns = patterns;
    }

    /// Whether the ignore patterns (the default ones and those of the
    /// repository's `.gitignore`) are to be loaded before the walk: where the
    /// query holds none yet.
    pub fn needs_ignore_patterns(&self) -> (r: bool)
        ensures
            r == (self.ignore_patterns@.len() == 0),
    {
        self.ignore_patterns.len() == 0
    }

    /// The headers of a request for this query that accepts `accept`.
    pub fn request_headers(&self, accept: &str) -> (r: Vec<(String, String)>)
        ensures
            header_views(r@) == request_headers_spec(opt_view(self.github_token), accept@),
    {
        let mut r: Vec<(String, String)> = Vec::new();
        r.push((String::from_str("User-Agent"), String::from_str("X-GitHub-Api-Version: 2022-11-28")));
        r.push((String::from_str("Accept"), String::from_str(accept)));
        match &self.github_token {
            Some(t) => {
                let mut v = String::from_str("Bearer ");
                v.append(t.as_str());
                r.push((String::from_str("Authorization"), v));
            },
            None => {},
        }
        assert(header_views(r@) =~= request_headers_spec(opt_view(self.github_token), accept@));
        r
    }

    /// The path within the repository that this query lists: its path, or
    /// the empty path for the repository's root.
    pub fn root_path(&self) -> (r: &str)
        ensures
            r@ == match self.path {
                Some(p) => p@,
                None => Seq::<char>::empty(),
            },
    {
        match &self.path {
            Some(p) => p.as_str(),
            None => {
                proof {
                    reveal_strlit("");
                }
                ""
            },
        }
    }
}

/// The download URL of the first entry of a listing, where it has one; for
/// the listing of `.gitignore`, where its text can be fetched.
pub fn first_download_url(listing: &Vec<GitHubContent>) -> (r: Option<String>)
    ensures
        listing@.len() == 0 ==> r is None,
        listing@.len() > 0 ==> r == listing@[0].download_url,
{
    if listing.len() == 0 {
        None
    } else {
        clone_opt_string(&listing[0].download_url)
    }
}

} // verus!
