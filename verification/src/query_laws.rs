//! What the query's outputs are in terms of its fields: the contents API URL
//! of a path on a branch, which paths the patterns let in and leave out, the
//! first listing a run asks for, the API URL its summary shows, and how the
//! top-level directories are counted, and how a repository URL is read.
use vstd::prelude::*;
use crate::glob_match::glob_hit;
use crate::model::NodeView;
use crate::query::{
    api_url_text, default_ignore_patterns, github_prefix, gitignore_patterns, ignore_patterns_for,
    url_branch, url_path, url_segments, QueryView,
};
use crate::session::{start_spec, RequestView};
use crate::summary::summary_text;
use crate::text::{
    contains, is_ws, join, starts_with, lemma_index_of_bounds, lemma_index_of_is, non_empty, split_pieces,
    trim, trim_end, trim_start,
};
use crate::walk::count_dirs;

verus! {

/// The contents API URL of a path: the repository's contents URL, then `/`
/// and the path where the path is not empty, then, on a branch `b`,
/// `?ref=` and `b` at the very end.
pub proof fn lemma_api_url_parts(
    user: Seq<char>,
    repo: Seq<char>,
    path: Seq<char>,
    branch: Option<Seq<char>>,
)
    ensures
        path.len() == 0 ==> api_url_text(user, repo, path, None) == "https://api.github.com/repos/"@
            + user + "/"@ + repo + "/contents"@,
        path.len() > 0 ==> api_url_text(user, repo, path, None) == "https://api.github.com/repos/"@
            + user + "/"@ + repo + "/contents/"@ + path,
        branch matches Some(b) ==> api_url_text(user, repo, path, branch) == api_url_text(
            user,
            repo,
            path,
            None,
        ) + "?ref="@ + b,
{
    reveal_strlit("/contents/");
    reveal_strlit("/contents");
    reveal_strlit("/");
    let base = "https://api.github.com/repos/"@ + user + "/"@ + repo;
    assert("/contents/"@ =~= "/contents"@ + "/"@);
    if path.len() == 0 {
        assert(api_url_text(user, repo, path, None) =~= base + "/contents"@);
    } else {
        assert(api_url_text(user, repo, path, None) =~= base + "/contents"@ + ("/"@ + path));
        assert(base + "/contents"@ + ("/"@ + path) =~= base + "/contents/"@ + path);
    }
    if let Some(b) = branch {
        assert(api_url_text(user, repo, path, branch) =~= api_url_text(user, repo, path, None) + (
        "?ref="@ + b));
    }
}

/// Include patterns: without any, every path is let in; a path that any one
/// of them matches is let in; with some, a path that none matches is not.
pub proof fn lemma_include_meaning(q: QueryView, path: Seq<char>)
    ensures
        q.include_patterns.len() == 0 ==> q.includes(path),
        forall|i: int|
            0 <= i < q.include_patterns.len() && #[trigger] glob_hit(q.include_patterns[i], path)
                ==> q.includes(path),
        q.include_patterns.len() > 0 && (forall|i: int|
            0 <= i < q.include_patterns.len() ==> !#[trigger] glob_hit(q.include_patterns[i], path))
            ==> !q.includes(path),
{
}

/// Exclude and ignore patterns: a path that any exclude pattern matches, or
/// that holds any ignore pattern, is left out; a path that no exclude
/// pattern matches and that holds no ignore pattern is not.
pub proof fn lemma_exclude_meaning(q: QueryView, path: Seq<char>)
    ensures
        forall|i: int|
            0 <= i < q.exclude_patterns.len() && #[trigger] glob_hit(q.exclude_patterns[i], path)
                ==> q.excludes(path),
        forall|j: int|
            0 <= j < q.ignore_patterns.len() && #[trigger] contains(path, q.ignore_patterns[j])
                ==> q.excludes(path),
        (forall|i: int|
            0 <= i < q.exclude_patterns.len() ==> !#[trigger] glob_hit(q.exclude_patterns[i], path))
            && (forall|j: int|
            0 <= j < q.ignore_patterns.len() ==> !#[trigger] contains(path, q.ignore_patterns[j]))
            ==> !q.excludes(path),
{
}

/// A run first asks for the listing of the query's own path (the root where
/// the query names none), on the query's branch.
pub proof fn lemma_start_lists_query_path(q: QueryView)
    ensures
        start_spec(q).1 == RequestView::Listing(
            api_url_text(
                q.user_name,
                q.repo_name,
                match q.path {
                    Some(p) => p,
                    None => Seq::<char>::empty(),
                },
                q.branch,
            ),
        ),
{
}

/// The summary shows, after `API URL:`, the contents API URL of the query's
/// own path (the root where the query names none), on the query's branch.
pub proof fn lemma_summary_shows_query_url(
    q: QueryView,
    n: NodeView,
    files: Seq<(Seq<char>, Seq<char>)>,
    url: Seq<char>,
)
    requires
        url == api_url_text(
            q.user_name,
            q.repo_name,
            match q.path {
                Some(p) => p,
                None => Seq::<char>::empty(),
            },
            q.branch,
        ),
    ensures
        exists|i: int|
            0 <= i && i + ("API URL:\n"@ + url + "\n\n"@).len() <= summary_text(q, n, files).len()
                && #[trigger] summary_text(q, n, files).subrange(
                i,
                i + ("API URL:\n"@ + url + "\n\n"@).len(),
            ) == "API URL:\n"@ + url + "\n\n"@,
{
    let s = summary_text(q, n, files);
    let m = "API URL:\n"@ + url + "\n\n"@;
    let pre = "Repository: "@ + q.user_name + "/"@ + q.repo_name + "\n"@ + "Total files: "@
        + crate::text::decimal(n.file_count as nat) + "\n"@ + "Total size: "@
        + crate::summary::kib_text(n.size) + " KB\n"@ + "Directory count: "@
        + crate::text::decimal(n.dir_count as nat) + "\n\n"@;
    let post = "Directory structure:\n"@ + crate::summary::tree_text(n, seq![], true) + (if files.len()
        > 0 {
        "\nSelected file contents:\n"@ + crate::summary::files_text(files)
    } else {
        seq![]
    });
    assert(s =~= pre + m + post);
    let i = pre.len() as int;
    assert(s.len() == pre.len() + m.len() + post.len());
    assert(s.subrange(i, i + m.len()) =~= m);
}

/// Top-level directories are counted one by one: none among no nodes, and
/// one more for each further node that is a directory.
pub proof fn lemma_count_dirs_adds_up(cs: Seq<NodeView>, c: NodeView)
    ensures
        count_dirs(Seq::<NodeView>::empty()) == 0,
        c.node_type == "directory"@ ==> count_dirs(cs.push(c)) == count_dirs(cs) + 1,
        c.node_type != "directory"@ ==> count_dirs(cs.push(c)) == count_dirs(cs),
{
    assert(cs.push(c).drop_last() =~= cs);
}

/// Whether `s` holds no `/`.
pub open spec fn slash_free(s: Seq<char>) -> bool {
    forall|k: int| 0 <= k < s.len() ==> s[k] != '/'
}

proof fn lemma_split_single(a: Seq<char>, c: char)
    requires
        forall|k: int| 0 <= k < a.len() ==> a[k] != c,
    ensures
        split_pieces(a, c) == seq![a],
{
    lemma_index_of_bounds(a, c);
}

proof fn lemma_split_cons(a: Seq<char>, rest: Seq<char>, c: char)
    requires
        forall|k: int| 0 <= k < a.len() ==> a[k] != c,
    ensures
        split_pieces(a + seq![c] + rest, c) == seq![a] + split_pieces(rest, c),
{
    let s = a + seq![c] + rest;
    assert forall|k: int| 0 <= k < a.len() implies s[k] != c by {
        assert(s[k] == a[k]);
    }
    lemma_index_of_is(s, c, a.len() as int);
    assert(s.take(a.len() as int) =~= a);
    assert(s.skip(a.len() as int + 1) =~= rest);
}

proof fn lemma_non_empty_keeps(ps: Seq<Seq<char>>)
    requires
        forall|i: int| 0 <= i < ps.len() ==> #[trigger] ps[i].len() > 0,
    ensures
        non_empty(ps) == ps,
    decreases ps.len(),
{
    if ps.len() > 0 {
        assert forall|i: int| 0 <= i < ps.drop_first().len() implies #[trigger] ps.drop_first()[i].len()
            > 0 by {
            assert(ps.drop_first()[i] == ps[i + 1]);
        }
        lemma_non_empty_keeps(ps.drop_first());
        assert(seq![ps[0]] + ps.drop_first() =~= ps);
    }
}

proof fn lemma_trim_keeps(s: Seq<char>)
    requires
        s.len() > 0,
        !is_ws(s[0]),
        !is_ws(s.last()),
    ensures
        trim(s) == s,
{
    assert(trim_start(s) == s);
    assert(trim_end(s) == s);
}

/// A repository URL with a branch and a path,
/// `https://github.com/user/repo/tree/branch/path`, is read as that user,
/// repository, branch and path; one without, `https://github.com/user/repo`,
/// names neither.
pub proof fn lemma_repository_url_read(
    user: Seq<char>,
    repo: Seq<char>,
    branch: Seq<char>,
    path: Seq<char>,
)
    requires
        user.len() > 0 && repo.len() > 0 && branch.len() > 0 && path.len() > 0,
        slash_free(user) && slash_free(repo) && slash_free(branch) && slash_free(path),
        !is_ws(repo.last()) && !is_ws(path.last()),
    ensures
        ({
            let url = github_prefix() + user + "/"@ + repo + "/tree/"@ + branch + "/"@ + path;
            let segs = url_segments(url);
            &&& segs == seq![user, repo, "tree"@, branch, path]
            &&& url_branch(segs) == Some(branch)
            &&& url_path(segs) == Some(path)
        }),
        ({
            let url = github_prefix() + user + "/"@ + repo;
            let segs = url_segments(url);
            &&& segs == seq![user, repo]
            &&& url_branch(segs) is None
            &&& url_path(segs) is None
        }),
{
    reveal_strlit("https://github.com/");
    reveal_strlit("/");
    reveal_strlit("/tree/");
    reveal_strlit("tree");
    let pre = github_prefix();
    let tree = "tree"@;
    assert(tree.len() == 4 && tree[0] == 't');
    assert(slash_free(tree));
    let slash = seq!['/'];
    let url = pre + user + "/"@ + repo + "/tree/"@ + branch + "/"@ + path;
    assert(url[0] == 'h');
    assert(url.last() == path.last());
    lemma_trim_keeps(url);
    let body = user + slash + (repo + slash + (tree + slash + (branch + slash + path)));
    assert(url.skip(pre.len() as int) =~= body);
    lemma_split_single(path, '/');
    lemma_split_cons(branch, path, '/');
    lemma_split_cons(tree, branch + slash + path, '/');
    lemma_split_cons(repo, tree + slash + (branch + slash + path), '/');
    lemma_split_cons(user, repo + slash + (tree + slash + (branch + slash + path)), '/');
    let segs = seq![user, repo, tree, branch, path];
    assert(split_pieces(body, '/') =~= segs);
    lemma_non_empty_keeps(segs);
    assert(url_segments(url) == segs);
    assert(segs.skip(4) =~= seq![path]);
    let url2 = pre + user + "/"@ + repo;
    assert(url2[0] == 'h');
    assert(url2.last() == repo.last());
    lemma_trim_keeps(url2);
    let body2 = user + slash + repo;
    assert(url2.skip(pre.len() as int) =~= body2);
    lemma_split_single(repo, '/');
    lemma_split_cons(user, repo, '/');
    let segs2 = seq![user, repo];
    assert(split_pieces(body2, '/') =~= segs2);
    lemma_non_empty_keeps(segs2);
}

/// Path segments are joined with `/` between each two neighbours: one
/// segment is itself, and one more adds `/` and it at the end.
pub proof fn lemma_join_appends(ps: Seq<Seq<char>>, x: Seq<char>)
    ensures
        join(seq![x], "/"@) == x,
        ps.len() > 0 ==> join(ps.push(x), "/"@) == join(ps, "/"@) + "/"@ + x,
{
    assert(ps.push(x).drop_last() =~= ps);
}

/// The ignore patterns set from a `.gitignore` are the default ones followed
/// by its lines in order, each kept as it stands exactly when it is neither
/// blank nor, once trimmed, a `#` comment; without a `.gitignore`, the
/// default ones alone.
pub proof fn lemma_gitignore_patterns_meaning(ls: Seq<Seq<char>>, l: Seq<char>, text: Seq<char>)
    ensures
        ignore_patterns_for(None) == default_ignore_patterns(),
        ignore_patterns_for(Some(text)) == default_ignore_patterns() + gitignore_patterns(
            crate::text::lines(text),
        ),
        gitignore_patterns(Seq::<Seq<char>>::empty()) == Seq::<Seq<char>>::empty(),
        trim(l).len() > 0 && !starts_with(trim(l), "#"@) ==> gitignore_patterns(ls.push(l))
            == gitignore_patterns(ls).push(l),
        trim(l).len() == 0 || starts_with(trim(l), "#"@) ==> gitignore_patterns(ls.push(l))
            == gitignore_patterns(ls),
{
    assert(ls.push(l).drop_last() =~= ls);
    assert(default_ignore_patterns() + Seq::<Seq<char>>::empty() =~= default_ignore_patterns());
}

} // verus!
