//! A whole ingestion run as a state machine: the repository's listing, its
//! ignore patterns, the walk over its directories, and the downloads of the
//! selected files. Every piece of outside work is a request that the caller
//! answers; the run ends with the summary or an error.
use vstd::prelude::*;
use crate::errors::{api_error_text, repo_not_found, GitHubApiError, GitIngestError, IngestErrorView};
use crate::files::{
    contents_view, file_targets, gather_file_contents, gathered, lemma_gathered_ok, target_views,
    targets_of, FileTarget,
};
use crate::laws::{
    lemma_enter_keeps_inv, lemma_kinds_differ, lemma_start_inv, lemma_step_keeps_inv,
    lemma_step_progress, lemma_targets_admitted, pending, tree_ok, walk_inv,
};
use crate::model::{opt_view, FileContent, GitHubContent};
use crate::query::{api_url_text, ignore_patterns_for, ignore_patterns_from, first_download_url, Query, QueryView};
use crate::summary::{ignored_section, summary_text};
use crate::walk::{
    awaits_listing, root_node, walk_enter, walk_step, FrameView, RepoTree, RepoTreeView, RepoWalk,
    StepView, WalkStep, WalkView,
};

verus! {

/// Where a run stands.
pub enum Phase {
    /// Waiting for the listing of the repository's root (or of its path).
    AwaitRoot,
    /// Waiting for the listing of `.gitignore`; holds the root listing.
    AwaitGitignoreListing(Vec<GitHubContent>),
    /// Waiting for the text of `.gitignore`; holds the root listing.
    AwaitGitignoreText(Vec<GitHubContent>),
    /// Waiting for the listing of the directory the walk asked for.
    AwaitDirectory(RepoWalk),
    /// Waiting for the download of the next file; holds the tree, the files
    /// to download, and what the downloads so far gave.
    AwaitFile(RepoTree, Vec<FileTarget>, Vec<Result<String, GitHubApiError>>),
    /// The run is over; where it succeeded, with the tree and the files.
    Done(Option<(RepoTree, Vec<FileContent>)>),
}

/// A run for one query.
pub struct Ingest {
    pub query: Query,
    pub phase: Phase,
}

/// What a run asks of its caller next.
pub enum Request {
    /// Fetch the contents listing at this API URL.
    Listing(String),
    /// Download the text at this URL.
    Text(String),
    /// The run is over, with the summary or an error.
    Finished(Result<String, GitIngestError>),
    /// Adding a file's size to the total size overflowed `u64`.
    SizeOverflow,
}

/// The caller's answer to a request.
pub enum Reply {
    /// The outcome of fetching a listing.
    Listing(Result<Vec<GitHubContent>, GitHubApiError>),
    /// The outcome of downloading a text.
    Text(Result<String, GitHubApiError>),
}

/// The mathematical value of a `Phase`.
pub enum PhaseView {
    AwaitRoot,
    AwaitGitignoreListing(Seq<GitHubContent>),
    AwaitGitignoreText(Seq<GitHubContent>),
    AwaitDirectory(WalkView),
    AwaitFile(RepoTreeView, Seq<(Seq<char>, Seq<char>)>, Seq<Result<String, GitHubApiError>>),
    Done(Option<(RepoTreeView, Seq<(Seq<char>, Seq<char>)>)>),
}

/// The mathematical value of an `Ingest`.
pub struct IngestView {
    pub query: QueryView,
    pub phase: PhaseView,
}

/// The mathematical value of a `Request`.
pub enum RequestView {
    Listing(Seq<char>),
    Text(Seq<char>),
    Finished(Result<Seq<char>, IngestErrorView>),
    SizeOverflow,
}

impl View for Ingest {
    type V = IngestView;

    open spec fn view(&self) -> IngestView {
        IngestView {
            query: self.query@,
            phase: match self.phase {
                Phase::AwaitRoot => PhaseView::AwaitRoot,
                Phase::AwaitGitignoreListing(v) => PhaseView::AwaitGitignoreListing(v@),
                Phase::AwaitGitignoreText(v) => PhaseView::AwaitGitignoreText(v@),
                Phase::AwaitDirectory(w) => PhaseView::AwaitDirectory(w@),
                Phase::AwaitFile(t, ts, f) => PhaseView::AwaitFile(t@, target_views(ts@), f@),
                Phase::Done(Some((t, fs))) => PhaseView::Done(Some((t@, contents_view(fs@)))),
                Phase::Done(None) => PhaseView::Done(None),
            },
        }
    }
}

impl View for Request {
    type V = RequestView;

    open spec fn view(&self) -> RequestView {
        match self {
            Request::Listing(u) => RequestView::Listing(u@),
            Request::Text(u) => RequestView::Text(u@),
            Request::Finished(Ok(s)) => RequestView::Finished(Ok(s@)),
            Request::Finished(Err(e)) => RequestView::Finished(Err(e@)),
            Request::SizeOverflow => RequestView::SizeOverflow,
        }
    }
}

/// The walk of a repository before anything is taken: the root, with the
/// root listing to look through.
pub open spec fn start_walk(repo_name: Seq<char>, items: Seq<GitHubContent>) -> WalkView {
    WalkView {
        frames: seq![FrameView { node: root_node(repo_name), items, next: 0 }],
        total_files: 0,
        total_size: 0,
        ignored: seq![],
    }
}

/// Whether a walk has a directory to fill and positions within its listings.
pub open spec fn walk_shape(w: WalkView) -> bool {
    &&& w.frames.len() >= 1
    &&& forall|k: int| 0 <= k < w.frames.len() ==> #[trigger] w.frames[k].next <= w.frames[k].items.len()
}

/// Where a walk stops when it is stepped on its own.
pub enum WalkRun {
    /// It asks for the listing of the directory at this path.
    Listing(WalkView, Seq<char>),
    /// It ends with the tree or an error.
    Finished(Result<RepoTreeView, IngestErrorView>),
    /// The total size overflowed `u64`.
    Overflow,
}

/// The walk stepped (`walk_step`) until it asks for a listing or ends.
pub open spec fn walk_run(q: QueryView, w: WalkView) -> WalkRun
    decreases pending(w.frames),
    when walk_shape(w)
{
    match walk_step(q, w) {
        StepView::Continue(w2) => {
            proof {
                lemma_step_progress(q, w);
            }
            walk_run(q, w2)
        },
        StepView::NeedListing(w2, p) => WalkRun::Listing(w2, p),
        StepView::Finished(r) => WalkRun::Finished(r),
        StepView::SizeOverflow => WalkRun::Overflow,
    }
}

/// A run that is over without a result.
pub open spec fn run_done(q: QueryView) -> IngestView {
    IngestView { query: q, phase: PhaseView::Done(None) }
}

/// How a run ends once its downloads `fetched` of `targets` are answered:
/// the first failed download ends it with `RepoNotFound`; otherwise it ends
/// with the summary of the tree, the contents, and the paths left out.
pub open spec fn finish_spec(
    q: QueryView,
    tree: RepoTreeView,
    targets: Seq<(Seq<char>, Seq<char>)>,
    fetched: Seq<Result<String, GitHubApiError>>,
) -> (IngestView, RequestView) {
    match gathered(targets, fetched) {
        Err(e) => (
            run_done(q),
            RequestView::Finished(Err(IngestErrorView::RepoNotFound(api_error_text(e)))),
        ),
        Ok(cv) => (
            IngestView { query: q, phase: PhaseView::Done(Some((tree, cv))) },
            RequestView::Finished(Ok(summary_text(q, tree.root, cv) + ignored_section(tree.ignored))),
        ),
    }
}

/// How a run goes on from a finished tree: it downloads the tree's targets
/// in order, starting with the first; with none, it ends at once.
pub open spec fn files_spec(q: QueryView, tree: RepoTreeView) -> (IngestView, RequestView) {
    let ts = targets_of(tree.root);
    if ts.len() == 0 {
        finish_spec(q, tree, ts, seq![])
    } else {
        (
            IngestView { query: q, phase: PhaseView::AwaitFile(tree, ts, seq![]) },
            RequestView::Text(ts[0].1),
        )
    }
}

/// How a run goes on from walk `w`: the walk runs until it asks for a
/// directory's listing (requested at its contents API URL) or ends; a
/// finished tree goes on to its downloads, an error ends the run.
pub open spec fn run_spec(q: QueryView, w: WalkView) -> (IngestView, RequestView) {
    match walk_run(q, w) {
        WalkRun::Listing(w2, p) => (
            IngestView { query: q, phase: PhaseView::AwaitDirectory(w2) },
            RequestView::Listing(q.contents_url(p)),
        ),
        WalkRun::Finished(Ok(tree)) => files_spec(q, tree),
        WalkRun::Finished(Err(e)) => (run_done(q), RequestView::Finished(Err(e))),
        WalkRun::Overflow => (run_done(q), RequestView::SizeOverflow),
    }
}

/// A run's walk started on the root listing `items`, under `q`.
pub open spec fn begin_walk_spec(q: QueryView, items: Seq<GitHubContent>) -> (IngestView, RequestView) {
    run_spec(q, start_walk(q.repo_name, items))
}

/// The download URL of the first entry of a `.gitignore` listing reply.
pub open spec fn gitignore_url(reply: Reply) -> Option<Seq<char>> {
    match reply {
        Reply::Listing(Ok(l)) => if l@.len() > 0 {
            opt_view(l@[0].download_url)
        } else {
            None
        },
        _ => None,
    }
}

/// The run's start: it asks for the listing of the query's root path.
pub open spec fn start_spec(q: QueryView) -> (IngestView, RequestView) {
    (IngestView { query: q, phase: PhaseView::AwaitRoot }, RequestView::Listing(q.contents_url(q.root_path())))
}

/// What answering a run's request with `reply` does.
///
/// - The root listing: a failure ends the run with `RepoNotFound`; where the
///   query holds no ignore patterns the `.gitignore` listing is asked for,
///   otherwise the walk starts.
/// - The `.gitignore` listing: where its first entry has a download URL, that
///   text is asked for; otherwise the default ignore patterns are set and the
///   walk starts.
/// - The `.gitignore` text: the default patterns and the text's pattern lines
///   (the defaults alone where it could not be had) are set; the walk starts.
/// - A directory listing: the walk enters it (`walk_enter`; a failed listing
///   passes the directory over) and runs on.
/// - A download: it is added to those so far; a failure, or the last one,
///   ends the run (`finish_spec`); otherwise the next target's URL is asked
///   for.
/// - A reply of the wrong kind, or one to a run that is over, ends the run
///   with `SizeOverflow` as a marker; a caller never gives one.
pub open spec fn resume_spec(s: IngestView, reply: Reply) -> (IngestView, RequestView) {
    let q = s.query;
    match s.phase {
        PhaseView::AwaitRoot => match reply {
            Reply::Listing(Err(e)) => (
                run_done(q),
                RequestView::Finished(Err(IngestErrorView::RepoNotFound(api_error_text(e)))),
            ),
            Reply::Listing(Ok(items)) => if q.ignore_patterns.len() == 0 {
                (
                    IngestView { query: q, phase: PhaseView::AwaitGitignoreListing(items@) },
                    RequestView::Listing(q.contents_url(".gitignore"@)),
                )
            } else {
                begin_walk_spec(q, items@)
            },
            Reply::Text(_) => (run_done(q), RequestView::SizeOverflow),
        },
        PhaseView::AwaitGitignoreListing(items) => match gitignore_url(reply) {
            Some(u) => (
                IngestView { query: q, phase: PhaseView::AwaitGitignoreText(items) },
                RequestView::Text(u),
            ),
            None => begin_walk_spec(q.with_ignore(ignore_patterns_for(None)), items),
        },
        PhaseView::AwaitGitignoreText(items) => begin_walk_spec(
            q.with_ignore(
                ignore_patterns_for(
                    match reply {
                        Reply::Text(Ok(t)) => Some(t@),
                        _ => None,
                    },
                ),
            ),
            items,
        ),
        PhaseView::AwaitDirectory(w) => run_spec(
            q,
            walk_enter(
                q,
                w,
                match reply {
                    Reply::Listing(Ok(l)) => Some(l@),
                    _ => None,
                },
            ),
        ),
        PhaseView::AwaitFile(tree, ts, fetched) => match reply {
            Reply::Text(r) => {
                let f2 = fetched.push(r);
                if r is Err || f2.len() >= ts.len() {
                    finish_spec(q, tree, ts, f2)
                } else {
                    (
                        IngestView { query: q, phase: PhaseView::AwaitFile(tree, ts, f2) },
                        RequestView::Text(ts[f2.len() as int].1),
                    )
                }
            },
            Reply::Listing(_) => (run_done(q), RequestView::SizeOverflow),
        },
        PhaseView::Done(_) => (run_done(q), RequestView::SizeOverflow),
    }
}

/// Whether a run kept its query: the user, repository, path, branch, token,
/// include and exclude patterns are kept, and ignore patterns are changed
/// only where there were none.
pub open spec fn query_kept(old: QueryView, new: QueryView) -> bool {
    &&& new.user_name == old.user_name
    &&& new.repo_name == old.repo_name
    &&& new.path == old.path
    &&& new.branch == old.branch
    &&& new.github_token == old.github_token
    &&& new.include_patterns == old.include_patterns
    &&& new.exclude_patterns == old.exclude_patterns
    &&& old.ignore_patterns.len() > 0 ==> new.ignore_patterns == old.ignore_patterns
}

impl Ingest {
    /// What holds of a run in each phase: while `.gitignore` is read the
    /// query holds no ignore patterns; a walk being answered keeps the walk
    /// invariant and waits for a listing; a tree being downloaded, or a
    /// finished one, is as a walk makes it, and its files are its targets.
    pub open spec fn inv(&self) -> bool {
        let q = self.query@;
        match self.phase {
            Phase::AwaitGitignoreListing(_) => q.ignore_patterns.len() == 0,
            Phase::AwaitGitignoreText(_) => q.ignore_patterns.len() == 0,
            Phase::AwaitDirectory(w) => w.wf() && walk_inv(q, w@) && awaits_listing(q, w@),
            Phase::AwaitFile(tree, targets, fetched) => {
                &&& tree_ok(q, tree.root@, tree@.ignored)
                &&& target_views(targets@) == targets_of(tree.root@)
                &&& fetched@.len() < targets@.len()
                &&& forall|i: int| 0 <= i < fetched@.len() ==> #[trigger] fetched@[i] is Ok
            },
            Phase::Done(Some((tree, files))) => finished_ok(q, tree@, contents_view(files@)),
            _ => true,
        }
    }
}

/// What holds of a successful run: the tree is as a walk makes it, and the
/// files are the contents of its download targets, in order, each under its
/// target's path, each admitted by the query.
pub open spec fn finished_ok(q: QueryView, tree: RepoTreeView, files: Seq<(Seq<char>, Seq<char>)>) -> bool {
    &&& tree_ok(q, tree.root, tree.ignored)
    &&& files.len() == targets_of(tree.root).len()
    &&& forall|i: int| 0 <= i < files.len() ==> #[trigger] files[i].0 == targets_of(tree.root)[i].0
    &&& forall|i: int| 0 <= i < files.len() ==> q.admits(#[trigger] files[i].0)
}

/// What a step of a run may answer with: the summary of a successful run
/// states the tree's totals and lists its files and the paths left out; a
/// download asked for while the files are fetched is the next target's URL.
pub open spec fn request_ok(next: Ingest, req: Request) -> bool {
    &&& next.inv()
    &&& req matches Request::Finished(Ok(text)) ==> (next.phase matches Phase::Done(Some((tree, files)))
        && text@ == summary_text(next.query@, tree.root@, contents_view(files@)) + ignored_section(
        tree@.ignored,
    ))
    &&& req matches Request::Finished(Err(e)) ==> (e@ is RepoNotFound || e@ is MaxSizeExceeded)
    &&& req matches Request::Listing(_) ==> (next.phase is AwaitRoot || next.phase is AwaitGitignoreListing
        || next.phase is AwaitDirectory)
    &&& req matches Request::Text(_) ==> (next.phase is AwaitGitignoreText || next.phase is AwaitFile)
    &&& req matches Request::Text(u) ==> (next.phase matches Phase::AwaitFile(_, targets, fetched) ==> u@
        == target_views(targets@)[fetched@.len() as int].1)
    &&& (req is Finished || req is SizeOverflow) ==> next.phase is Done
}

/// Ends a run once its downloads are answered; see `finish_spec`.
fn finish(query: Query, tree: RepoTree, targets: Vec<FileTarget>, fetched: Vec<
    Result<String, GitHubApiError>,
>) -> (r: (Ingest, Request))
    requires
        tree_ok(query@, tree.root@, tree@.ignored),
        target_views(targets@) == targets_of(tree.root@),
        fetched@.len() <= targets@.len(),
        fetched@.len() < targets@.len() ==> exists|i: int| 0 <= i < fetched@.len() && #[trigger] fetched@[i] is Err,
    ensures
        r.0.query == query,
        request_ok(r.0, r.1),
        (r.0@, r.1@) == finish_spec(query@, tree@, target_views(targets@), fetched@),
{
    match gather_file_contents(&targets, &fetched) {
        Err(e) => {
            let err = repo_not_found(&e);
            (Ingest { query, phase: Phase::Done(None) }, Request::Finished(Err(err)))
        },
        Ok(files) => {
            proof {
                lemma_gathered_ok(target_views(targets@), fetched@);
                lemma_kinds_differ();
                lemma_targets_admitted(query@, tree.root@);
                if fetched@.len() < targets@.len() {
                    let i = choose|i: int| 0 <= i < fetched@.len() && #[trigger] fetched@[i] is Err;
                    lemma_ok_before(target_views(targets@), fetched@, i);
                }
                assert forall|i: int| 0 <= i < files@.len() implies #[trigger] contents_view(files@)[i].0
                    == targets_of(tree.root@)[i].0 by {
                    assert(target_views(targets@)[i] == (targets@[i].path@, targets@[i].download_url@));
                }
            }
            let text = query.create_repo_summary(&tree, files.as_slice());
            (Ingest { query, phase: Phase::Done(Some((tree, files))) }, Request::Finished(Ok(text)))
        },
    }
}

/// A gathering with a failed fetch does not succeed.
proof fn lemma_ok_before(
    targets: Seq<(Seq<char>, Seq<char>)>,
    fetched: Seq<Result<String, GitHubApiError>>,
    i: int,
)
    requires
        0 <= i < fetched.len(),
        fetched[i] is Err,
    ensures
        gathered(targets, fetched) is Err,
    decreases fetched.len(),
{
    if i < fetched.len() - 1 {
        assert(fetched.drop_last()[i] == fetched[i]);
        lemma_ok_before(targets, fetched.drop_last(), i);
    }
}

/// Starts downloading the files of a finished tree; see `files_spec`.
fn begin_files(query: Query, tree: RepoTree) -> (r: (Ingest, Request))
    requires
        tree_ok(query@, tree.root@, tree@.ignored),
    ensures
        r.0.query == query,
        request_ok(r.0, r.1),
        (r.0@, r.1@) == files_spec(query@, tree@),
{
    let targets = file_targets(&tree.root);
    if targets.len() == 0 {
        let fetched: Vec<Result<String, GitHubApiError>> = Vec::new();
        assert(fetched@ =~= Seq::<Result<String, GitHubApiError>>::empty());
        return finish(query, tree, targets, fetched);
    }
    let url = targets[0].download_url.clone();
    let fetched: Vec<Result<String, GitHubApiError>> = Vec::new();
    assert(fetched@ =~= Seq::<Result<String, GitHubApiError>>::empty());
    assert(target_views(targets@)[0] == (targets@[0].path@, targets@[0].download_url@));
    (Ingest { query, phase: Phase::AwaitFile(tree, targets, fetched) }, Request::Text(url))
}

/// Runs the walk until it asks for a listing or ends; see `run_spec`.
fn run_walk(query: Query, walk: RepoWalk) -> (r: (Ingest, Request))
    requires
        walk.wf(),
        walk_inv(query@, walk@),
    ensures
        r.0.query == query,
        request_ok(r.0, r.1),
        (r.0@, r.1@) == run_spec(query@, walk@),
{
    let mut cur_walk = walk;
    loop
        invariant
            cur_walk.wf(),
            walk_inv(query@, cur_walk@),
            run_spec(query@, cur_walk@) == run_spec(query@, walk@),
        decreases pending(cur_walk@.frames),
    {
        proof {
            lemma_step_keeps_inv(query@, cur_walk@);
            lemma_step_progress(query@, cur_walk@);
            assert(walk_shape(cur_walk@));
        }
        let ghost cur = cur_walk@;
        let step = cur_walk.step(&query);
        proof {
            assert(walk_run(query@, cur) == match walk_step(query@, cur) {
                StepView::Continue(w2) => walk_run(query@, w2),
                StepView::NeedListing(w2, p) => WalkRun::Listing(w2, p),
                StepView::Finished(r) => WalkRun::Finished(r),
                StepView::SizeOverflow => WalkRun::Overflow,
            });
        }
        match step {
            WalkStep::Continue(next) => {
                cur_walk = next;
            },
            WalkStep::NeedListing(next, path) => {
                let url = query.api_url(path.as_str());
                assert(walk_run(query@, cur) == WalkRun::Listing(next@, path@));
                assert(url@ == query@.contents_url(path@));
                return (Ingest { query, phase: Phase::AwaitDirectory(next) }, Request::Listing(url));
            },
            WalkStep::Finished(Ok(tree)) => {
                return begin_files(query, tree);
            },
            WalkStep::Finished(Err(e)) => {
                assert(e@ is MaxSizeExceeded);
                return (Ingest { query, phase: Phase::Done(None) }, Request::Finished(Err(e)));
            },
            WalkStep::SizeOverflow => {
                return (Ingest { query, phase: Phase::Done(None) }, Request::SizeOverflow);
            },
        }
    }
}

/// Starts the walk from the root listing; see `begin_walk_spec`.
fn begin_walk(query: Query, items: Vec<GitHubContent>) -> (r: (Ingest, Request))
    ensures
        r.0.query == query,
        request_ok(r.0, r.1),
        (r.0@, r.1@) == begin_walk_spec(query@, items@),
{
    proof {
        lemma_start_inv(query@, query@.repo_name, items@);
    }
    match RepoWalk::start(&query, Ok(items)) {
        Ok(walk) => {
            assert(walk@ == start_walk(query@.repo_name, items@));
            run_walk(query, walk)
        },
        Err(e) => {
            proof {
                assert(false);
            }
            (Ingest { query, phase: Phase::Done(None) }, Request::Finished(Err(e)))
        },
    }
}

impl Ingest {
    /// Starts a run for `query`: it first asks for the listing of the
    /// repository's root, or of the query's path.
    pub fn start(query: Query) -> (r: (Ingest, Request))
        ensures
            r.0.query == query,
            (r.0@, r.1@) == start_spec(query@),
            request_ok(r.0, r.1),
            r.1 matches Request::Listing(u) && u@ == api_url_text(
                query@.user_name,
                query@.repo_name,
                match query@.path {
                    Some(p) => p,
                    None => Seq::<char>::empty(),
                },
                query@.branch,
            ),
    {
        let url = query.api_url(query.root_path());
        (Ingest { query, phase: Phase::AwaitRoot }, Request::Listing(url))
    }

    /// Answers the run's request and takes the run to its next request; see
    /// `resume_spec`.
    pub fn resume(self, reply: Reply) -> (r: (Ingest, Request))
        requires
            self.inv(),
        ensures
            (r.0@, r.1@) == resume_spec(self@, reply),
            request_ok(r.0, r.1),
            query_kept(self@.query, r.0@.query),
    {
        let ghost s0 = self@;
        let Ingest { mut query, phase } = self;
        match phase {
            Phase::AwaitRoot => match reply {
                Reply::Listing(Err(e)) => {
                    let err = repo_not_found(&e);
                    (Ingest { query, phase: Phase::Done(None) }, Request::Finished(Err(err)))
                },
                Reply::Listing(Ok(items)) => {
                    if query.needs_ignore_patterns() {
                        let url = query.api_url(".gitignore");
                        (Ingest { query, phase: Phase::AwaitGitignoreListing(items) }, Request::Listing(url))
                    } else {
                        begin_walk(query, items)
                    }
                },
                Reply::Text(_) => (Ingest { query, phase: Phase::Done(None) }, Request::SizeOverflow),
            },
            Phase::AwaitGitignoreListing(items) => {
                let url = match &reply {
                    Reply::Listing(Ok(listing)) => first_download_url(listing),
                    _ => None,
                };
                assert(opt_view(url) == gitignore_url(reply));
                match url {
                    Some(u) => (Ingest { query, phase: Phase::AwaitGitignoreText(items) }, Request::Text(u)),
                    None => {
                        query.set_ignore_patterns(None);
                        begin_walk(query, items)
                    },
                }
            },
            Phase::AwaitGitignoreText(items) => {
                let ghost text = match &reply {
                    Reply::Text(Ok(t)) => Some(t@),
                    _ => None,
                };
                match &reply {
                    Reply::Text(Ok(t)) => query.set_ignore_patterns(Some(t.as_str())),
                    _ => query.set_ignore_patterns(None),
                }
                assert(query@ == s0.query.with_ignore(ignore_patterns_for(text)));
                begin_walk(query, items)
            },
            Phase::AwaitDirectory(walk) => {
                let listing = match reply {
                    Reply::Listing(Ok(l)) => Some(l),
                    _ => None,
                };
                let ghost lv = match &listing {
                    Some(v) => Some(v@),
                    None => None,
                };
                proof {
                    lemma_enter_keeps_inv(query@, walk@, lv);
                }
                let next = walk.enter_directory(&query, listing);
                run_walk(query, next)
            },
            Phase::AwaitFile(tree, targets, fetched) => {
                let mut fetched = fetched;
                let got = match reply {
                    Reply::Text(t) => t,
                    Reply::Listing(_) => {
                        return (Ingest { query, phase: Phase::Done(None) }, Request::SizeOverflow);
                    },
                };
                let failed = got.is_err();
                let ghost before = fetched@;
                fetched.push(got);
                if failed || fetched.len() == targets.len() {
                    proof {
                        if failed {
                            assert(fetched@[before.len() as int] is Err);
                        }
                    }
                    finish(query, tree, targets, fetched)
                } else {
                    proof {
                        assert forall|i: int| 0 <= i < fetched@.len() implies #[trigger] fetched@[i] is Ok by {
                            if i < before.len() {
                                assert(fetched@[i] == before[i]);
                            }
                        }
                    }
                    let url = targets[fetched.len()].download_url.clone();
                    assert(target_views(targets@)[fetched@.len() as int] == (
                        targets@[fetched@.len() as int].path@,
                        targets@[fetched@.len() as int].download_url@,
                    ));
                    (Ingest { query, phase: Phase::AwaitFile(tree, targets, fetched) }, Request::Text(url))
                }
            },
            Phase::Done(_) => (Ingest { query, phase: Phase::Done(None) }, Request::SizeOverflow),
        }
    }
}

} // verus!
