//! What holds of a whole run: the paths it leaves out are all listed, the
//! size limits end it, it downloads only the small files of its tree, and a
//! slash command answers with the outcome of its run.
use vstd::prelude::*;
use crate::command::answer_text;
use crate::errors::{api_error_text, ingest_error_text, IngestErrorView};
use crate::files::{target_views, targets_in, targets_of};
use crate::model::NodeView;
use crate::laws::{lemma_kinds_differ, lemma_small_files_below, lemma_step_progress, pending, small_file_in};
use crate::model::{MAX_FILES, MAX_TOTAL_SIZE};
use crate::query::QueryView;
use crate::session::{
    request_ok, resume_spec, run_done, run_spec, start_spec, walk_run, walk_shape, Ingest,
    IngestView, Phase, Reply, Request, RequestView, WalkRun,
};
use crate::walk::{entry_size, has_next, next_entry, walk_enter, walk_step, StepView, WalkView};

verus! {

/// A step of a walk that goes on keeps the walk's shape and every path
/// recorded as left out so far.
proof fn lemma_step_keeps_shape(q: QueryView, w: WalkView)
    requires
        walk_shape(w),
    ensures
        walk_step(q, w) matches StepView::Continue(w2) ==> walk_shape(w2) && w.ignored.is_prefix_of(
            w2.ignored,
        ),
{
    let top = w.frames.len() - 1;
    if let StepView::Continue(w2) = walk_step(q, w) {
        if has_next(w) {
            assert(w2.frames.len() == w.frames.len());
            assert forall|k: int| 0 <= k < w2.frames.len() implies #[trigger] w2.frames[k].next
                <= w2.frames[k].items.len() by {
                if k != top {
                    assert(w2.frames[k] == w.frames[k]);
                }
            }
        } else {
            assert forall|k: int| 0 <= k < w2.frames.len() implies #[trigger] w2.frames[k].next
                <= w2.frames[k].items.len() by {
                assert(w.frames[k].next <= w.frames[k].items.len());
            }
        }
    }
}

/// A run never forgets a path it left out: the walk, stepped on its own,
/// keeps every path recorded so far, in order, in the walk it hands on for a
/// listing and in the tree it ends with; an entry that an exclude or ignore
/// pattern matches is recorded right after them; and answering a listing
/// changes nothing recorded.
pub proof fn lemma_run_keeps_ignored(q: QueryView, w: WalkView)
    requires
        walk_shape(w),
    ensures
        walk_run(q, w) matches WalkRun::Listing(w2, _) ==> w.ignored.is_prefix_of(w2.ignored),
        walk_run(q, w) matches WalkRun::Finished(Ok(t)) ==> w.ignored.is_prefix_of(t.ignored),
        has_next(w) && q.excludes(next_entry(w).path@) ==> {
            let kept = w.ignored.push(next_entry(w).path@);
            &&& walk_run(q, w) matches WalkRun::Listing(w2, _) ==> kept.is_prefix_of(w2.ignored)
            &&& walk_run(q, w) matches WalkRun::Finished(Ok(t)) ==> kept.is_prefix_of(t.ignored)
        },
        forall|l: Option<Seq<crate::model::GitHubContent>>| #[trigger] walk_enter(q, w, l).ignored
            == w.ignored,
    decreases pending(w.frames),
{
    lemma_step_keeps_shape(q, w);
    lemma_step_progress(q, w);
    match walk_step(q, w) {
        StepView::Continue(w2) => {
            lemma_run_keeps_ignored(q, w2);
            assert(walk_run(q, w) == walk_run(q, w2));
            match walk_run(q, w2) {
                WalkRun::Listing(w3, _) => {
                    assert(w.ignored.is_prefix_of(w3.ignored)) by {
                        assert(w3.ignored.subrange(0, w.ignored.len() as int) =~= w2.ignored.subrange(
                            0,
                            w2.ignored.len() as int,
                        ).subrange(0, w.ignored.len() as int));
                    }
                },
                WalkRun::Finished(Ok(t)) => {
                    assert(w.ignored.is_prefix_of(t.ignored)) by {
                        assert(t.ignored.subrange(0, w.ignored.len() as int) =~= t.ignored.subrange(
                            0,
                            w2.ignored.len() as int,
                        ).subrange(0, w.ignored.len() as int));
                    }
                },
                _ => {},
            }
        },
        _ => {},
    }
    assert forall|l: Option<Seq<crate::model::GitHubContent>>| #[trigger] walk_enter(q, w, l).ignored
        == w.ignored by {}
}

/// A file that would take the walk past `MAX_FILES` files or
/// `MAX_TOTAL_SIZE` bytes ends the whole run with `MaxSizeExceeded`, carrying
/// the total size with that file, and nothing more is asked.
pub proof fn lemma_limits_end_run(q: QueryView, w: WalkView)
    requires
        walk_shape(w),
        has_next(w),
        !q.excludes(next_entry(w).path@),
        next_entry(w).content_type@ == "file"@,
        q.includes(next_entry(w).path@),
        w.total_size + entry_size(next_entry(w)) <= u64::MAX,
        w.total_files + 1 > MAX_FILES || w.total_size + entry_size(next_entry(w)) > MAX_TOTAL_SIZE,
    ensures
        run_spec(q, w) == (
            run_done(q),
            RequestView::Finished(
                Err(
                    IngestErrorView::MaxSizeExceeded(
                        (w.total_size + entry_size(next_entry(w))) as u64,
                    ),
                ),
            ),
        ),
{
}

/// A run downloads only files of its tree no larger than `MAX_FILE_SIZE`:
/// a download it asks for while fetching the tree's files is the URL of such
/// a file node of the tree.
pub proof fn lemma_downloads_are_small_files(next: Ingest, req: Request)
    requires
        request_ok(next, req),
    ensures
        req matches Request::Text(u) ==> (next.phase matches Phase::AwaitFile(tree, _, _) ==> exists|
            p: Seq<char>,
        | small_file_in(tree.root@, (p, u@))),
{
    if let Request::Text(u) = req {
        if let Phase::AwaitFile(tree, targets, fetched) = next.phase {
            let q = next.query@;
            let i = fetched@.len() as int;
            lemma_kinds_differ();
            lemma_small_files_below(q, tree.root@);
            let t = target_views(targets@)[i];
            assert(small_file_in(tree.root@, t));
            assert(t == (t.0, u@));
        }
    }
}

/// The outcome of a run in state `s` that has asked `req`, when its requests
/// are answered by `replies` in order: the result it finishes with, or none
/// where the replies run out first or the total size overflowed.
pub open spec fn run_outcome(s: IngestView, req: RequestView, replies: Seq<Reply>) -> Option<
    Result<Seq<char>, IngestErrorView>,
>
    decreases replies.len(),
{
    match req {
        RequestView::Finished(r) => Some(r),
        RequestView::SizeOverflow => None,
        _ => if replies.len() == 0 {
            None
        } else {
            let (s2, req2) = resume_spec(s, replies[0]);
            run_outcome(s2, req2, replies.drop_first())
        },
    }
}

/// What a slash command for query `q` answers when the run's requests are
/// answered by `replies`: the answer text of the run's outcome.
pub open spec fn slash_answer(q: QueryView, replies: Seq<Reply>) -> Option<Seq<char>> {
    let (s, req) = start_spec(q);
    match run_outcome(s, req, replies) {
        Some(r) => Some(answer_text(r)),
        None => None,
    }
}

/// A repository whose root listing cannot be had is answered with the
/// repository-not-found message, whatever the query.
pub proof fn lemma_missing_repository_answer(
    q: QueryView,
    e: crate::errors::GitHubApiError,
)
    ensures
        slash_answer(q, seq![Reply::Listing(Err(e))]) == Some(
            "error: "@ + ingest_error_text(IngestErrorView::RepoNotFound(api_error_text(e))),
        ),
{
    let replies = seq![Reply::Listing(Err(e))];
    let (s, req) = start_spec(q);
    let (s2, req2) = resume_spec(s, replies[0]);
    assert(req2 == RequestView::Finished(Err(IngestErrorView::RepoNotFound(api_error_text(e)))));
    assert(run_outcome(s2, req2, replies.drop_first()) == Some(
        Err::<Seq<char>, IngestErrorView>(IngestErrorView::RepoNotFound(api_error_text(e))),
    ));
}

/// The files fetched from a tree are found depth first, a node before its
/// children and the children in order: a file that is not left out for its
/// size and has a download URL comes first with its path and that URL, then
/// the files of each child in turn; any other node adds only its children's.
pub proof fn lemma_targets_depth_first(n: NodeView, cs: Seq<NodeView>, c: NodeView)
    ensures
        targets_in(Seq::<NodeView>::empty()) == Seq::<(Seq<char>, Seq<char>)>::empty(),
        targets_in(cs.push(c)) == targets_in(cs) + targets_of(c),
        n.node_type == "file"@ && !n.ignore_content && n.download_url is Some ==> targets_of(n)
            == seq![(n.path, n.download_url->0)] + targets_in(n.children),
        !(n.node_type == "file"@ && !n.ignore_content && n.download_url is Some) ==> targets_of(n)
            == targets_in(n.children),
{
    assert(cs.push(c).subrange(0, cs.len() as int) =~= cs);
    assert(seq![] + targets_in(n.children) =~= targets_in(n.children));
}

} // verus!
