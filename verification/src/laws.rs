//! What every walk keeps: the totals it carries agree with the files in the
//! tree it builds, no more files than `MAX_FILES` and no more bytes than
//! `MAX_TOTAL_SIZE` are taken, no node below the root is matched by an
//! exclude or ignore pattern, every file is let in by the include patterns,
//! every path recorded as left out is matched by an exclude or ignore
//! pattern, and a file's content is left out exactly when the file is larger
//! than `MAX_FILE_SIZE`.
use vstd::prelude::*;
use crate::model::{NodeView, MAX_FILES, MAX_FILE_SIZE, MAX_TOTAL_SIZE};
use crate::files::{is_target, targets_in, targets_of};
use crate::query::{Query, QueryView};
use crate::walk::{
    awaits_listing, dir_node, entry_size, file_node, finished_root, has_next, next_entry,
    record_entry, root_node, skip_entry, walk_enter, walk_step, with_child, FrameView, StepView,
    WalkView,
};

verus! {

/// The number of file nodes in the tree of `n`.
pub open spec fn files_in(n: NodeView) -> nat
    decreases n,
{
    (if n.node_type == "file"@ {
        1nat
    } else {
        0nat
    }) + files_among(n.children)
}

/// The number of file nodes in the trees of `cs`.
pub open spec fn files_among(cs: Seq<NodeView>) -> nat
    decreases cs,
{
    if cs.len() == 0 {
        0
    } else {
        files_among(cs.subrange(0, cs.len() - 1)) + files_in(cs[cs.len() - 1])
    }
}

/// The total size of the file nodes in the tree of `n`.
pub open spec fn size_in(n: NodeView) -> nat
    decreases n,
{
    (if n.node_type == "file"@ {
        n.size as nat
    } else {
        0nat
    }) + size_among(n.children)
}

/// The total size of the file nodes in the trees of `cs`.
pub open spec fn size_among(cs: Seq<NodeView>) -> nat
    decreases cs,
{
    if cs.len() == 0 {
        0
    } else {
        size_among(cs.subrange(0, cs.len() - 1)) + size_in(cs[cs.len() - 1])
    }
}

/// Whether a node that sits below the root is as a walk makes it: no
/// exclude or ignore pattern matches its path, and it is a directory, or a
/// file that the include patterns let in, without children, whose content is
/// left out exactly when it is larger than `MAX_FILE_SIZE`.
pub open spec fn entry_ok(q: QueryView, n: NodeView) -> bool {
    &&& !q.excludes(n.path)
    &&& (n.node_type == "directory"@ || (n.node_type == "file"@ && q.includes(n.path)
        && n.children.len() == 0 && n.ignore_content == (n.size > MAX_FILE_SIZE)))
}

/// The two node kinds are told apart.
pub proof fn lemma_kinds_differ()
    ensures
        "directory"@ != "file"@,
{
    reveal_strlit("file");
    reveal_strlit("directory");
    assert("file"@.len() == 4 && "directory"@.len() == 9);
}

/// Whether every node below `n` is as a walk makes it.
pub open spec fn below_ok(q: QueryView, n: NodeView) -> bool
    decreases n,
{
    all_ok(q, n.children)
}

/// Whether every node in the trees of `cs` is as a walk makes it.
pub open spec fn all_ok(q: QueryView, cs: Seq<NodeView>) -> bool
    decreases cs,
{
    if cs.len() == 0 {
        true
    } else {
        all_ok(q, cs.subrange(0, cs.len() - 1)) && entry_ok(q, cs[cs.len() - 1]) && below_ok(
            q,
            cs[cs.len() - 1],
        )
    }
}

/// The number of file nodes in the directories a walk is filling.
pub open spec fn frame_files(fs: Seq<FrameView>) -> nat
    decreases fs.len(),
{
    if fs.len() == 0 {
        0
    } else {
        frame_files(fs.drop_last()) + files_in(fs.last().node)
    }
}

/// The total size of the file nodes in the directories a walk is filling.
pub open spec fn frame_size(fs: Seq<FrameView>) -> nat
    decreases fs.len(),
{
    if fs.len() == 0 {
        0
    } else {
        frame_size(fs.drop_last()) + size_in(fs.last().node)
    }
}

/// What holds of the outcome of a finished walk: the root is a directory
/// that carries the number of files in its tree (at most `MAX_FILES`) and
/// their total size (at most `MAX_TOTAL_SIZE`); every node below it is as a
/// walk makes it; every path recorded as left out is matched by an exclude
/// or ignore pattern.
pub open spec fn tree_ok(q: QueryView, root: NodeView, ignored: Seq<Seq<char>>) -> bool {
    &&& root.file_count == files_in(root)
    &&& root.file_count <= MAX_FILES
    &&& root.size == size_in(root)
    &&& root.size <= MAX_TOTAL_SIZE
    &&& root.node_type == "directory"@
    &&& below_ok(q, root)
    &&& forall|i: int| 0 <= i < ignored.len() ==> q.excludes(#[trigger] ignored[i])
}

/// What holds of every state of a walk for query `q`.
pub open spec fn walk_inv(q: QueryView, w: WalkView) -> bool {
    &&& w.frames.len() >= 1
    &&& forall|k: int| 0 <= k < w.frames.len() ==> #[trigger] w.frames[k].next <= w.frames[k].items.len()
    &&& w.frames[0].node.node_type == "directory"@
    &&& forall|k: int| 1 <= k < w.frames.len() ==> entry_ok(q, #[trigger] w.frames[k].node)
        && w.frames[k].node.node_type == "directory"@
    &&& forall|k: int| 0 <= k < w.frames.len() ==> below_ok(q, #[trigger] w.frames[k].node)
    &&& w.total_files == frame_files(w.frames)
    &&& w.total_size == frame_size(w.frames)
    &&& 0 <= w.total_files <= MAX_FILES
    &&& 0 <= w.total_size <= MAX_TOTAL_SIZE
    &&& forall|i: int| 0 <= i < w.ignored.len() ==> q.excludes(#[trigger] w.ignored[i])
}

proof fn lemma_with_child(n: NodeView, c: NodeView)
    ensures
        files_in(with_child(n, c)) == files_in(n) + files_in(c),
        size_in(with_child(n, c)) == size_in(n) + size_in(c),
        with_child(n, c).node_type == n.node_type,
        forall|q: QueryView| #[trigger] below_ok(q, with_child(n, c)) == (below_ok(q, n) && entry_ok(q, c)
            && below_ok(q, c)),
{
    let cs = n.children.push(c);
    assert(cs.subrange(0, cs.len() - 1) =~= n.children);
    assert(cs[cs.len() - 1] == c);
}

proof fn lemma_leaf(n: NodeView)
    requires
        n.children.len() == 0,
    ensures
        files_in(n) == (if n.node_type == "file"@ {
            1nat
        } else {
            0nat
        }),
        size_in(n) == (if n.node_type == "file"@ {
            n.size as nat
        } else {
            0nat
        }),
        forall|q: QueryView| #[trigger] below_ok(q, n),
{
}

proof fn lemma_frames_replace_last(fs: Seq<FrameView>, f: FrameView)
    requires
        fs.len() >= 1,
    ensures
        frame_files(fs.update(fs.len() - 1, f)) == frame_files(fs.drop_last()) + files_in(f.node),
        frame_size(fs.update(fs.len() - 1, f)) == frame_size(fs.drop_last()) + size_in(f.node),
{
    let g = fs.update(fs.len() - 1, f);
    assert(g.drop_last() =~= fs.drop_last());
}

proof fn lemma_frames_push(fs: Seq<FrameView>, f: FrameView)
    ensures
        frame_files(fs.push(f)) == frame_files(fs) + files_in(f.node),
        frame_size(fs.push(f)) == frame_size(fs) + size_in(f.node),
{
    assert(fs.push(f).drop_last() =~= fs);
}

/// A walk starts in a state that keeps the walk invariant, for any query.
pub proof fn lemma_start_inv(q: QueryView, repo_name: Seq<char>, items: Seq<crate::model::GitHubContent>)
    ensures
        walk_inv(
            q,
            WalkView {
                frames: seq![FrameView { node: root_node(repo_name), items, next: 0 }],
                total_files: 0,
                total_size: 0,
                ignored: seq![],
            },
        ),
{
    let fs = seq![FrameView { node: root_node(repo_name), items, next: 0 }];
    lemma_kinds_differ();
    lemma_leaf(root_node(repo_name));
    assert(frame_files(Seq::<FrameView>::empty()) == 0);
    assert(frame_size(Seq::<FrameView>::empty()) == 0);
    lemma_frames_push(Seq::<FrameView>::empty(), fs[0]);
    assert(Seq::<FrameView>::empty().push(fs[0]) =~= fs);
}

/// Every step of a walk keeps the walk invariant; a walk that asks for a
/// listing is unchanged; a walk that ends with a tree ends with one whose
/// root carries the number of files in it (at most `MAX_FILES`) and their
/// total size, and every node of which below the root is admitted by the
/// query and as a walk makes it.
pub proof fn lemma_step_keeps_inv(q: QueryView, w: WalkView)
    requires
        walk_inv(q, w),
    ensures
        walk_step(q, w) matches StepView::Continue(w2) ==> walk_inv(q, w2),
        walk_step(q, w) matches StepView::NeedListing(w2, _) ==> w2 == w && awaits_listing(q, w),
        walk_step(q, w) matches StepView::Finished(Ok(tree)) ==> tree_ok(q, tree.root, tree.ignored),
{
    let top = w.frames.len() - 1;
    let f = w.frames[top];
    assert(w.frames.drop_last().push(f) =~= w.frames);
    if has_next(w) {
        let item = next_entry(w);
        if q.excludes(item.path@) {
            let w2 = record_entry(w);
            lemma_frames_replace_last(w.frames, w2.frames[top]);
            lemma_frames_replace_last(w.frames, f);
            assert(w.frames.update(top, f) =~= w.frames);
            assert forall|i: int| 0 <= i < w2.ignored.len() implies q.excludes(
                #[trigger] w2.ignored[i],
            ) by {
                if i < w.ignored.len() {
                    assert(w2.ignored[i] == w.ignored[i]);
                }
            }
        } else if (item.content_type@ == "file"@ && !q.includes(item.path@)) || (
        item.content_type@ != "file"@ && item.content_type@ != "dir"@) {
            let w2 = skip_entry(w);
            lemma_frames_replace_last(w.frames, w2.frames[top]);
            lemma_frames_replace_last(w.frames, f);
            assert(w.frames.update(top, f) =~= w.frames);
        } else if item.content_type@ == "file"@ {
            let size = entry_size(item);
            if w.total_size + size <= MAX_TOTAL_SIZE && w.total_files + 1 <= MAX_FILES {
                let nf = FrameView { node: with_child(f.node, file_node(item)), next: f.next + 1, ..f };
                lemma_with_child(f.node, file_node(item));
                lemma_leaf(file_node(item));
                lemma_frames_replace_last(w.frames, nf);
                lemma_frames_replace_last(w.frames, f);
                assert(w.frames.update(top, f) =~= w.frames);
                if let StepView::Continue(w2) = walk_step(q, w) {
                    assert forall|k: int| 0 <= k < w2.frames.len() implies below_ok(
                        q,
                        #[trigger] w2.frames[k].node,
                    ) by {
                        if k == top {
                            assert(below_ok(q, with_child(f.node, file_node(item))));
                        }
                    }
                }
            }
        }
    } else if w.frames.len() > 1 {
        let parent = w.frames[top - 1];
        let np = FrameView { node: with_child(parent.node, f.node), ..parent };
        let rest = w.frames.drop_last();
        lemma_with_child(parent.node, f.node);
        lemma_frames_replace_last(rest, np);
        lemma_frames_replace_last(rest, parent);
        assert(rest.update(top - 1, parent) =~= rest);
        if let StepView::Continue(w2) = walk_step(q, w) {
            assert(w2.frames == rest.update(top - 1, np));
            assert forall|k: int| 0 <= k < w2.frames.len() implies below_ok(
                q,
                #[trigger] w2.frames[k].node,
            ) by {
                if k == top - 1 {
                    assert(entry_ok(q, w.frames[top].node));
                    assert(below_ok(q, w.frames[top].node));
                    assert(below_ok(q, with_child(parent.node, f.node)));
                } else {
                    assert(w2.frames[k] == w.frames[k]);
                }
            }
            assert forall|k: int| 1 <= k < w2.frames.len() implies entry_ok(
                q,
                #[trigger] w2.frames[k].node,
            ) && w2.frames[k].node.node_type == "directory"@ by {
                if k == top - 1 {
                    assert(entry_ok(q, w.frames[k].node));
                } else {
                    assert(w2.frames[k] == w.frames[k]);
                }
            }
        }
    } else {
        let root = finished_root(f.node, w.total_files, w.total_size);
    lemma_kinds_differ();
        assert(w.frames.drop_last() =~= Seq::<FrameView>::empty());
        assert(frame_files(Seq::<FrameView>::empty()) == 0);
        assert(frame_size(Seq::<FrameView>::empty()) == 0);
        assert(files_in(root) == files_in(f.node));
        assert(size_in(root) == size_in(f.node));
        assert(frame_files(w.frames) == files_in(f.node));
        assert(frame_size(w.frames) == size_in(f.node));
        assert(below_ok(q, root) == below_ok(q, f.node));
    }
}

/// Answering a request for a listing keeps the walk invariant.
pub proof fn lemma_enter_keeps_inv(
    q: QueryView,
    w: WalkView,
    listing: Option<Seq<crate::model::GitHubContent>>,
)
    requires
        walk_inv(q, w),
    ensures
        walk_inv(q, walk_enter(q, w, listing)),
{
    lemma_kinds_differ();
    if awaits_listing(q, w) {
        let top = w.frames.len() - 1;
        let f = w.frames[top];
        let w1 = skip_entry(w);
        assert(w.frames.drop_last().push(f) =~= w.frames);
        lemma_frames_replace_last(w.frames, w1.frames[top]);
        lemma_frames_replace_last(w.frames, f);
        assert(w.frames.update(top, f) =~= w.frames);
        assert(walk_inv(q, w1));
        if let Some(items) = listing {
            let nf = FrameView { node: dir_node(next_entry(w)), items, next: 0 };
            lemma_leaf(nf.node);
            lemma_frames_push(w1.frames, nf);
            let w2 = walk_enter(q, w, listing);
            assert(w2.frames == w1.frames.push(nf));
            assert forall|k: int| 1 <= k < w2.frames.len() implies entry_ok(
                q,
                #[trigger] w2.frames[k].node,
            ) && w2.frames[k].node.node_type == "directory"@ by {
                if k < w1.frames.len() {
                    assert(w2.frames[k] == w1.frames[k]);
                }
            }
            assert forall|k: int| 0 <= k < w2.frames.len() implies below_ok(
                q,
                #[trigger] w2.frames[k].node,
            ) by {
                if k < w1.frames.len() {
                    assert(w2.frames[k] == w1.frames[k]);
                }
            }
        }
    }
}


/// Every fetch target in the tree of `n` has a path the query admits, where
/// every node below `n` is as a walk makes it and `n` itself, if it is a
/// target, is admitted.
pub proof fn lemma_targets_admitted(q: QueryView, n: NodeView)
    requires
        below_ok(q, n),
        is_target(n) ==> q.admits(n.path),
    ensures
        forall|i: int| 0 <= i < targets_of(n).len() ==> q.admits(#[trigger] targets_of(n)[i].0),
    decreases n, 0int,
{
    lemma_targets_admitted_among(q, n.children);
    let own = if is_target(n) {
        seq![(n.path, n.download_url->0)]
    } else {
        seq![]
    };
    assert(targets_of(n) == own + targets_in(n.children));
    assert forall|i: int| 0 <= i < targets_of(n).len() implies q.admits(
        #[trigger] targets_of(n)[i].0,
    ) by {
        if i >= own.len() {
            assert(targets_of(n)[i] == targets_in(n.children)[i - own.len()]);
        }
    }
}

/// Every fetch target in the trees of `cs` has a path the query admits,
/// where every node in them is as a walk makes it.
pub proof fn lemma_targets_admitted_among(q: QueryView, cs: Seq<NodeView>)
    requires
        all_ok(q, cs),
    ensures
        forall|i: int| 0 <= i < targets_in(cs).len() ==> q.admits(#[trigger] targets_in(cs)[i].0),
    decreases cs, 1int,
{
    if cs.len() > 0 {
        let init = cs.subrange(0, cs.len() - 1);
        let last = cs[cs.len() - 1];
        lemma_targets_admitted_among(q, init);
        lemma_kinds_differ();
        lemma_targets_admitted(q, last);
        assert(targets_in(cs) == targets_in(init) + targets_of(last));
        assert forall|i: int| 0 <= i < targets_in(cs).len() implies q.admits(
            #[trigger] targets_in(cs)[i].0,
        ) by {
            if i >= targets_in(init).len() {
                assert(targets_in(cs)[i] == targets_of(last)[i - targets_in(init).len()]);
            } else {
                assert(targets_in(cs)[i] == targets_in(init)[i]);
            }
        }
    }
}

/// Only files are fetched, and none that is larger than `MAX_FILE_SIZE`:
/// every fetch target of a tree built by a walk is a file node no larger
/// than that, so its path (and URL) come from such a node.
pub proof fn lemma_targets_are_small_files(q: QueryView, cs: Seq<NodeView>)
    requires
        all_ok(q, cs),
    ensures
        forall|i: int|
            0 <= i < targets_in(cs).len() ==> exists_small_file(cs, #[trigger] targets_in(cs)[i]),
    decreases cs, 1int,
{
    if cs.len() > 0 {
        let init = cs.subrange(0, cs.len() - 1);
        let last = cs[cs.len() - 1];
        lemma_targets_are_small_files(q, init);
    lemma_kinds_differ();
        lemma_small_files_below(q, last);
        assert(targets_in(cs) == targets_in(init) + targets_of(last));
        assert forall|i: int| 0 <= i < targets_in(cs).len() implies exists_small_file(
            cs,
            #[trigger] targets_in(cs)[i],
        ) by {
            if i >= targets_in(init).len() {
                let t = targets_of(last)[i - targets_in(init).len()];
                assert(targets_in(cs)[i] == t);
                assert(small_file_in(last, t));
                assert(cs[cs.len() - 1] == last);
            } else {
                let t = targets_in(init)[i];
                assert(targets_in(cs)[i] == t);
                let k = choose|k: int| 0 <= k < init.len() && small_file_in(#[trigger] init[k], t);
                assert(cs[k] == init[k]);
            }
        }
    }
}

/// Whether `t` is the path and URL of a file node, no larger than
/// `MAX_FILE_SIZE`, in the tree of one of `cs`.
pub open spec fn exists_small_file(cs: Seq<NodeView>, t: (Seq<char>, Seq<char>)) -> bool {
    exists|k: int| 0 <= k < cs.len() && small_file_in(#[trigger] cs[k], t)
}

/// Whether `t` is the path and URL of a file node, no larger than
/// `MAX_FILE_SIZE`, in the tree of `n`.
pub open spec fn small_file_in(n: NodeView, t: (Seq<char>, Seq<char>)) -> bool
    decreases n,
{
    (n.node_type == "file"@ && n.size <= MAX_FILE_SIZE && n.path == t.0 && n.download_url
        == Some(t.1)) || exists|k: int|
        0 <= k < n.children.len() && small_file_in(#[trigger] n.children[k], t)
}

pub(crate) proof fn lemma_small_files_below(q: QueryView, n: NodeView)
    requires
        below_ok(q, n),
        n.node_type == "file"@ ==> n.ignore_content == (n.size > MAX_FILE_SIZE),
    ensures
        forall|i: int| 0 <= i < targets_of(n).len() ==> small_file_in(n, #[trigger] targets_of(n)[i]),
    decreases n, 0int,
{
    lemma_targets_are_small_files(q, n.children);
    let own = if is_target(n) {
        seq![(n.path, n.download_url->0)]
    } else {
        seq![]
    };
    assert(targets_of(n) == own + targets_in(n.children));
    assert forall|i: int| 0 <= i < targets_of(n).len() implies small_file_in(
        n,
        #[trigger] targets_of(n)[i],
    ) by {
        let t = targets_of(n)[i];
        if i >= own.len() {
            assert(t == targets_in(n.children)[i - own.len()]);
            assert(exists_small_file(n.children, t));
        }
    }
}


/// An entry whose path matches an exclude pattern is always left out: the
/// walk passes over it, records its path as left out, and asks for no
/// listing of it.
pub proof fn lemma_excluded_entry_skipped(q: QueryView, w: WalkView, k: int)
    requires
        w.frames.len() >= 1,
        has_next(w),
        0 <= k < q.exclude_patterns.len(),
        crate::glob_match::glob_hit(q.exclude_patterns[k], next_entry(w).path@),
    ensures
        walk_step(q, w) == StepView::Continue(record_entry(w)),
        forall|l: Option<Seq<crate::model::GitHubContent>>| #[trigger] walk_enter(q, w, l) == w,
{
    assert(q.excludes(next_entry(w).path@));
}

/// Without include patterns every path is let in by them; without exclude
/// and ignore patterns either, every entry is taken.
pub proof fn lemma_no_patterns_admit_all(q: QueryView, path: Seq<char>)
    requires
        q.include_patterns.len() == 0,
    ensures
        q.includes(path),
        q.exclude_patterns.len() == 0 && q.ignore_patterns.len() == 0 ==> q.admits(path),
{
}


/// A measure of the work a walk has left without asking for a listing: the
/// entries left in each directory being filled, plus one for each such
/// directory.
pub open spec fn pending(fs: Seq<FrameView>) -> int
    decreases fs.len(),
{
    if fs.len() == 0 {
        0
    } else {
        pending(fs.drop_last()) + (fs.last().items.len() - fs.last().next) + 1
    }
}

/// Every step that goes on without asking for a listing leaves less work.
pub proof fn lemma_step_progress(q: QueryView, w: WalkView)
    requires
        w.frames.len() >= 1,
        forall|k: int| 0 <= k < w.frames.len() ==> #[trigger] w.frames[k].next <= w.frames[k].items.len(),
    ensures
        walk_step(q, w) matches StepView::Continue(w2) ==> 0 <= pending(w2.frames) < pending(w.frames),
        0 <= pending(w.frames),
    decreases w.frames.len(),
{
    lemma_pending_nonneg(w.frames);
    let top = w.frames.len() - 1;
    let f = w.frames[top];
    if let StepView::Continue(w2) = walk_step(q, w) {
        if has_next(w) {
            assert(w2.frames.drop_last() =~= w.frames.drop_last());
            assert(w2.frames.last().items == f.items);
            assert(w2.frames.last().next == f.next + 1);
            assert(pending(w2.frames) == pending(w.frames) - 1);
            lemma_pending_nonneg(w2.frames);
        } else {
            let rest = w.frames.drop_last();
            assert(w2.frames.drop_last() =~= rest.drop_last());
            assert(w2.frames.last().items == rest.last().items);
            assert(w2.frames.last().next == rest.last().next);
            assert(pending(rest) == pending(rest.drop_last()) + (rest.last().items.len()
                - rest.last().next) + 1);
            assert(pending(w2.frames) == pending(rest));
            assert(pending(w.frames) == pending(rest) + 1);
            lemma_pending_nonneg(w2.frames);
        }
    }
}

proof fn lemma_pending_nonneg(fs: Seq<FrameView>)
    requires
        forall|k: int| 0 <= k < fs.len() ==> #[trigger] fs[k].next <= fs[k].items.len(),
    ensures
        0 <= pending(fs),
    decreases fs.len(),
{
    if fs.len() > 0 {
        let d = fs.drop_last();
        assert forall|k: int| 0 <= k < d.len() implies #[trigger] d[k].next <= d[k].items.len() by {
            assert(d[k] == fs[k]);
        }
        lemma_pending_nonneg(d);
        assert(fs.last() == fs[fs.len() - 1]);
    }
}


/// Include patterns apply to files only: a directory entry that no exclude
/// or ignore pattern matches is always listed, whatever the include patterns.
pub proof fn lemma_directories_entered(q: QueryView, w: WalkView)
    requires
        w.frames.len() >= 1,
        has_next(w),
        !q.excludes(next_entry(w).path@),
        next_entry(w).content_type@ == "dir"@,
    ensures
        walk_step(q, w) == StepView::NeedListing(w, next_entry(w).path@),
        awaits_listing(q, w),
{
    reveal_strlit("file");
    reveal_strlit("dir");
    assert("file"@.len() == 4 && "dir"@.len() == 3);
}

/// A file entry that no exclude or ignore pattern matches and that the
/// include patterns let in is taken, within the limits: it is added as the
/// last child of the directory being filled, as a file node with the entry's
/// name, path, size and download URL, its content left out exactly when it
/// is larger than `MAX_FILE_SIZE`, and the totals grow by one file and its
/// size; nothing else changes.
pub proof fn lemma_admitted_file_taken(q: QueryView, w: WalkView)
    requires
        w.frames.len() >= 1,
        has_next(w),
        !q.excludes(next_entry(w).path@),
        next_entry(w).content_type@ == "file"@,
        q.includes(next_entry(w).path@),
        w.total_files + 1 <= MAX_FILES,
        w.total_size + entry_size(next_entry(w)) <= MAX_TOTAL_SIZE,
    ensures
        walk_step(q, w) matches StepView::Continue(w2) && {
            let item = next_entry(w);
            let top = w.frames.len() - 1;
            let f = w.frames[top];
            let g = w2.frames[top];
            let c = g.node.children.last();
            &&& w2.frames.len() == w.frames.len()
            &&& forall|k: int| 0 <= k < top ==> w2.frames[k] == #[trigger] w.frames[k]
            &&& g.items == f.items && g.next == f.next + 1
            &&& g.node.children.drop_last() == f.node.children
            &&& g.node.children.len() == f.node.children.len() + 1
            &&& c.node_type == "file"@ && c.name == item.name@ && c.path == item.path@
            &&& c.size == entry_size(item) && c.children.len() == 0
            &&& c.ignore_content == (entry_size(item) > MAX_FILE_SIZE)
            &&& c.download_url == crate::model::opt_view(item.download_url)
            &&& w2.total_files == w.total_files + 1
            &&& w2.total_size == w.total_size + entry_size(item)
            &&& w2.ignored == w.ignored
        },
{
    let top = w.frames.len() - 1;
    let f = w.frames[top];
    if let StepView::Continue(w2) = walk_step(q, w) {
        assert(w2.frames[top].node.children =~= f.node.children.push(file_node(next_entry(w))));
        assert(w2.frames[top].node.children.drop_last() =~= f.node.children);
    }
}

} // verus!
