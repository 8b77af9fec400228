//! The walk over a repository's listings that builds its tree.
//!
//! Listing a directory is outside work, so the walk is a state machine: each
//! `step` either makes progress on its own, asks for the listing of a
//! directory, or ends with the finished tree or an error. The caller answers
//! a request for a listing with `enter_directory`.
use vstd::prelude::*;
use crate::errors::{api_error_text, repo_not_found, GitHubApiError, GitIngestError, IngestErrorView};
use crate::model::{
    clone_opt_string, lemma_children_view, lemma_view_leaf, lemma_view_push_child, opt_view,
    GitHubContent, Node, NodeView, Stats, MAX_FILES, MAX_FILE_SIZE, MAX_TOTAL_SIZE,
};
use crate::text::views;
use crate::query::{Query, QueryView};

verus! {

/// A directory being filled: its node, its listing, and the position of the
/// next entry of the listing to look at.
pub struct Frame {
    pub node: Node,
    pub items: Vec<GitHubContent>,
    pub next: usize,
}

/// The mathematical value of a `Frame`.
pub struct FrameView {
    pub node: NodeView,
    pub items: Seq<GitHubContent>,
    pub next: int,
}

impl View for Frame {
    type V = FrameView;

    open spec fn view(&self) -> FrameView {
        FrameView { node: self.node@, items: self.items@, next: self.next as int }
    }
}

/// The state of a walk: the directories being filled, outermost (the
/// repository root) first, the totals over the files taken so far, and the
/// paths left out by the exclude and ignore patterns so far.
pub struct RepoWalk {
    pub frames: Vec<Frame>,
    pub stats: Stats,
    pub ignored: Vec<String>,
}

/// The mathematical value of a `RepoWalk`.
pub struct WalkView {
    pub frames: Seq<FrameView>,
    pub total_files: int,
    pub total_size: int,
    pub ignored: Seq<Seq<char>>,
}

impl View for RepoWalk {
    type V = WalkView;

    open spec fn view(&self) -> WalkView {
        WalkView {
            frames: self.frames@.map_values(|f: Frame| f@),
            total_files: self.stats.total_files as int,
            total_size: self.stats.total_size as int,
            ignored: views(self.ignored@),
        }
    }
}

/// The outcome of a finished walk: the repository's tree and the paths the
/// exclude and ignore patterns left out, in the order the walk met them.
#[derive(Debug)]
pub struct RepoTree {
    pub root: Node,
    pub ignored: Vec<String>,
}

/// The mathematical value of a `RepoTree`.
pub struct RepoTreeView {
    pub root: NodeView,
    pub ignored: Seq<Seq<char>>,
}

impl View for RepoTree {
    type V = RepoTreeView;

    open spec fn view(&self) -> RepoTreeView {
        RepoTreeView { root: self.root@, ignored: views(self.ignored@) }
    }
}

/// What one step of a walk leads to.
pub enum WalkStep {
    /// The walk went on; here is its new state.
    Continue(RepoWalk),
    /// The walk needs the listing of the directory at the given path.
    NeedListing(RepoWalk, String),
    /// The walk is over, with the repository's tree or an error.
    Finished(Result<RepoTree, GitIngestError>),
    /// Adding the next file's size to the total size would overflow `u64`.
    SizeOverflow,
}

/// The mathematical value of a `WalkStep`.
pub enum StepView {
    Continue(WalkView),
    NeedListing(WalkView, Seq<char>),
    Finished(Result<RepoTreeView, IngestErrorView>),
    SizeOverflow,
}

impl View for WalkStep {
    type V = StepView;

    open spec fn view(&self) -> StepView {
        match self {
            WalkStep::Continue(w) => StepView::Continue(w@),
            WalkStep::NeedListing(w, p) => StepView::NeedListing(w@, p@),
            WalkStep::Finished(Ok(t)) => StepView::Finished(Ok(t@)),
            WalkStep::Finished(Err(e)) => StepView::Finished(Err(e@)),
            WalkStep::SizeOverflow => StepView::SizeOverflow,
        }
    }
}

/// The size of a listing entry; 0 where the listing gives none.
pub open spec fn entry_size(c: GitHubContent) -> u64 {
    match c.size {
        Some(s) => s,
        None => 0,
    }
}

/// The node of a file entry.
pub open spec fn file_node(c: GitHubContent) -> NodeView {
    NodeView {
        name: c.name@,
        node_type: "file"@,
        size: entry_size(c),
        children: seq![],
        file_count: 1,
        dir_count: 0,
        path: c.path@,
        ignore_content: entry_size(c) > MAX_FILE_SIZE,
        download_url: opt_view(c.download_url),
    }
}

/// The node of a directory entry, before anything is put into it.
pub open spec fn dir_node(c: GitHubContent) -> NodeView {
    NodeView {
        name: c.name@,
        node_type: "directory"@,
        size: 0,
        children: seq![],
        file_count: 0,
        dir_count: 1,
        path: c.path@,
        ignore_content: false,
        download_url: opt_view(c.download_url),
    }
}

/// The node of a repository's root, before anything is put into it.
pub open spec fn root_node(repo_name: Seq<char>) -> NodeView {
    NodeView {
        name: repo_name,
        node_type: "directory"@,
        size: 0,
        children: seq![],
        file_count: 0,
        dir_count: 1,
        path: seq![],
        ignore_content: false,
        download_url: None,
    }
}

/// The number of directory nodes in `cs`.
pub open spec fn count_dirs(cs: Seq<NodeView>) -> nat
    decreases cs.len(),
{
    if cs.len() == 0 {
        0
    } else {
        count_dirs(cs.drop_last()) + if cs.last().node_type == "directory"@ {
            1nat
        } else {
            0nat
        }
    }
}

/// The root node once the walk is over: it carries the totals and the number
/// of directories right below it.
pub open spec fn finished_root(n: NodeView, total_files: int, total_size: int) -> NodeView {
    NodeView {
        size: total_size as u64,
        file_count: total_files as usize,
        dir_count: count_dirs(n.children) as usize,
        ..n
    }
}

/// `n` with `c` added as its last child.
pub open spec fn with_child(n: NodeView, c: NodeView) -> NodeView {
    NodeView { children: n.children.push(c), ..n }
}

/// Whether the walk's innermost directory has an entry left to look at.
pub open spec fn has_next(w: WalkView) -> bool {
    let f = w.frames.last();
    f.next < f.items.len()
}

/// The entry the walk looks at next.
pub open spec fn next_entry(w: WalkView) -> GitHubContent {
    let f = w.frames.last();
    f.items[f.next]
}

/// The walk with its next entry passed over.
pub open spec fn skip_entry(w: WalkView) -> WalkView {
    let f = w.frames.last();
    WalkView {
        frames: w.frames.update(w.frames.len() - 1, FrameView { next: f.next + 1, ..f }),
        ..w
    }
}

/// The walk with its next entry passed over and its path recorded as left
/// out.
pub open spec fn record_entry(w: WalkView) -> WalkView {
    WalkView { ignored: w.ignored.push(next_entry(w).path@), ..skip_entry(w) }
}

/// Whether the walk waits for the listing of a directory: its next entry is
/// a directory that no exclude or ignore pattern leaves out.
pub open spec fn awaits_listing(q: QueryView, w: WalkView) -> bool {
    &&& has_next(w)
    &&& !q.excludes(next_entry(w).path@)
    &&& next_entry(w).content_type@ == "dir"@
}

/// What one step of the walk does.
///
/// Where the innermost directory has an entry left: an entry that an exclude
/// or ignore pattern matches is passed over and its path recorded as left
/// out; a file the include patterns do not let in is passed over; any other
/// file is added to the directory and counted, unless the total size would
/// overflow `u64`, or the file count would pass `MAX_FILES` or the total size
/// `MAX_TOTAL_SIZE`; a directory's listing is asked for (include patterns
/// apply to files only); any other entry is passed over. Where it has none,
/// the directory is added to the one around it, or, for the root, the walk
/// ends with the root carrying the totals.
pub open spec fn walk_step(q: QueryView, w: WalkView) -> StepView {
    let top = w.frames.len() - 1;
    let f = w.frames[top];
    if has_next(w) {
        let item = next_entry(w);
        if q.excludes(item.path@) {
            StepView::Continue(record_entry(w))
        } else if item.content_type@ == "file"@ {
            let size = entry_size(item);
            if !q.includes(item.path@) {
                StepView::Continue(skip_entry(w))
            } else if w.total_size + size > u64::MAX {
                StepView::SizeOverflow
            } else if w.total_files + 1 > MAX_FILES || w.total_size + size > MAX_TOTAL_SIZE {
                StepView::Finished(
                    Err(IngestErrorView::MaxSizeExceeded((w.total_size + size) as u64)),
                )
            } else {
                StepView::Continue(
                    WalkView {
                        frames: w.frames.update(
                            top,
                            FrameView { node: with_child(f.node, file_node(item)), next: f.next + 1, ..f },
                        ),
                        total_files: w.total_files + 1,
                        total_size: w.total_size + size,
                        ignored: w.ignored,
                    },
                )
            }
        } else if item.content_type@ == "dir"@ {
            StepView::NeedListing(w, item.path@)
        } else {
            StepView::Continue(skip_entry(w))
        }
    } else if w.frames.len() > 1 {
        let parent = w.frames[top - 1];
        StepView::Continue(
            WalkView {
                frames: w.frames.drop_last().update(
                    top - 1,
                    FrameView { node: with_child(parent.node, f.node), ..parent },
                ),
                ..w
            },
        )
    } else {
        StepView::Finished(
            Ok(
                RepoTreeView {
                    root: finished_root(f.node, w.total_files, w.total_size),
                    ignored: w.ignored,
                },
            ),
        )
    }
}

/// The walk once the listing it waits for is answered: the directory entry
/// is passed, and where a listing came the directory is entered with it.
/// A walk that waits for no listing is left as it is.
pub open spec fn walk_enter(q: QueryView, w: WalkView, listing: Option<Seq<GitHubContent>>) -> WalkView {
    if awaits_listing(q, w) {
        match listing {
            Some(items) => WalkView {
                frames: skip_entry(w).frames.push(
                    FrameView { node: dir_node(next_entry(w)), items, next: 0 },
                ),
                ..w
            },
            None => skip_entry(w),
        }
    } else {
        w
    }
}

impl RepoWalk {
    /// A walk has a directory to fill, its positions stay within their
    /// listings, and it has not counted more files than allowed.
    pub open spec fn wf(&self) -> bool {
        &&& self.frames@.len() >= 1
        &&& forall|k: int|
            0 <= k < self.frames@.len() ==> #[trigger] self.frames@[k].next
                <= self.frames@[k].items@.len()
        &&& self.stats.total_files <= MAX_FILES
        &&& self.stats.total_size <= MAX_TOTAL_SIZE
    }

    /// Starts the walk over a repository from the listing of its root (or of
    /// the query's path); a failed listing means the repository was not found.
    pub fn start(q: &Query, listing: Result<Vec<GitHubContent>, GitHubApiError>) -> (r: Result<
        RepoWalk,
        GitIngestError,
    >)
        ensures
            listing matches Err(e) ==> (r matches Err(g) && g@ == IngestErrorView::RepoNotFound(
                api_error_text(e),
            )),
            listing matches Ok(items) ==> (r matches Ok(w) && w.wf() && w@ == WalkView {
                frames: seq![FrameView { node: root_node(q.repo_name@), items: items@, next: 0 }],
                total_files: 0,
                total_size: 0,
                ignored: seq![],
            }),
    {
        match listing {
            Err(e) => Err(repo_not_found(&e)),
            Ok(items) => {
                let root = Node {
                    name: q.repo_name.clone(),
                    node_type: String::from_str("directory"),
                    size: 0,
                    children: Vec::new(),
                    file_count: 0,
                    dir_count: 1,
                    path: String::new(),
                    ignore_content: false,
                    download_url: None,
                };
                proof {
                    lemma_view_leaf(root);
                }
                let mut frames: Vec<Frame> = Vec::new();
                frames.push(Frame { node: root, items, next: 0 });
                let w = RepoWalk {
                    frames,
                    stats: Stats { total_files: 0, total_size: 0 },
                    ignored: Vec::new(),
                };
                assert(w@.frames =~= seq![
                    FrameView { node: root_node(q.repo_name@), items: items@, next: 0 },
                ]);
                assert(w@.ignored =~= Seq::<Seq<char>>::empty());
                Ok(w)
            },
        }
    }

    /// Takes one step of the walk; see `walk_step`.
    pub fn step(self, q: &Query) -> (r: WalkStep)
        requires
            self.wf(),
        ensures
            r@ == walk_step(q@, self@),
            r matches WalkStep::Continue(w) ==> w.wf(),
            r matches WalkStep::NeedListing(w, _) ==> w.wf(),
    {
        let ghost w0 = self@;
        let ghost fs0 = self.frames@;
        let mut w = self;
        let top = w.frames.len() - 1;
        let mut f = match w.frames.pop() {
            Some(f) => f,
            None => {
                proof {
                    assert(false);
                }
                return WalkStep::SizeOverflow;
            },
        };
        let ghost f0 = f;
        assert(f0 == fs0[top as int]);
        assert(w.frames@ =~= fs0.drop_last());
        assert(f0@ == w0.frames[top as int]);
        if f.next < f.items.len() {
            let ghost item = f.items@[f.next as int];
            assert(next_entry(w0) == item);
            if q.should_exclude(f.items[f.next].path.as_str()) {
                let path = f.items[f.next].path.clone();
                let ghost ign0 = w.ignored@;
                w.ignored.push(path);
                assert(views(w.ignored@) =~= views(ign0).push(item.path@));
                f.next = f.next + 1;
                w.frames.push(f);
                assert(w@.frames =~= record_entry(w0).frames);
                return WalkStep::Continue(w);
            }
            let file_kind = String::from_str("file");
            let dir_kind = String::from_str("dir");
            if f.items[f.next].content_type == file_kind {
                if !q.should_include(f.items[f.next].path.as_str()) {
                    f.next = f.next + 1;
                    w.frames.push(f);
                    assert(w@.frames =~= skip_entry(w0).frames);
                    return WalkStep::Continue(w);
                }
                let size = match f.items[f.next].size {
                    Some(s) => s,
                    None => 0,
                };
                assert(size == entry_size(item));
                if size > u64::MAX - w.stats.total_size {
                    return WalkStep::SizeOverflow;
                }
                let total_size = w.stats.total_size + size;
                let total_files = w.stats.total_files + 1;
                if total_files > MAX_FILES || total_size > MAX_TOTAL_SIZE {
                    return WalkStep::Finished(Err(GitIngestError::MaxSizeExceeded(total_size)));
                }
                let node = Node {
                    name: f.items[f.next].name.clone(),
                    node_type: String::from_str("file"),
                    size,
                    children: Vec::new(),
                    file_count: 1,
                    dir_count: 0,
                    path: f.items[f.next].path.clone(),
                    ignore_content: size > MAX_FILE_SIZE,
                    download_url: clone_opt_string(&f.items[f.next].download_url),
                };
                proof {
                    lemma_view_leaf(node);
                }
                assert(node@ == file_node(item));
                let ghost n0 = f.node;
                f.node.children.push(node);
                proof {
                    lemma_view_push_child(n0, f.node, node);
                }
                f.next = f.next + 1;
                w.stats = Stats { total_files, total_size };
                w.frames.push(f);
                assert(w@.frames =~= w0.frames.update(
                    top as int,
                    FrameView {
                        node: with_child(f0@.node, file_node(item)),
                        next: f0@.next + 1,
                        ..f0@
                    },
                ));
                return WalkStep::Continue(w);
            } else if f.items[f.next].content_type == dir_kind {
                let path = f.items[f.next].path.clone();
                w.frames.push(f);
                assert(w.frames@ =~= fs0);
                assert(w@ == w0);
                return WalkStep::NeedListing(w, path);
            } else {
                f.next = f.next + 1;
                w.frames.push(f);
                assert(w@.frames =~= skip_entry(w0).frames);
                return WalkStep::Continue(w);
            }
        }
        if top > 0 {
            let mut parent = match w.frames.pop() {
                Some(p) => p,
                None => {
                    proof {
                        assert(false);
                    }
                    return WalkStep::SizeOverflow;
                },
            };
            let ghost p0 = parent;
            assert(p0 == fs0[top - 1]);
            let child = f.node;
            let ghost n0 = parent.node;
            parent.node.children.push(child);
            proof {
                lemma_view_push_child(n0, parent.node, child);
            }
            w.frames.push(parent);
            assert(w@.frames =~= w0.frames.drop_last().update(
                top - 1,
                FrameView { node: with_child(p0@.node, f0@.node), ..p0@ },
            ));
            return WalkStep::Continue(w);
        }
        let mut root = f.node;
        let dirs = count_directories(&root.children);
        proof {
            lemma_children_view(root);
            assert(root@.children =~= node_views_of(root.children@));
        }
        root.file_count = w.stats.total_files;
        root.dir_count = dirs;
        root.size = w.stats.total_size;
        proof {
            lemma_children_view(root);
            assert(root@.children =~= f0@.node.children);
        }
        WalkStep::Finished(Ok(RepoTree { root, ignored: w.ignored }))
    }

    /// Answers the walk's request for a directory listing: `Some` with the
    /// listing, or `None` where it could not be had; see `walk_enter`.
    pub fn enter_directory(self, q: &Query, listing: Option<Vec<GitHubContent>>) -> (r: RepoWalk)
        requires
            self.wf(),
        ensures
            r.wf(),
            r@ == walk_enter(
                q@,
                self@,
                match listing {
                    Some(v) => Some(v@),
                    None => None,
                },
            ),
    {
        let ghost w0 = self@;
        let ghost fs0 = self.frames@;
        let mut w = self;
        let top = w.frames.len() - 1;
        let mut f = match w.frames.pop() {
            Some(f) => f,
            None => {
                proof {
                    assert(false);
                }
                return w;
            },
        };
        let ghost f0 = f;
        assert(f0 == fs0[top as int]);
        assert(w.frames@ =~= fs0.drop_last());
        assert(f0@ == w0.frames[top as int]);
        if f.next < f.items.len() {
            let ghost item = f.items@[f.next as int];
            let excluded = q.should_exclude(f.items[f.next].path.as_str());
            let dir_kind = String::from_str("dir");
            if !excluded && f.items[f.next].content_type == dir_kind {
                let name = f.items[f.next].name.clone();
                let path = f.items[f.next].path.clone();
                let download_url = clone_opt_string(&f.items[f.next].download_url);
                f.next = f.next + 1;
                w.frames.push(f);
                assert(w@.frames =~= skip_entry(w0).frames);
                match listing {
                    Some(items) => {
                        let node = Node {
                            name,
                            node_type: String::from_str("directory"),
                            size: 0,
                            children: Vec::new(),
                            file_count: 0,
                            dir_count: 1,
                            path,
                            ignore_content: false,
                            download_url,
                        };
                        proof {
                            lemma_view_leaf(node);
                        }
                        assert(node@ == dir_node(item));
                        let ghost before = w@.frames;
                        w.frames.push(Frame { node, items, next: 0 });
                        assert(w@.frames =~= before.push(
                            FrameView { node: dir_node(item), items: items@, next: 0 },
                        ));
                    },
                    None => {},
                }
                return w;
            }
        }
        w.frames.push(f);
        assert(w.frames@ =~= fs0);
        w
    }
}

/// The views of a sequence of nodes.
pub open spec fn node_views_of(s: Seq<Node>) -> Seq<NodeView> {
    s.map_values(|n: Node| n@)
}

/// The number of directory nodes among `cs`.
fn count_directories(cs: &Vec<Node>) -> (r: usize)
    ensures
        r == count_dirs(node_views_of(cs@)),
{
    let dir_kind = String::from_str("directory");
    let n = cs.len();
    let mut k: usize = 0;
    let mut i: usize = 0;
    assert(node_views_of(cs@).take(0) =~= Seq::<NodeView>::empty());
    while i < n
        invariant
            n == cs@.len(),
            i <= n,
            dir_kind@ == "directory"@,
            k <= i,
            k == count_dirs(node_views_of(cs@).take(i as int)),
        decreases n - i,
    {
        assert(node_views_of(cs@).take(i + 1).drop_last() =~= node_views_of(cs@).take(i as int));
        assert(node_views_of(cs@).take(i + 1).last() == cs@[i as int]@);
        if cs[i].node_type == dir_kind {
            k = k + 1;
        }
        i = i + 1;
    }
    assert(node_views_of(cs@).take(n as int) =~= node_views_of(cs@));
    k
}

} // verus!
