//! Which files of a repository tree have their content fetched, and the
//! gathering of what was fetched.
use vstd::prelude::*;
use crate::errors::{clone_api_error, GitHubApiError};
use crate::model::{clone_opt_string, lemma_children_view, FileContent, Node, NodeView};

verus! {

/// A file whose content is to be fetched.
#[derive(Debug)]
pub struct FileTarget {
    /// The path of the file within the repository.
    pub path: String,
    /// Where its content can be downloaded.
    pub download_url: String,
}

/// The mathematical value of a `FileTarget`: its path and download URL.
pub open spec fn target_view(t: FileTarget) -> (Seq<char>, Seq<char>) {
    (t.path@, t.download_url@)
}

/// The views of a sequence of targets.
pub open spec fn target_views(ts: Seq<FileTarget>) -> Seq<(Seq<char>, Seq<char>)> {
    ts.map_values(|t: FileTarget| target_view(t))
}

/// Whether the content of node `n` itself is fetched: it is a file, not
/// left out for its size, and has a download URL.
pub open spec fn is_target(n: NodeView) -> bool {
    n.node_type == "file"@ && !n.ignore_content && n.download_url is Some
}

/// The files below and including `n` whose content is fetched, in the order
/// of a depth-first walk that visits a node before its children.
pub open spec fn targets_of(n: NodeView) -> Seq<(Seq<char>, Seq<char>)>
    decreases n,
{
    (if is_target(n) {
        seq![(n.path, n.download_url->0)]
    } else {
        seq![]
    }) + targets_in(n.children)
}

/// The targets of the nodes `cs`, in order.
pub open spec fn targets_in(cs: Seq<NodeView>) -> Seq<(Seq<char>, Seq<char>)>
    decreases cs,
{
    if cs.len() == 0 {
        seq![]
    } else {
        targets_in(cs.subrange(0, cs.len() - 1)) + targets_of(cs[cs.len() - 1])
    }
}

/// Adds the targets of `node` to `out`.
fn collect_targets(node: &Node, out: &mut Vec<FileTarget>)
    ensures
        target_views(final(out)@) == target_views(old(out)@) + targets_of(node@),
    decreases node,
{
    let file_kind = String::from_str("file");
    let ghost start = target_views(out@);
    if node.node_type == file_kind && !node.ignore_content {
        match clone_opt_string(&node.download_url) {
            Some(url) => {
                out.push(FileTarget { path: node.path.clone(), download_url: url });
                assert(target_views(out@) =~= start.push((node.path@, url@)));
            },
            None => {},
        }
    }
    let ghost own = target_views(out@);
    assert(own =~= start + (if is_target(node@) {
        seq![(node@.path, node@.download_url->0)]
    } else {
        seq![]
    }));
    proof {
        lemma_children_view(*node);
    }
    let ghost cs = node@.children;
    let n = node.children.len();
    let mut i: usize = 0;
    assert(cs.subrange(0, 0) =~= Seq::<NodeView>::empty());
    assert(own =~= own + targets_in(cs.subrange(0, 0)));
    while i < n
        invariant
            n == node.children@.len() == cs.len(),
            i <= n,
            cs == node@.children,
            forall|k: int| 0 <= k < n ==> #[trigger] cs[k] == node.children@[k]@,
            target_views(out@) == own + targets_in(cs.subrange(0, i as int)),
        decreases n - i,
    {
        let ghost before = target_views(out@);
        collect_targets(&node.children[i], out);
        let ghost next = cs.subrange(0, i + 1);
        assert(next.subrange(0, next.len() - 1) =~= cs.subrange(0, i as int));
        assert(next[next.len() - 1] == cs[i as int]);
        assert(target_views(out@) =~= own + targets_in(next));
        i = i + 1;
    }
    assert(cs.subrange(0, n as int) =~= cs);
}

/// The files below and including `node` whose content is to be fetched:
/// files not left out for their size that have a download URL, in
/// depth-first order.
pub fn file_targets(node: &Node) -> (r: Vec<FileTarget>)
    ensures
        target_views(r@) == targets_of(node@),
{
    let mut out: Vec<FileTarget> = Vec::new();
    collect_targets(node, &mut out);
    assert(target_views(out@) =~= Seq::<(Seq<char>, Seq<char>)>::empty() + targets_of(node@));
    out
}

/// What gathering the fetched contents gives: `fetched[i]` is what fetching
/// `targets[i]` gave. The first failed fetch is the outcome; where none
/// failed, the contents, each with its target's path, in order.
pub open spec fn gathered(
    targets: Seq<(Seq<char>, Seq<char>)>,
    fetched: Seq<Result<String, GitHubApiError>>,
) -> Result<Seq<(Seq<char>, Seq<char>)>, GitHubApiError>
    decreases fetched.len(),
{
    if fetched.len() == 0 {
        Ok(seq![])
    } else {
        let i = fetched.len() - 1;
        match gathered(targets, fetched.drop_last()) {
            Err(e) => Err(e),
            Ok(rest) => match fetched[i] {
                Ok(c) => Ok(rest.push((targets[i].0, c@))),
                Err(e) => Err(e),
            },
        }
    }
}

/// The view of fetched file contents: path and text.
pub open spec fn contents_view(fs: Seq<FileContent>) -> Seq<(Seq<char>, Seq<char>)> {
    fs.map_values(|f: FileContent| (f.path@, f.content@))
}

/// Gathers the fetched file contents, each with its target's path, in order;
/// the first failed fetch makes the whole gathering fail with its error.
/// `fetched` may stop short of `targets` after a failure.
pub fn gather_file_contents(
    targets: &Vec<FileTarget>,
    fetched: &Vec<Result<String, GitHubApiError>>,
) -> (r: Result<Vec<FileContent>, GitHubApiError>)
    requires
        fetched@.len() <= targets@.len(),
    ensures
        match r {
            Ok(v) => gathered(target_views(targets@), fetched@) == Ok::<_, GitHubApiError>(
                contents_view(v@),
            ),
            Err(e) => gathered(target_views(targets@), fetched@) == Err::<
                Seq<(Seq<char>, Seq<char>)>,
                _,
            >(e),
        },
{
    let mut out: Vec<FileContent> = Vec::new();
    let n = fetched.len();
    let mut i: usize = 0;
    assert(fetched@.take(0) =~= Seq::<Result<String, GitHubApiError>>::empty());
    assert(contents_view(out@) =~= Seq::<(Seq<char>, Seq<char>)>::empty());
    while i < n
        invariant
            n == fetched@.len() <= targets@.len(),
            i <= n,
            gathered(target_views(targets@), fetched@.take(i as int)) == Ok::<_, GitHubApiError>(
                contents_view(out@),
            ),
        decreases n - i,
    {
        let ghost before = contents_view(out@);
        assert(fetched@.take(i + 1).drop_last() =~= fetched@.take(i as int));
        assert(fetched@.take(i + 1)[i as int] == fetched@[i as int]);
        match &fetched[i] {
            Ok(c) => {
                let content = c.clone();
                let path = targets[i].path.clone();
                out.push(FileContent { path, content });
                assert(contents_view(out@) =~= before.push(
                    (targets@[i as int].path@, content@),
                ));
            },
            Err(e) => {
                let err = clone_api_error(e);
                proof {
                    lemma_gathered_fails_at(target_views(targets@), fetched@, i as int);
                }
                return Err(err);
            },
        }
        i = i + 1;
    }
    assert(fetched@.take(n as int) =~= fetched@);
    Ok(out)
}

/// A failure at `i`, after successes before it, is the outcome of gathering.
proof fn lemma_gathered_fails_at(
    targets: Seq<(Seq<char>, Seq<char>)>,
    fetched: Seq<Result<String, GitHubApiError>>,
    i: int,
)
    requires
        0 <= i < fetched.len(),
        gathered(targets, fetched.take(i)) is Ok,
        fetched[i] is Err,
    ensures
        gathered(targets, fetched) == Err::<Seq<(Seq<char>, Seq<char>)>, _>(fetched[i]->Err_0),
    decreases fetched.len() - i,
{
    if i == fetched.len() - 1 {
        assert(fetched.drop_last() =~= fetched.take(i));
    } else {
        assert(fetched.drop_last().take(i) =~= fetched.take(i));
        assert(fetched.drop_last()[i] == fetched[i]);
        lemma_gathered_fails_at(targets, fetched.drop_last(), i);
    }
}


/// A gathering that succeeds has one content per fetch, each with the path
/// of its target.
pub proof fn lemma_gathered_ok(
    targets: Seq<(Seq<char>, Seq<char>)>,
    fetched: Seq<Result<String, GitHubApiError>>,
)
    ensures
        gathered(targets, fetched) matches Ok(cv) ==> cv.len() == fetched.len() && forall|i: int|
            0 <= i < cv.len() ==> #[trigger] cv[i].0 == targets[i].0,
    decreases fetched.len(),
{
    if fetched.len() > 0 {
        lemma_gathered_ok(targets, fetched.drop_last());
    }
}

} // verus!
