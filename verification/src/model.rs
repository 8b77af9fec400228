//! The data the library works on: repository listings, the repository tree,
//! fetched file contents, and the limits that apply to them.
use vstd::prelude::*;

verus! {

/// Largest size of a file, in bytes, whose content is put into a summary.
pub const MAX_FILE_SIZE: u64 = 50 * 1024;

/// Largest number of files a repository may hold.
pub const MAX_FILES: usize = 500;

/// Largest total size, in bytes, of the files of a repository.
pub const MAX_TOTAL_SIZE: u64 = 1024 * 1024;

/// `serde_json::Value`, carried through unread.
#[verifier::external_type_specification]
#[verifier::external_body]
pub struct ExJsonValue(serde_json::Value);

/// One entry of a GitHub contents listing.
#[derive(Debug)]
pub struct GitHubContent {
    /// The name of the file or directory.
    pub name: String,
    /// The path of the entry within the repository.
    pub path: String,
    /// The kind of entry: `"file"`, `"dir"`, or another kind.
    pub content_type: String,
    /// The size in bytes, where the listing gives one.
    pub size: Option<u64>,
    /// The SHA of the entry.
    pub sha: String,
    /// The API URL of the entry.
    pub url: String,
    /// The HTML URL of the entry.
    pub html_url: String,
    /// The Git URL of the entry.
    pub git_url: String,
    /// The download URL, where there is one.
    pub download_url: Option<String>,
    /// Further links of the entry.
    pub links: serde_json::Value,
    /// The content of the entry, where the listing holds it.
    pub content: Option<String>,
    /// The encoding of `content`.
    pub encoding: Option<String>,
}

/// The view of an optional string.
pub open spec fn opt_view(o: Option<String>) -> Option<Seq<char>> {
    match o {
        Some(s) => Some(s@),
        None => None,
    }
}

/// A node of the repository tree: a file or a directory.
#[derive(Debug)]
pub struct Node {
    /// The name of the file or directory.
    pub name: String,
    /// `"file"` or `"directory"`.
    pub node_type: String,
    /// The size in bytes.
    pub size: u64,
    /// The nodes below this one, in listing order.
    pub children: Vec<Node>,
    /// The number of files counted for this node.
    pub file_count: usize,
    /// The number of directories counted for this node.
    pub dir_count: usize,
    /// The path of the node within the repository.
    pub path: String,
    /// Whether the node's content is left out of a summary.
    pub ignore_content: bool,
    /// Where the node's content can be downloaded, if anywhere.
    pub download_url: Option<String>,
}

/// The mathematical value of a `Node`.
pub struct NodeView {
    pub name: Seq<char>,
    pub node_type: Seq<char>,
    pub size: u64,
    pub children: Seq<NodeView>,
    pub file_count: usize,
    pub dir_count: usize,
    pub path: Seq<char>,
    pub ignore_content: bool,
    pub download_url: Option<Seq<char>>,
}

impl View for Node {
    type V = NodeView;

    open spec fn view(&self) -> NodeView
        decreases self, 0int,
    {
        NodeView {
            name: self.name@,
            node_type: self.node_type@,
            size: self.size,
            children: node_views(self.children@, 0),
            file_count: self.file_count,
            dir_count: self.dir_count,
            path: self.path@,
            ignore_content: self.ignore_content,
            download_url: opt_view(self.download_url),
        }
    }
}

/// The views of `s[i..]`.
pub open spec fn node_views(s: Seq<Node>, i: int) -> Seq<NodeView>
    decreases s, s.len() - i,
{
    if 0 <= i < s.len() {
        seq![s[i]@] + node_views(s, i + 1)
    } else {
        seq![]
    }
}

proof fn lemma_node_views(s: Seq<Node>, i: int)
    requires
        0 <= i <= s.len(),
    ensures
        node_views(s, i).len() == s.len() - i,
        forall|k: int| i <= k < s.len() ==> #[trigger] node_views(s, i)[k - i] == s[k]@,
    decreases s.len() - i,
{
    if i < s.len() {
        lemma_node_views(s, i + 1);
        assert(node_views(s, i) == seq![s[i]@] + node_views(s, i + 1));
        assert forall|k: int| i <= k < s.len() implies #[trigger] node_views(s, i)[k - i]
            == s[k]@ by {
            if k > i {
                assert(node_views(s, i)[k - i] == node_views(s, i + 1)[k - (i + 1)]);
            }
        }
    }
}

/// The children of a node's view are the views of its children.
pub proof fn lemma_children_view(n: Node)
    ensures
        n@.children.len() == n.children@.len(),
        forall|i: int| 0 <= i < n.children@.len() ==> #[trigger] n@.children[i] == n.children@[i]@,
{
    lemma_node_views(n.children@, 0);
    assert forall|i: int| 0 <= i < n.children@.len() implies #[trigger] n@.children[i]
        == n.children@[i]@ by {
        assert(node_views(n.children@, 0)[i - 0] == n.children@[i]@);
    }
}

/// A node that differs from `a` only by one more last child `c` has the view
/// of `a` with `c`'s view added to its children.
pub proof fn lemma_view_push_child(a: Node, b: Node, c: Node)
    requires
        b.children@ == a.children@.push(c),
        b.name == a.name,
        b.node_type == a.node_type,
        b.size == a.size,
        b.file_count == a.file_count,
        b.dir_count == a.dir_count,
        b.path == a.path,
        b.ignore_content == a.ignore_content,
        b.download_url == a.download_url,
    ensures
        b@ == (NodeView { children: a@.children.push(c@), ..a@ }),
{
    lemma_children_view(a);
    lemma_children_view(b);
    assert(b@.children =~= a@.children.push(c@));
}

/// A node without children has a view without children.
pub proof fn lemma_view_leaf(n: Node)
    requires
        n.children@.len() == 0,
    ensures
        n@.children == Seq::<NodeView>::empty(),
{
    lemma_children_view(n);
    assert(n@.children =~= Seq::<NodeView>::empty());
}

/// A copy of an optional string.
pub fn clone_opt_string(o: &Option<String>) -> (r: Option<String>)
    ensures
        r == *o,
{
    match o {
        Some(s) => Some(s.clone()),
        None => None,
    }
}

/// The content fetched for one file.
#[derive(Debug)]
pub struct FileContent {
    /// The path of the file within the repository.
    pub path: String,
    /// The text of the file.
    pub content: String,
}

/// Running totals over the files met so far.
#[derive(Debug)]
pub struct Stats {
    /// The number of files.
    pub total_files: usize,
    /// The sum of their sizes, in bytes.
    pub total_size: u64,
}

} // verus!
