//! Rendering of a repository tree and of the final summary text.
use vstd::prelude::*;
use crate::model::{lemma_children_view, FileContent, Node, NodeView};
use crate::query::{api_url_text, Query, QueryView};
use crate::files::contents_view;
use crate::walk::RepoTree;
use crate::text::views;
use crate::text::{decimal, digit, push_char, push_decimal};

verus! {

/// The marker drawn before a node's name.
pub open spec fn tree_marker(is_last: bool) -> Seq<char> {
    if is_last {
        "└── "@
    } else {
        "├── "@
    }
}

/// What the children of a node add to its prefix.
pub open spec fn child_indent(is_last: bool) -> Seq<char> {
    if is_last {
        "    "@
    } else {
        "│   "@
    }
}

/// The tree drawing of `n` and everything below it: one line per node,
/// children indented under their parent, the last child of each node drawn
/// with a corner.
pub open spec fn tree_text(n: NodeView, prefix: Seq<char>, is_last: bool) -> Seq<char>
    decreases n, 0int,
{
    prefix + tree_marker(is_last) + n.name + "\n"@ + children_text(
        n.children,
        prefix + child_indent(is_last),
        0,
    )
}

/// The tree drawings of `cs[i..]`, each under `prefix`.
pub open spec fn children_text(cs: Seq<NodeView>, prefix: Seq<char>, i: int) -> Seq<char>
    decreases cs, cs.len() - i,
{
    if 0 <= i < cs.len() {
        tree_text(cs[i], prefix, i == cs.len() - 1) + children_text(cs, prefix, i + 1)
    } else {
        seq![]
    }
}

/// A size in bytes, in KiB rounded to hundredths (ties to even), times 100.
pub open spec fn kib_hundredths(size: u64) -> nat {
    let q = (size as nat * 100) / 1024;
    let r = (size as nat * 100) % 1024;
    if r > 512 || (r == 512 && q % 2 == 1) {
        q + 1
    } else {
        q
    }
}

/// A size in bytes written in KiB with two decimals.
pub open spec fn kib_text(size: u64) -> Seq<char> {
    let h = kib_hundredths(size);
    decimal(h / 100) + "."@ + seq![digit((h % 100) / 10), digit(h % 10)]
}

/// The listing of fetched files, as paths and texts, in a summary.
pub open spec fn files_text(files: Seq<(Seq<char>, Seq<char>)>) -> Seq<char>
    decreases files.len(),
{
    if files.len() == 0 {
        seq![]
    } else {
        let f = files.last();
        files_text(files.drop_last()) + "\n--- "@ + f.0 + " ---\n"@ + f.1 + "\n"@
    }
}

/// The summary of a repository: totals, the API URL, the tree and the
/// selected file contents.
pub open spec fn summary_text(q: QueryView, n: NodeView, files: Seq<(Seq<char>, Seq<char>)>) -> Seq<
    char,
> {
    "Repository: "@ + q.user_name + "/"@ + q.repo_name + "\n"@ + "Total files: "@ + decimal(
        n.file_count as nat,
    ) + "\n"@ + "Total size: "@ + kib_text(n.size) + " KB\n"@ + "Directory count: "@ + decimal(
        n.dir_count as nat,
    ) + "\n\n"@ + "API URL:\n"@ + api_url_text(q.user_name, q.repo_name, q.root_path(), q.branch) + "\n\n"@ + "Directory structure:\n"@ + tree_text(n, seq![], true) + (if files.len() > 0 {
        "\nSelected file contents:\n"@ + files_text(files)
    } else {
        seq![]
    })
}

/// The lines listing the paths left out by exclude and ignore patterns.
pub open spec fn ignored_lines(paths: Seq<Seq<char>>) -> Seq<char>
    decreases paths.len(),
{
    if paths.len() == 0 {
        seq![]
    } else {
        ignored_lines(paths.drop_last()) + paths.last() + "\n"@
    }
}

/// The section of a summary that lists the paths left out, where there are
/// any.
pub open spec fn ignored_section(paths: Seq<Seq<char>>) -> Seq<char> {
    if paths.len() > 0 {
        "\nIgnored files and directories:\n"@ + ignored_lines(paths)
    } else {
        seq![]
    }
}

/// Appends `size` in KiB with two decimals to `s`.
fn push_kib(s: &mut String, size: u64)
    ensures
        final(s)@ == old(s)@ + kib_text(size),
{
    let scaled: u128 = (size as u128) * 100;
    let q: u128 = scaled / 1024;
    let r: u128 = scaled % 1024;
    let h: u128 = if r > 512 || (r == 512 && q % 2 == 1) {
        q + 1
    } else {
        q
    };
    assert(h == kib_hundredths(size));
    assert(h / 100 <= u64::MAX);
    push_decimal(s, (h / 100) as u64);
    push_char(s, '.');
    let tens = ((h % 100) / 10) as u8 + 48;
    let ones = (h % 10) as u8 + 48;
    push_char(s, tens as char);
    push_char(s, ones as char);
    proof {
        reveal_strlit(".");
    }
    assert(tens as char == digit(((h % 100) / 10) as nat));
    assert(ones as char == digit((h % 10) as nat));
    assert(s@ =~= old(s)@ + kib_text(size));
}

impl Query {
    /// Draws `node` and everything below it as a tree, each line starting
    /// with `prefix`.
    pub fn create_tree_structure(&self, node: &Node, prefix: &str, is_last: bool) -> (r: String)
        ensures
            r@ == tree_text(node@, prefix@, is_last),
        decreases node,
    {
        let mut result = String::new();
        result.append(prefix);
        if is_last {
            result.append("└── ");
        } else {
            result.append("├── ");
        }
        result.append(node.name.as_str());
        result.append("\n");
        let mut child_prefix = String::new();
        child_prefix.append(prefix);
        if is_last {
            child_prefix.append("    ");
        } else {
            child_prefix.append("│   ");
        }
        proof {
            lemma_children_view(*node);
        }
        let ghost cs = node@.children;
        let ghost p = child_prefix@;
        let ghost head = result@;
        assert(head == prefix@ + tree_marker(is_last) + node@.name + "\n"@);
        let n = node.children.len();
        let mut i: usize = 0;
        assert(head + children_text(cs, p, 0) == tree_text(node@, prefix@, is_last));
        while i < n
            invariant
                n == node.children@.len() == cs.len(),
                i <= n,
                cs == node@.children,
                p == child_prefix@,
                forall|k: int| 0 <= k < n ==> #[trigger] cs[k] == node.children@[k]@,
                result@ + children_text(cs, p, i as int) == tree_text(node@, prefix@, is_last),
            decreases n - i,
        {
            let sub = self.create_tree_structure(&node.children[i], child_prefix.as_str(), i == n - 1);
            let ghost before = result@;
            result.append(sub.as_str());
            assert(children_text(cs, p, i as int) == tree_text(cs[i as int], p, i == n - 1)
                + children_text(cs, p, i + 1));
            assert(result@ + children_text(cs, p, i + 1) =~= before + children_text(
                cs,
                p,
                i as int,
            ));
            i = i + 1;
        }
        assert(children_text(cs, p, n as int) == Seq::<char>::empty());
        assert(result@ =~= result@ + children_text(cs, p, n as int));
        result
    }

    /// The summary of the repository rooted at `nodes`, followed by the
    /// contents of `files`.
    pub fn create_summary_string(&self, nodes: &Node, files: &[FileContent]) -> (r: String)
        ensures
            r@ == summary_text(self@, nodes@, contents_view(files@)),
    {
        let mut summary = String::new();
        summary.append("Repository: ");
        summary.append(self.user_name.as_str());
        summary.append("/");
        summary.append(self.repo_name.as_str());
        summary.append("\n");
        summary.append("Total files: ");
        push_decimal(&mut summary, nodes.file_count as u64);
        summary.append("\n");
        summary.append("Total size: ");
        push_kib(&mut summary, nodes.size);
        summary.append(" KB\n");
        summary.append("Directory count: ");
        push_decimal(&mut summary, nodes.dir_count as u64);
        summary.append("\n\n");
        let path = self.root_path();
        assert(path@ == self@.root_path());
        let api_url = self.api_url(path);
        summary.append("API URL:\n");
        summary.append(api_url.as_str());
        summary.append("\n\n");
        summary.append("Directory structure:\n");
        let tree = self.create_tree_structure(nodes, "", true);
        proof {
            reveal_strlit("");
        }
        assert(""@ =~= Seq::<char>::empty());
        summary.append(tree.as_str());
        let ghost head = summary@;
        if files.len() > 0 {
            summary.append("\nSelected file contents:\n");
            let ghost mid = summary@;
            let mut i: usize = 0;
            assert(contents_view(files@).take(0) =~= Seq::<(Seq<char>, Seq<char>)>::empty());
            assert(mid =~= mid + files_text(contents_view(files@).take(0)));
            while i < files.len()
                invariant
                    i <= files@.len(),
                    summary@ == mid + files_text(contents_view(files@).take(i as int)),
                decreases files@.len() - i,
            {
                let file = &files[i];
                summary.append("\n--- ");
                summary.append(file.path.as_str());
                summary.append(" ---\n");
                summary.append(file.content.as_str());
                summary.append("\n");
                let ghost cv = contents_view(files@);
                assert(cv.take(i + 1).drop_last() =~= cv.take(i as int));
                assert(cv.take(i + 1).last() == (files@[i as int].path@, files@[i as int].content@));
                assert(summary@ =~= mid + files_text(cv.take(i + 1)));
                i = i + 1;
            }
            assert(contents_view(files@).take(files@.len() as int) =~= contents_view(files@));
        } else {
            assert(summary@ =~= head + Seq::<char>::empty());
        }
        summary
    }

    /// The summary of a walked repository: the summary of its tree and the
    /// fetched `files`, followed by the paths the exclude and ignore patterns
    /// left out.
    pub fn create_repo_summary(&self, tree: &RepoTree, files: &[FileContent]) -> (r: String)
        ensures
            r@ == summary_text(self@, tree.root@, contents_view(files@)) + ignored_section(
                tree@.ignored,
            ),
    {
        let mut summary = self.create_summary_string(&tree.root, files);
        let ghost head = summary@;
        let n = tree.ignored.len();
        if n > 0 {
            summary.append("\nIgnored files and directories:\n");
            let ghost mid = summary@;
            let ghost ps = views(tree.ignored@);
            let mut i: usize = 0;
            assert(ps.take(0) =~= Seq::<Seq<char>>::empty());
            assert(mid =~= mid + ignored_lines(ps.take(0)));
            while i < n
                invariant
                    n == tree.ignored@.len() == ps.len(),
                    ps == views(tree.ignored@),
                    i <= n,
                    summary@ == mid + ignored_lines(ps.take(i as int)),
                decreases n - i,
            {
                summary.append(tree.ignored[i].as_str());
                summary.append("\n");
                assert(ps.take(i + 1).drop_last() =~= ps.take(i as int));
                assert(ps.take(i + 1).last() == tree.ignored@[i as int]@);
                assert(summary@ =~= mid + ignored_lines(ps.take(i + 1)));
                i = i + 1;
            }
            assert(ps.take(n as int) =~= ps);
        } else {
            assert(summary@ =~= head + Seq::<char>::empty());
        }
        summary
    }
}

} // verus!
