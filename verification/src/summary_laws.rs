//! What the summary's pieces say: numbers written in decimal read back as
//! themselves, sizes in KB are rounded to the nearest hundredth, the header
//! lines carry the totals and the API URL, files and left-out paths are
//! listed in order, and each node is drawn on a line of its own.
use vstd::prelude::*;
use crate::model::NodeView;
use crate::query::{api_url_text, QueryView};
use crate::summary::{
    children_text, files_text, ignored_lines, kib_hundredths, kib_text, tree_marker, tree_text,
    summary_text,
};
use crate::text::{decimal, digit};

verus! {

/// The number that the decimal digits `s` stand for.
pub open spec fn digits_value(s: Seq<char>) -> nat
    decreases s.len(),
{
    if s.len() == 0 {
        0
    } else {
        digits_value(s.drop_last()) * 10 + ((s.last() as nat) - 48) as nat
    }
}

/// Whether `c` is one of the characters `0` to `9`.
pub open spec fn is_digit(c: char) -> bool {
    '0' <= c && c <= '9'
}

/// The digit of a number below ten stands for that number.
proof fn lemma_digit_value(d: nat)
    requires
        d < 10,
    ensures
        digit(d) as nat == d + 48,
        is_digit(digit(d)),
{
    let b = (d + 48) as u8;
    assert(b as nat == d + 48);
    assert((b as char) as nat == b as nat);
}

/// A number written in decimal is made of digits, starts with a non-zero
/// digit unless it is zero itself, and reads back as the number.
pub proof fn lemma_decimal_reads_back(n: nat)
    ensures
        decimal(n).len() >= 1,
        forall|i: int| 0 <= i < decimal(n).len() ==> is_digit(#[trigger] decimal(n)[i]),
        n > 0 ==> decimal(n)[0] != '0',
        digits_value(decimal(n)) == n,
    decreases n,
{
    if n < 10 {
        lemma_digit_value(n);
        assert(decimal(n) == seq![digit(n)]);
        assert(decimal(n).drop_last() =~= Seq::<char>::empty());
        assert(decimal(n).last() == digit(n));
        assert(digits_value(decimal(n)) == digits_value(decimal(n).drop_last()) * 10 + ((
        decimal(n).last() as nat) - 48) as nat);
        assert(digits_value(Seq::<char>::empty()) == 0);
    } else {
        lemma_decimal_reads_back(n / 10);
        lemma_digit_value(n % 10);
        let d = decimal(n / 10);
        assert(decimal(n) == d.push(digit(n % 10)));
        assert(decimal(n).drop_last() =~= d);
        assert forall|i: int| 0 <= i < decimal(n).len() implies is_digit(#[trigger] decimal(n)[i]) by {
            if i < d.len() {
                assert(decimal(n)[i] == d[i]);
            }
        }
        assert(decimal(n)[0] == d[0]);
        assert(decimal(n).last() == digit(n % 10));
        assert(digits_value(decimal(n)) == digits_value(d) * 10 + ((digit(n % 10) as nat) - 48) as nat);
        assert(n == (n / 10) * 10 + n % 10);
    }
}

/// A size in bytes is shown in KB rounded to the nearest hundredth: the
/// hundredths shown are off from the exact value by at most half a
/// hundredth.
pub proof fn lemma_kib_rounds_to_nearest(size: u64)
    ensures
        kib_hundredths(size) * 1024 <= size * 100 + 512,
        size * 100 <= kib_hundredths(size) * 1024 + 512,
{
    let x = size as nat * 100;
    let q = x / 1024;
    let r = x % 1024;
    assert(x == q * 1024 + r && r < 1024) by (nonlinear_arith)
        requires
            q == x / 1024,
            r == x % 1024,
    ;
}

/// The KB text of a size is the whole KB in decimal, a point, and the two
/// digits of the hundredths.
pub proof fn lemma_kib_text_parts(size: u64)
    ensures
        ({
            let h = kib_hundredths(size);
            let t = kib_text(size);
            let w = decimal(h / 100);
            &&& t.len() == w.len() + 3
            &&& t.subrange(0, w.len() as int) == w
            &&& t[w.len() as int] == '.'
            &&& digits_value(t.subrange(w.len() as int + 1, w.len() as int + 3)) == h % 100
        }),
{
    let h = kib_hundredths(size);
    let t = kib_text(size);
    let w = decimal(h / 100);
    reveal_strlit(".");
    assert(t =~= w + seq!['.'] + seq![digit((h % 100) / 10), digit(h % 10)]);
    let two = t.subrange(w.len() as int + 1, w.len() as int + 3);
    assert(two =~= seq![digit((h % 100) / 10), digit(h % 10)]);
    let one = seq![digit((h % 100) / 10)];
    assert(two.drop_last() =~= one);
    assert(one.drop_last() =~= Seq::<char>::empty());
    assert(digits_value(one) == digits_value(Seq::<char>::empty()) * 10 + ((digit((h % 100) / 10) as nat) - 48) as nat);
    assert(digits_value(two) == digits_value(one) * 10 + ((digit(h % 10) as nat) - 48) as nat);
    lemma_digit_value((h % 100) / 10);
    lemma_digit_value(h % 10);
    assert(h % 10 == (h % 100) % 10) by (nonlinear_arith);
    assert(h % 100 == ((h % 100) / 10) * 10 + (h % 100) % 10) by (nonlinear_arith);
}

/// The summary begins with the repository, the total files, the total size
/// in KB, the directory count and the API URL of the query's own path, one
/// per line, then the directory structure.
pub proof fn lemma_summary_header(
    q: QueryView,
    n: NodeView,
    files: Seq<(Seq<char>, Seq<char>)>,
    url: Seq<char>,
)
    requires
        url == api_url_text(
            q.user_name,
            q.repo_name,
            match q.path {
                Some(p) => p,
                None => Seq::<char>::empty(),
            },
            q.branch,
        ),
    ensures
        ({
            let head = "Repository: "@ + q.user_name + "/"@ + q.repo_name + "\nTotal files: "@
                + decimal(n.file_count as nat) + "\nTotal size: "@ + kib_text(n.size)
                + " KB\nDirectory count: "@ + decimal(n.dir_count as nat) + "\n\nAPI URL:\n"@ + url
                + "\n\nDirectory structure:\n"@ + tree_text(n, seq![], true);
            summary_text(q, n, files).subrange(0, head.len() as int) == head
        }),
{
    reveal_strlit("\n");
    reveal_strlit("\n\n");
    reveal_strlit("Total files: ");
    reveal_strlit("\nTotal files: ");
    reveal_strlit("Total size: ");
    reveal_strlit("\nTotal size: ");
    reveal_strlit(" KB\n");
    reveal_strlit("Directory count: ");
    reveal_strlit(" KB\nDirectory count: ");
    reveal_strlit("API URL:\n");
    reveal_strlit("\n\nAPI URL:\n");
    reveal_strlit("Directory structure:\n");
    reveal_strlit("\n\nDirectory structure:\n");
    let head = "Repository: "@ + q.user_name + "/"@ + q.repo_name + "\nTotal files: "@ + decimal(
        n.file_count as nat,
    ) + "\nTotal size: "@ + kib_text(n.size) + " KB\nDirectory count: "@ + decimal(
        n.dir_count as nat,
    ) + "\n\nAPI URL:\n"@ + url + "\n\nDirectory structure:\n"@ + tree_text(n, seq![], true);
    let s = summary_text(q, n, files);
    let rest = if files.len() > 0 {
        "\nSelected file contents:\n"@ + files_text(files)
    } else {
        seq![]
    };
    assert(s =~= head + rest);
    assert(s.subrange(0, head.len() as int) =~= head);
}

/// Fetched files are listed in order: one more file adds its section,
/// `--- path ---`, its text and a line break, at the end.
pub proof fn lemma_files_text_appends(files: Seq<(Seq<char>, Seq<char>)>, f: (Seq<char>, Seq<char>))
    ensures
        files_text(Seq::<(Seq<char>, Seq<char>)>::empty()) == Seq::<char>::empty(),
        files_text(files.push(f)) == files_text(files) + "\n--- "@ + f.0 + " ---\n"@ + f.1 + "\n"@,
{
    assert(files.push(f).drop_last() =~= files);
}

/// Left-out paths are listed in order, one per line: one more path adds its
/// line at the end.
pub proof fn lemma_ignored_lines_append(paths: Seq<Seq<char>>, p: Seq<char>)
    ensures
        ignored_lines(Seq::<Seq<char>>::empty()) == Seq::<char>::empty(),
        ignored_lines(paths.push(p)) == ignored_lines(paths) + p + "\n"@,
{
    assert(paths.push(p).drop_last() =~= paths);
}

/// A node is drawn on a line of its own, its prefix, its marker (a corner
/// for the last child) and its name, followed by the drawings of its
/// children, in order, under a longer prefix.
pub proof fn lemma_tree_line(n: NodeView, prefix: Seq<char>, is_last: bool)
    ensures
        ({
            let line = prefix + (if is_last {
                "└── "@
            } else {
                "├── "@
            }) + n.name + "\n"@;
            &&& tree_text(n, prefix, is_last).subrange(0, line.len() as int) == line
            &&& tree_text(n, prefix, is_last).len() == line.len() + children_text(
                n.children,
                prefix + (if is_last {
                    "    "@
                } else {
                    "│   "@
                }),
                0,
            ).len()
        }),
{
    let line = prefix + tree_marker(is_last) + n.name + "\n"@;
    let t = tree_text(n, prefix, is_last);
    assert(t.subrange(0, line.len() as int) =~= line);
}

} // verus!
