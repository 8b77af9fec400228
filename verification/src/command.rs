//! The `/gitingest` slash command: checking its arguments and turning them
//! into a query, and the text it answers with.
use vstd::prelude::*;
use crate::errors::{ingest_error_text, GitIngestError, IngestErrorView};
use crate::model::opt_view;
use crate::query::{github_prefix, url_branch, url_path, url_segments, Query};
use crate::text::{
    split_all, split_pieces, starts_with, strip_all_prefix, strip_all_prefix_str, trim, trim_string,
    views,
};

verus! {

/// The name of the slash command this library answers.
pub open spec fn command_name() -> Seq<char> {
    "gitingest"@
}

/// The message of the URL error, where `url` is not a usable repository URL.
pub open spec fn url_error(url: Seq<char>) -> Option<Seq<char>> {
    if !starts_with(trim(url), github_prefix()) {
        Some("Not a GitHub URL"@)
    } else if url_segments(url).len() < 2 {
        Some("Invalid repository URL"@)
    } else {
        None
    }
}

/// The patterns an argument such as `exclude:a,b` lists: the text after the
/// (repeated) prefix, split at commas, each piece trimmed.
pub open spec fn pattern_list(arg: Seq<char>, prefix: Seq<char>) -> Seq<Seq<char>> {
    split_pieces(strip_all_prefix(arg, prefix), ',').map_values(|p: Seq<char>| trim(p))
}

/// The exclude patterns that the arguments `rest` list, in order.
pub open spec fn exclude_args(rest: Seq<Seq<char>>) -> Seq<Seq<char>>
    decreases rest.len(),
{
    if rest.len() == 0 {
        seq![]
    } else {
        exclude_args(rest.drop_last()) + if starts_with(rest.last(), "exclude:"@) {
            pattern_list(rest.last(), "exclude:"@)
        } else {
            seq![]
        }
    }
}

/// The include patterns that the arguments `rest` list, in order; an
/// argument that starts with `exclude:` lists none.
pub open spec fn include_args(rest: Seq<Seq<char>>) -> Seq<Seq<char>>
    decreases rest.len(),
{
    if rest.len() == 0 {
        seq![]
    } else {
        include_args(rest.drop_last()) + if !starts_with(rest.last(), "exclude:"@) && starts_with(
            rest.last(),
            "include:"@,
        ) {
            pattern_list(rest.last(), "include:"@)
        } else {
            seq![]
        }
    }
}

/// The token the arguments `rest` give: that of the last `github_token:`
/// argument with a non-blank value, trimmed.
pub open spec fn token_arg(rest: Seq<Seq<char>>) -> Option<Seq<char>>
    decreases rest.len(),
{
    if rest.len() == 0 {
        None
    } else {
        let a = rest.last();
        let v = trim(a.skip("github_token:"@.len() as int));
        if starts_with(a, "github_token:"@) && v.len() > 0 {
            Some(v)
        } else {
            token_arg(rest.drop_last())
        }
    }
}

/// Whether the text `s` starts with the text `p`.
fn str_starts_with(s: &str, p: &str) -> (r: bool)
    ensures
        r == starts_with(s@, p@),
{
    let sv = crate::text::chars_of(s);
    let pv = crate::text::chars_of(p);
    assert(sv@.skip(0) =~= sv@);
    crate::text::starts_with_chars(&sv, 0, &pv)
}

/// Appends the trimmed comma-separated patterns of `arg`, after its prefix
/// `prefix`, to `out`.
fn push_pattern_list(out: &mut Vec<String>, arg: &str, prefix: &str)
    requires
        prefix@.len() > 0,
    ensures
        views(final(out)@) == views(old(out)@) + pattern_list(arg@, prefix@),
{
    let body = strip_all_prefix_str(arg, prefix);
    let pieces = split_all(body.as_str(), ',');
    let ghost ps = split_pieces(body@, ',');
    let ghost start = views(out@);
    let n = pieces.len();
    let mut i: usize = 0;
    assert(ps.map_values(|p: Seq<char>| trim(p)).take(0) =~= Seq::<Seq<char>>::empty());
    while i < n
        invariant
            n == pieces@.len() == ps.len(),
            views(pieces@) == ps,
            i <= n,
            views(out@) == start + ps.map_values(|p: Seq<char>| trim(p)).take(i as int),
        decreases n - i,
    {
        let ghost before = views(out@);
        assert(ps[i as int] == pieces@[i as int]@);
        let t = trim_string(pieces[i].as_str());
        out.push(t);
        assert(views(out@) =~= before.push(trim(ps[i as int])));
        assert(ps.map_values(|p: Seq<char>| trim(p)).take(i + 1) =~= ps.map_values(
            |p: Seq<char>| trim(p),
        ).take(i as int).push(trim(ps[i as int])));
        i = i + 1;
    }
    assert(ps.map_values(|p: Seq<char>| trim(p)).take(n as int) =~= ps.map_values(
        |p: Seq<char>| trim(p),
    ));
}

/// Checks a slash command and its arguments and turns them into a query:
/// the command must be `gitingest`, the first argument a repository URL,
/// and later arguments `exclude:` or `include:` followed by comma-separated
/// glob patterns, or `github_token:` followed by a token (other arguments are
/// passed over).
pub fn prepare_slash_command(name: &str, args: &Vec<String>) -> (r: Result<Query, String>)
    ensures
        name@ != command_name() ==> (r matches Err(m) && m@ == "unknown slash command: \""@
            + name@ + "\""@),
        name@ == command_name() && args@.len() == 0 ==> (r matches Err(m) && m@
            == "nothing to ingest"@),
        name@ == command_name() && args@.len() > 0 && url_error(args@[0]@) is Some ==> (r matches Err(
            m,
        ) && m@ == "invalid repository url: "@ + "Invalid URL: "@ + url_error(args@[0]@)->0),
        name@ == command_name() && args@.len() > 0 && url_error(args@[0]@) is None ==> (r matches Ok(
            q,
        ) && {
            let segs = url_segments(args@[0]@);
            let rest = views(args@).skip(1);
            &&& q.user_name@ == segs[0]
            &&& q.repo_name@ == segs[1]
            &&& opt_view(q.branch) == url_branch(segs)
            &&& opt_view(q.path) == url_path(segs)
            &&& q.ignore_patterns@.len() == 0
            &&& views(q.exclude_patterns@) == exclude_args(rest)
            &&& views(q.include_patterns@) == include_args(rest)
            &&& opt_view(q.github_token) == token_arg(rest)
        }),
{
    let known = String::from_str("gitingest");
    let given = String::from_str(name);
    if !(given == known) {
        let mut m = String::from_str("unknown slash command: \"");
        m.append(name);
        m.append("\"");
        return Err(m);
    }
    if args.len() == 0 {
        return Err(String::from_str("nothing to ingest"));
    }
    let url = args[0].as_str();
    let mut query = match Query::new(url) {
        Ok(q) => q,
        Err(e) => {
            let mut m = String::from_str("invalid repository url: ");
            let text = e.to_string();
            assert(text@ == ingest_error_text(e@));
            m.append(text.as_str());
            return Err(m);
        },
    };
    let mut exclude_patterns: Vec<String> = Vec::new();
    let mut include_patterns: Vec<String> = Vec::new();
    let mut github_token: Option<String> = None;
    let ghost rest = views(args@).skip(1);
    let n = args.len();
    let mut i: usize = 1;
    assert(rest.take(0) =~= Seq::<Seq<char>>::empty());
    while i < n
        invariant
            n == args@.len(),
            1 <= i <= n,
            rest == views(args@).skip(1),
            views(exclude_patterns@) == exclude_args(rest.take(i - 1)),
            views(include_patterns@) == include_args(rest.take(i - 1)),
            opt_view(github_token) == token_arg(rest.take(i - 1)),
        decreases n - i,
    {
        let arg = args[i].as_str();
        assert(rest.take(i as int).drop_last() =~= rest.take(i - 1));
        assert(rest.take(i as int).last() == args@[i as int]@);
        if str_starts_with(arg, "exclude:") {
            proof {
                reveal_strlit("exclude:");
            }
            push_pattern_list(&mut exclude_patterns, arg, "exclude:");
        } else if str_starts_with(arg, "include:") {
            proof {
                reveal_strlit("include:");
            }
            push_pattern_list(&mut include_patterns, arg, "include:");
        } else if str_starts_with(arg, "github_token:") {
            let v = crate::text::chars_of(arg);
            proof {
                reveal_strlit("github_token:");
            }
            let value = crate::text::string_from_chars(&v, 13, v.len());
            assert(value@ =~= args@[i as int]@.skip("github_token:"@.len() as int));
            let t = trim_string(value.as_str());
            if !t.as_str().is_empty() {
                github_token = Some(t);
            }
        }
        proof {
            reveal_strlit("github_token:");
            reveal_strlit("exclude:");
            reveal_strlit("include:");
            let a = args@[i as int]@;
            if starts_with(a, "github_token:"@) {
                assert(a.take(13)[0] == 'g');
                if starts_with(a, "exclude:"@) {
                    assert(a.take(8)[0] == 'e');
                }
                if starts_with(a, "include:"@) {
                    assert(a.take(8)[0] == 'i');
                }
            }
        }
        assert(views(exclude_patterns@) =~= exclude_args(rest.take(i as int)));
        assert(views(include_patterns@) =~= include_args(rest.take(i as int)));
        assert(opt_view(github_token) == token_arg(rest.take(i as int)));
        i = i + 1;
    }
    assert(rest.take(n - 1) =~= rest);
    query.exclude_patterns = exclude_patterns;
    query.include_patterns = include_patterns;
    query.github_token = github_token;
    Ok(query)
}

/// The text a slash command answers with for a run's outcome: the summary,
/// or the error's message after `error: `.
pub open spec fn answer_text(outcome: Result<Seq<char>, IngestErrorView>) -> Seq<char> {
    match outcome {
        Ok(s) => s,
        Err(e) => "error: "@ + ingest_error_text(e),
    }
}

/// The text a slash command answers with; see `answer_text`.
pub fn command_output(result: Result<String, GitIngestError>) -> (r: String)
    ensures
        r@ == answer_text(
            match result {
                Ok(s) => Ok(s@),
                Err(e) => Err(e@),
            },
        ),
{
    match result {
        Ok(s) => s,
        Err(e) => {
            let mut m = String::from_str("error: ");
            let text = e.to_string();
            m.append(text.as_str());
            m
        },
    }
}

} // verus!
