//! Glob pattern matching, done by the `glob` crate.
use vstd::prelude::*;

verus! {

/// Whether `glob::Pattern::new` accepts `pattern`.
pub uninterp spec fn glob_pattern_valid(pattern: Seq<char>) -> bool;

/// What `glob::Pattern::matches` answers for `path` on the pattern compiled
/// from `pattern`.
pub uninterp spec fn glob_pattern_matches(pattern: Seq<char>, path: Seq<char>) -> bool;

/// Compiles `pattern` and matches `path` against it; `None` where the
/// pattern does not compile.
///
/// Trusted: calls `glob::Pattern::new` and, on the pattern it returns,
/// `glob::Pattern::matches`. The contract claims only that both are
/// functions of their arguments: compiling succeeds exactly where
/// `glob_pattern_valid` holds, and the match answer is
/// `glob_pattern_matches` of the pattern text and the path (the compiled
/// pattern is built from the pattern text alone).
#[verifier::external_body]
fn glob_match(pattern: &str, path: &str) -> (r: Option<bool>)
    ensures
        r is Some <==> glob_pattern_valid(pattern@),
        r matches Some(b) ==> b == glob_pattern_matches(pattern@, path@),
{
    match glob::Pattern::new(pattern) {
        Ok(p) => Some(p.matches(path)),
        Err(_) => None,
    }
}

/// Whether `pattern` is a valid glob pattern that matches `path`.
pub open spec fn glob_hit(pattern: Seq<char>, path: Seq<char>) -> bool {
    glob_pattern_valid(pattern) && glob_pattern_matches(pattern, path)
}

/// Whether `pattern` compiles as a glob pattern and matches `path`; an
/// invalid pattern matches nothing.
pub fn pattern_matches(pattern: &str, path: &str) -> (r: bool)
    ensures
        r == glob_hit(pattern@, path@),
{
    match glob_match(pattern, path) {
        Some(b) => b,
        None => false,
    }
}

} // verus!
