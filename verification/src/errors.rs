//! The two error types of the library and their messages.
use vstd::prelude::*;
use crate::text::{decimal, push_decimal};

verus! {

/// Errors that come from talking to the GitHub API.
#[derive(Debug)]
pub enum GitHubApiError {
    /// A network-related failure.
    Network(String),
    /// Any other failure.
    Other(String),
}

/// Errors of the ingestion process.
#[derive(Debug)]
pub enum GitIngestError {
    /// More files than allowed were met; carries the total size seen so far.
    MaxSizeExceeded(u64),
    /// The repository could not be listed.
    RepoNotFound(String),
    /// The URL given is not a usable GitHub repository URL.
    InvalidUrl(String),
}

/// The mathematical value of a `GitIngestError`.
pub enum IngestErrorView {
    MaxSizeExceeded(u64),
    RepoNotFound(Seq<char>),
    InvalidUrl(Seq<char>),
}

impl View for GitIngestError {
    type V = IngestErrorView;

    open spec fn view(&self) -> IngestErrorView {
        match self {
            GitIngestError::MaxSizeExceeded(n) => IngestErrorView::MaxSizeExceeded(*n),
            GitIngestError::RepoNotFound(m) => IngestErrorView::RepoNotFound(m@),
            GitIngestError::InvalidUrl(m) => IngestErrorView::InvalidUrl(m@),
        }
    }
}

/// The message of a `GitHubApiError`.
pub open spec fn api_error_text(e: GitHubApiError) -> Seq<char> {
    match e {
        GitHubApiError::Network(m) => "Network error: "@ + m@,
        GitHubApiError::Other(m) => "Error: "@ + m@,
    }
}

/// The message of a `GitIngestError`.
pub open spec fn ingest_error_text(e: IngestErrorView) -> Seq<char> {
    match e {
        IngestErrorView::MaxSizeExceeded(n) => "Max size exceeded: "@ + decimal(n as nat)
            + " bytes"@,
        IngestErrorView::RepoNotFound(m) => "Repository not found: "@ + m,
        IngestErrorView::InvalidUrl(m) => "Invalid URL: "@ + m,
    }
}

impl GitHubApiError {
    /// The human-readable message of this error.
    pub fn to_string(&self) -> (r: String)
        ensures
            r@ == api_error_text(*self),
    {
        match self {
            GitHubApiError::Network(m) => {
                let mut r = String::from_str("Network error: ");
                r.append(m.as_str());
                r
            },
            GitHubApiError::Other(m) => {
                let mut r = String::from_str("Error: ");
                r.append(m.as_str());
                r
            },
        }
    }
}

impl GitIngestError {
    /// The human-readable message of this error.
    pub fn to_string(&self) -> (r: String)
        ensures
            r@ == ingest_error_text(self@),
    {
        match self {
            GitIngestError::MaxSizeExceeded(n) => {
                let mut r = String::from_str("Max size exceeded: ");
                push_decimal(&mut r, *n);
                r.append(" bytes");
                r
            },
            GitIngestError::RepoNotFound(m) => {
                let mut r = String::from_str("Repository not found: ");
                r.append(m.as_str());
                r
            },
            GitIngestError::InvalidUrl(m) => {
                let mut r = String::from_str("Invalid URL: ");
                r.append(m.as_str());
                r
            },
        }
    }
}

/// The error of a repository that could not be read: `RepoNotFound` with the
/// message of the API error that stopped the reading.
pub fn repo_not_found(e: &GitHubApiError) -> (r: GitIngestError)
    ensures
        r@ == IngestErrorView::RepoNotFound(api_error_text(*e)),
{
    GitIngestError::RepoNotFound(e.to_string())
}

/// A copy of an API error.
pub fn clone_api_error(e: &GitHubApiError) -> (r: GitHubApiError)
    ensures
        r == *e,
{
    match e {
        GitHubApiError::Network(m) => GitHubApiError::Network(m.clone()),
        GitHubApiError::Other(m) => GitHubApiError::Other(m.clone()),
    }
}

} // verus!
