//! One page of upstream star events, as the transport layer hands it to
//! the sync engine: the events, the pagination metadata, and the ways a
//! fetch can come back without a page.

use vstd::prelude::*;

verus! {

/// The stargazer identity carried by one upstream edge.
#[derive(Debug, Clone)]
pub struct StargazerUser {
    pub login: String,
    pub email: Option<String>,
}

/// One upstream star event: who starred, and when (seconds).
#[derive(Debug, Clone)]
pub struct StargazerEdge {
    pub starred_at: i64,
    pub node: StargazerUser,
}

/// Pagination metadata of one upstream page.
#[derive(Debug, Clone)]
pub struct PageInfo {
    pub has_next_page: bool,
    pub end_cursor: Option<String>,
}

/// One page of star events, ordered by starred-at ascending upstream.
#[derive(Debug, Clone)]
pub struct Page {
    pub stars: Vec<StargazerEdge>,
    pub page_info: PageInfo,
}

/// What one page fetch came back with, as the transport layer reports it.
#[derive(Debug, Clone)]
pub enum FetchOutcome {
    /// The page decoded and the repository exists upstream.
    Fetched(Page),
    /// The upstream answered, but knows no such repository.
    RepositoryMissing,
    /// The upstream could not be reached (transport failure).
    Unavailable { message: String },
    /// The upstream answered with an error status.
    Rejected { status: u16, body: String },
    /// The answer could not be decoded.
    Malformed { message: String },
}

} // verus!
