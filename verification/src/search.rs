//! Bibitem search: the request, its paging bounds, and the reply.
use vstd::prelude::*;
use crate::domain::{BibItem, EntryType, Epoch};

verus! {

/// The number of results a search returns when it names no limit.
pub fn default_limit() -> (r: i64)
    ensures
        r == 50,
{
    50
}

/// The fewest results a search may ask for.
pub const MIN_SEARCH_LIMIT: i64 = 1;

/// The most results a search may ask for.
pub const MAX_SEARCH_LIMIT: i64 = 100;

/// What a search asks for: a text, filters, and a page.
#[derive(Debug)]
pub struct SearchRequest {
    pub query: String,
    pub entry_type: Option<EntryType>,
    pub year_from: Option<i16>,
    pub year_to: Option<i16>,
    pub author_id: Option<i64>,
    pub journal_id: Option<i64>,
    pub epoch: Option<Epoch>,
    pub limit: i64,
    pub offset: i64,
}

/// The matching bibitems of one page, with the total count and the page
/// bounds that were used.
#[derive(Debug)]
pub struct SearchResponse {
    pub results: Vec<BibItem>,
    pub total: i64,
    pub limit: i64,
    pub offset: i64,
}

/// `v` brought into `lo..=hi`.
pub open spec fn clamp(v: int, lo: int, hi: int) -> int {
    if v < lo {
        lo
    } else if v > hi {
        hi
    } else {
        v
    }
}

/// The request with its limit brought into `1..=100` and a negative offset
/// raised to 0; the filters are kept as they are.
pub fn clamp_search_request(request: SearchRequest) -> (r: SearchRequest)
    ensures
        r.limit == clamp(request.limit as int, MIN_SEARCH_LIMIT as int, MAX_SEARCH_LIMIT as int),
        r.offset == (if request.offset < 0 { 0 } else { request.offset as int }),
        r.query == request.query,
        r.entry_type == request.entry_type,
        r.year_from == request.year_from,
        r.year_to == request.year_to,
        r.author_id == request.author_id,
        r.journal_id == request.journal_id,
        r.epoch == request.epoch,
{
    let limit = if request.limit < MIN_SEARCH_LIMIT {
        MIN_SEARCH_LIMIT
    } else if request.limit > MAX_SEARCH_LIMIT {
        MAX_SEARCH_LIMIT
    } else {
        request.limit
    };
    let offset = if request.offset < 0 {
        0
    } else {
        request.offset
    };
    SearchRequest { limit, offset, ..request }
}

} // verus!
