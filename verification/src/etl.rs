//! The scraping job's pure parts.  Fetching pages and loading rows are
//! I/O and live with the embedding program; what belongs here is the
//! request URL the job builds from its pagination window, and the
//! projection of a fetched listing to the item URLs to follow.

use vstd::prelude::*;

use crate::ascii::{dec_chars, to_dec_string};
use crate::catalog::ApiResponse;
use crate::entity::Pagination;

verus! {

/// Marker for the one scraping job the application ships.
pub struct Pokemon;

/// The item URLs of one upstream listing page, in listing order.
pub fn collect_scrap_links(response: &ApiResponse) -> (r: Vec<String>)
    ensures
        r@.len() == response.results@.len(),
        forall|i: int| 0 <= i < r@.len() ==> r@[i]@ == response.results@[i].url@,
{
    let mut r: Vec<String> = Vec::new();
    let n = response.results.len();
    let mut k: usize = 0;
    while k < n
        invariant
            k <= n,
            n == response.results@.len(),
            r@.len() == k,
            forall|i: int| 0 <= i < k ==> r@[i]@ == response.results@[i].url@,
        decreases n - k,
    {
        r.push(response.results[k].url.clone());
        k = k + 1;
    }
    r
}

/// The upstream listing URL for one pagination window: the fixed
/// endpoint with the window's limit and offset filled in.
pub fn build_scrap_url(pagination: &Pagination) -> (r: String)
    requires
        pagination.page * pagination.page_size <= usize::MAX,
    ensures
        r@ == "https://pokeapi.co/api/v2/pokemon?limit="@ + dec_chars(
            pagination.page_size as int,
        ) + "&offset="@ + dec_chars((pagination.page * pagination.page_size) as int),
{
    let mut url = String::from_str("https://pokeapi.co/api/v2/pokemon?limit=");
    let limit_s = to_dec_string(pagination.limit() as u128);
    url.append(limit_s.as_str());
    url.append("&offset=");
    let offset_s = to_dec_string(pagination.offset() as u128);
    url.append(offset_s.as_str());
    proof {
        assert(url@ =~= "https://pokeapi.co/api/v2/pokemon?limit="@ + dec_chars(
            pagination.page_size as int,
        ) + "&offset="@ + dec_chars((pagination.page * pagination.page_size) as int));
    }
    url
}

} // verus!
