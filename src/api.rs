//! What the service surface needs from the core: reading the store for one
//! domain, and turning a submitted URL into a traversal.

use vstd::prelude::*;
use crate::store::UrlStore;
use crate::strings::views;
use crate::traversal::Traversal;
use crate::weburl::{parse_url, url_parse};

verus! {

/// How many unique URLs are known for a domain.
pub struct UrlCount {
    pub count: usize,
}

/// A URL that the crawler should visit.
pub struct UrlToCrawl {
    pub url: String,
}

/// All URLs known for `domain`, in order of discovery; empty if it was never crawled.
pub fn list(store: &UrlStore, domain: String) -> (r: Vec<String>)
    requires
        store.wf(),
    ensures
        views(r@) == store.known(domain@),
        views(r@).no_duplicates(),
{
    store.list(domain.as_str())
}

/// How many URLs are known for `domain`; zero if it was never crawled.
pub fn count(store: &UrlStore, domain: String) -> (r: UrlCount)
    requires
        store.wf(),
    ensures
        r.count == store.known(domain@).len(),
{
    UrlCount { count: store.count(domain.as_str()) }
}

/// Reads a submitted crawl request: the URL as parsed and its hostname, or
/// nothing when it is not an absolute URL with a host.
pub fn accept_request(message: &str) -> (r: Option<(String, String)>)
    ensures
        match r {
            Some((text, host)) => url_parse(message@) == Some((text@, Some(host@))),
            None => !(url_parse(message@) matches Some((_, Some(_)))),
        },
{
    match parse_url(message) {
        Some(u) => match u.host {
            Some(h) => Some((u.text, h)),
            None => None,
        },
        None => None,
    }
}

/// The traversal that a submitted crawl request starts: from the URL as
/// parsed, restricted to its hostname. Nothing for a malformed request.
pub fn start_traversal(message: &str) -> (r: Option<Traversal>)
    ensures
        match r {
            Some(t) => t.wf() && t.fetched() == 0 && url_parse(message@) == Some(
                (t.frontier()[0], Some(t.host())),
            ) && t.frontier().len() == 1,
            None => !(url_parse(message@) matches Some((_, Some(_)))),
        },
{
    match accept_request(message) {
        Some((text, host)) => Some(Traversal::new(text, host)),
        None => None,
    }
}

} // verus!
