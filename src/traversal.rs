//! The bounded traversal of one crawl request. It holds the decisions only:
//! which URL to fetch next, and what a fetched page adds to the store and to
//! the frontier. Fetching is done by the caller, one page at a time.

use vstd::prelude::*;
use crate::links::{extract_links, learned};
use crate::store::{after_insert, fresh_from, UrlStore};
use crate::strings::views;
use crate::weburl::{anchor_hrefs, url_parse};

verus! {

/// At most this many pages are fetched for one crawl request.
pub const MAX_PAGES_PER_REQUEST: u32 = 16;

/// One crawl request in progress: the hostname it is restricted to, the
/// frontier of URLs still to visit (the last one is visited first), and how
/// many pages were handed out for fetching.
pub struct Traversal {
    host: String,
    frontier: Vec<String>,
    fetched: u32,
}

impl Traversal {
    pub closed spec fn host(&self) -> Seq<char> {
        self.host@
    }

    pub closed spec fn frontier(&self) -> Seq<Seq<char>> {
        views(self.frontier@)
    }

    pub closed spec fn fetched(&self) -> nat {
        self.fetched as nat
    }

    /// No more pages are handed out than the bound allows.
    pub open spec fn wf(&self) -> bool {
        self.fetched() <= MAX_PAGES_PER_REQUEST
    }

    /// A traversal of `host` that starts from `seed` alone.
    pub fn new(seed: String, host: String) -> (r: Traversal)
        ensures
            r.wf(),
            r.host() == host@,
            r.frontier() == seq![seed@],
            r.fetched() == 0,
    {
        let mut frontier: Vec<String> = Vec::new();
        frontier.push(seed);
        let r = Traversal { host, frontier, fetched: 0 };
        assert(r.frontier() =~= seq![seed@]);
        r
    }

    /// Whether the traversal is over: nothing left to visit, or the bound reached.
    pub open spec fn finished(&self) -> bool {
        self.frontier().len() == 0 || self.fetched() >= MAX_PAGES_PER_REQUEST
    }

    /// Once as many pages as the bound allows were handed out, the traversal
    /// is over, however large the frontier still is.
    pub proof fn lemma_bound_ends_traversal(&self)
        requires
            self.fetched() == MAX_PAGES_PER_REQUEST,
        ensures
            self.finished(),
    {
    }

    /// The next URL to fetch: the most recently discovered one. Nothing once
    /// the traversal is over.
    pub fn next_url(&mut self) -> (r: Option<String>)
        requires
            old(self).wf(),
        ensures
            final(self).wf(),
            final(self).host() == old(self).host(),
            r is None <==> old(self).finished(),
            r is None ==> final(self).frontier() == old(self).frontier() && final(self).fetched()
                == old(self).fetched(),
            r matches Some(u) ==> u@ == old(self).frontier().last() && final(self).frontier()
                == old(self).frontier().drop_last() && final(self).fetched() == old(
                self,
            ).fetched() + 1,
    {
        if self.frontier.len() == 0 || self.fetched >= MAX_PAGES_PER_REQUEST {
            return None;
        }
        self.fetched = self.fetched + 1;
        let u = self.frontier.pop();
        assert(views(self.frontier@) =~= views(old(self).frontier@).drop_last());
        u
    }

    /// Records the URLs learned from a fetched page (`None` when the page gave
    /// nothing): those the store did not know are added to it and pushed on
    /// the frontier, in their order.
    pub fn record(&mut self, store: &mut UrlStore, found: Option<Vec<String>>)
        requires
            old(self).wf(),
            old(store).wf(),
        ensures
            final(self).wf(),
            final(store).wf(),
            final(self).host() == old(self).host(),
            final(self).fetched() == old(self).fetched(),
            match found {
                None => final(store)@ == old(store)@ && final(self).frontier() == old(
                    self,
                ).frontier(),
                Some(v) => final(store)@ == after_insert(old(store)@, old(self).host(), views(v@))
                    && final(self).frontier() == old(self).frontier() + fresh_from(
                    old(store).known(old(self).host()),
                    views(v@),
                ),
            },
    {
        match found {
            Some(v) => {
                let mut fresh = store.insert_unique(self.host.as_str(), v);
                let ghost before = self.frontier@;
                let ghost added = fresh@;
                self.frontier.append(&mut fresh);
                assert(views(self.frontier@) =~= views(before) + views(added));
            },
            None => {},
        }
    }

    /// Handles the page fetched from `url`: its body, or `None` when the fetch
    /// failed. The URLs learned from it for this traversal's host, the page
    /// itself included, are offered to the store; the new ones join the
    /// frontier. A failed fetch, or a page whose URL does not parse, changes
    /// nothing.
    pub fn visit_page(&mut self, store: &mut UrlStore, url: &str, body: Option<String>)
        requires
            old(self).wf(),
            old(store).wf(),
        ensures
            final(self).wf(),
            final(store).wf(),
            final(self).host() == old(self).host(),
            final(self).fetched() == old(self).fetched(),
            body is None || url_parse(url@) is None ==> final(store)@ == old(store)@ && final(self).frontier() == old(
                self,
            ).frontier(),
            body is Some && url_parse(url@) is Some ==> exists|c: Seq<Seq<char>>|
                {
                    &&& c.no_duplicates()
                    &&& forall|u: Seq<char>|
                        c.contains(u) <==> learned(
                            old(self).host(),
                            url@,
                            anchor_hrefs(body->0@),
                            u,
                        )
                    &&& final(store)@ == #[trigger] after_insert(old(store)@, old(self).host(), c)
                    &&& final(self).frontier() == old(self).frontier() + fresh_from(
                        old(store).known(old(self).host()),
                        c,
                    )
                },
    {
        let found = match &body {
            Some(b) => extract_links(self.host.as_str(), url, b.as_str()),
            None => None,
        };
        self.record(store, found);
    }
}

} // verus!
