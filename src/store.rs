//! The per-host store of known URLs: for each hostname, the URLs discovered
//! for it, each once, in the order in which they were first discovered.

use vstd::prelude::*;
use crate::strings::{views, push_new};

verus! {

/// The URLs known for `host` in the store contents `m`; none for an unseen host.
pub open spec fn known_in(m: Map<Seq<char>, Seq<Seq<char>>>, host: Seq<char>) -> Seq<Seq<char>> {
    if m.contains_key(host) {
        m[host]
    } else {
        Seq::empty()
    }
}

/// The candidates that are new against `known`, each once, in the order of
/// their first occurrence among `cands`.
pub open spec fn fresh_from(known: Seq<Seq<char>>, cands: Seq<Seq<char>>) -> Seq<Seq<char>>
    decreases cands.len(),
{
    if cands.len() == 0 {
        Seq::empty()
    } else {
        let prev = fresh_from(known, cands.drop_last());
        if (known + prev).contains(cands.last()) {
            prev
        } else {
            prev.push(cands.last())
        }
    }
}

/// The store contents `m` after the candidates `cands` were offered for `host`.
pub open spec fn after_insert(
    m: Map<Seq<char>, Seq<Seq<char>>>,
    host: Seq<char>,
    cands: Seq<Seq<char>>,
) -> Map<Seq<char>, Seq<Seq<char>>> {
    m.insert(host, known_in(m, host) + fresh_from(known_in(m, host), cands))
}

/// What is new against `known` is exactly what is offered and not known; with
/// it `known` grows by each offered URL once and by nothing else.
pub proof fn lemma_fresh_from(known: Seq<Seq<char>>, cands: Seq<Seq<char>>)
    requires
        known.no_duplicates(),
    ensures
        (known + fresh_from(known, cands)).no_duplicates(),
        forall|u: Seq<char>| #[trigger]
            fresh_from(known, cands).contains(u) <==> (cands.contains(u) && !known.contains(u)),
        forall|u: Seq<char>| #[trigger]
            (known + fresh_from(known, cands)).contains(u) <==> (known.contains(u)
                || cands.contains(u)),
    decreases cands.len(),
{
    let f = fresh_from(known, cands);
    if cands.len() == 0 {
        assert(known + f =~= known);
    } else {
        let prev = fresh_from(known, cands.drop_last());
        lemma_fresh_from(known, cands.drop_last());
        let c = cands.last();
        if !(known + prev).contains(c) {
            assert(known + f =~= (known + prev).push(c));
        }
        assert forall|u: Seq<char>| #[trigger]
            f.contains(u) <==> (cands.contains(u) && !known.contains(u)) by {
            if cands.contains(u) {
                let k = choose|k: int| 0 <= k < cands.len() && cands[k] == u;
                if k < cands.len() - 1 {
                    assert(cands.drop_last()[k] == u);
                }
            }
            if cands.drop_last().contains(u) {
                let k = choose|k: int| 0 <= k < cands.drop_last().len() && cands.drop_last()[k] == u;
                assert(cands[k] == u);
            }
            if prev.contains(u) {
                let k = choose|k: int| 0 <= k < prev.len() && prev[k] == u;
                assert(f[k] == u);
            }
            if f.contains(u) && !prev.contains(u) {
                let k = choose|k: int| 0 <= k < f.len() && f[k] == u;
                if k < prev.len() {
                    assert(prev[k] == u);
                }
            }
            if u == c && !known.contains(u) && !(known + prev).contains(c) {
                assert(f[prev.len() as int] == u);
            }
            if u == c && !known.contains(u) && (known + prev).contains(c) {
                let k = choose|k: int| 0 <= k < (known + prev).len() && (known + prev)[k] == u;
                if k >= known.len() {
                    assert(prev[k - known.len()] == u);
                } else {
                    assert(known[k] == u);
                }
            }
            if u == c {
                assert(cands[cands.len() - 1] == u);
            }
        }
        assert forall|u: Seq<char>| #[trigger]
            (known + f).contains(u) <==> (known.contains(u) || cands.contains(u)) by {
            if (known + f).contains(u) {
                let k = choose|k: int| 0 <= k < (known + f).len() && (known + f)[k] == u;
                if k >= known.len() {
                    assert(f[k - known.len()] == u);
                } else {
                    assert(known[k] == u);
                }
            }
            if known.contains(u) {
                let k = choose|k: int| 0 <= k < known.len() && known[k] == u;
                assert((known + f)[k] == u);
            }
            if f.contains(u) {
                let k = choose|k: int| 0 <= k < f.len() && f[k] == u;
                assert((known + f)[known.len() + k] == u);
            }
        }
    }
}

/// A hostname that the store holds nothing for has no known URLs: listing it
/// gives nothing and counting it gives zero.
pub proof fn lemma_unseen_host_is_empty(m: Map<Seq<char>, Seq<Seq<char>>>, host: Seq<char>)
    requires
        !m.contains_key(host),
    ensures
        known_in(m, host) == Seq::<Seq<char>>::empty(),
        known_in(m, host).len() == 0,
{
}

/// Offering URLs for one hostname leaves every other hostname as it was: it
/// neither becomes known nor gains or loses a URL.
pub proof fn lemma_insert_other_host_unchanged(
    m: Map<Seq<char>, Seq<Seq<char>>>,
    host: Seq<char>,
    cands: Seq<Seq<char>>,
    other: Seq<char>,
)
    requires
        other != host,
    ensures
        after_insert(m, host, cands).contains_key(other) == m.contains_key(other),
        known_in(after_insert(m, host, cands), other) == known_in(m, other),
{
}

/// Offering the same unknown URL twice for a hostname reports it new on the
/// first call only, and the hostname's count grows by exactly one.
pub proof fn lemma_insert_twice(
    m: Map<Seq<char>, Seq<Seq<char>>>,
    host: Seq<char>,
    url: Seq<char>,
)
    requires
        !known_in(m, host).contains(url),
    ensures
        fresh_from(known_in(m, host), seq![url]) == seq![url],
        fresh_from(known_in(after_insert(m, host, seq![url]), host), seq![url])
            == Seq::<Seq<char>>::empty(),
        known_in(after_insert(after_insert(m, host, seq![url]), host, seq![url]), host).len()
            == known_in(m, host).len() + 1,
{
    let k = known_in(m, host);
    let once = seq![url];
    assert(once.drop_last() =~= Seq::<Seq<char>>::empty());
    assert(k + Seq::<Seq<char>>::empty() =~= k);
    assert(fresh_from(k, Seq::<Seq<char>>::empty()) == Seq::<Seq<char>>::empty());
    assert(once.last() == url);
    assert(fresh_from(k, once) =~= once);
    let m1 = after_insert(m, host, once);
    assert(known_in(m1, host) == k + once);
    assert((k + once)[k.len() as int] == url);
    assert((k + once + Seq::<Seq<char>>::empty()).contains(url)) by {
        assert((k + once + Seq::<Seq<char>>::empty())[k.len() as int] == url);
    }
    assert(fresh_from(k + once, Seq::<Seq<char>>::empty()) == Seq::<Seq<char>>::empty());
    assert(fresh_from(k + once, once) =~= Seq::<Seq<char>>::empty());
}

/// An insertion never takes a URL away: what was known for any hostname
/// before stays known, in the same order, ahead of what was added.
pub proof fn lemma_insert_only_grows(
    m: Map<Seq<char>, Seq<Seq<char>>>,
    host: Seq<char>,
    cands: Seq<Seq<char>>,
    any: Seq<char>,
)
    ensures
        known_in(m, any).len() <= known_in(after_insert(m, host, cands), any).len(),
        known_in(after_insert(m, host, cands), any).take(known_in(m, any).len() as int)
            == known_in(m, any),
{
    let after = after_insert(m, host, cands);
    if any == host {
        assert(known_in(after, any).take(known_in(m, any).len() as int) =~= known_in(m, any));
    }
}

/// The URLs known for one hostname.
pub struct HostUrls {
    host: String,
    urls: Vec<String>,
}

/// Hostname to known URLs. All changes go through `insert_unique`, which is
/// one exclusive operation; reads see the contents between two such calls.
pub struct UrlStore {
    entries: Vec<HostUrls>,
    model: Ghost<Map<Seq<char>, Seq<Seq<char>>>>,
}

impl View for UrlStore {
    type V = Map<Seq<char>, Seq<Seq<char>>>;

    closed spec fn view(&self) -> Map<Seq<char>, Seq<Seq<char>>> {
        self.model@
    }
}

impl UrlStore {
    /// Each hostname has one entry, the model follows the entries, and no
    /// hostname's URLs repeat.
    pub closed spec fn wf(&self) -> bool {
        &&& forall|i: int, j: int|
            0 <= i < j < self.entries.len() ==> self.entries[i].host@ != self.entries[j].host@
        &&& forall|i: int|
            0 <= i < self.entries.len() ==> #[trigger] self.model@.contains_key(
                self.entries[i].host@,
            ) && self.model@[self.entries[i].host@] == views(self.entries[i].urls@)
        &&& forall|h: Seq<char>|
            #[trigger] self.model@.contains_key(h) ==> exists|i: int|
                0 <= i < self.entries.len() && self.entries[i].host@ == h
        &&& forall|h: Seq<char>| #[trigger]
            self.model@.contains_key(h) ==> self.model@[h].no_duplicates()
    }

    /// The URLs known for `host`, in order of discovery.
    pub open spec fn known(&self, host: Seq<char>) -> Seq<Seq<char>> {
        known_in(self@, host)
    }

    /// An empty store.
    pub fn new() -> (r: UrlStore)
        ensures
            r.wf(),
            r@ == Map::<Seq<char>, Seq<Seq<char>>>::empty(),
    {
        UrlStore { entries: Vec::new(), model: Ghost(Map::empty()) }
    }

    fn find(&self, host: &String) -> (r: Option<usize>)
        requires
            self.wf(),
        ensures
            match r {
                Some(i) => i < self.entries.len() && self.entries[i as int].host@ == host@,
                None => !self@.contains_key(host@),
            },
    {
        let mut i: usize = 0;
        while i < self.entries.len()
            invariant
                i <= self.entries.len(),
                forall|j: int| 0 <= j < i ==> self.entries[j].host@ != host@,
            decreases self.entries.len() - i,
        {
            if self.entries[i].host == *host {
                return Some(i);
            }
            i += 1;
        }
        None
    }

    /// The URLs known for `host`, in order of discovery; empty for an unseen host.
    pub fn list(&self, host: &str) -> (r: Vec<String>)
        requires
            self.wf(),
        ensures
            views(r@) == self.known(host@),
            views(r@).no_duplicates(),
    {
        let mut r: Vec<String> = Vec::new();
        match self.find(&host.to_owned()) {
            Some(i) => {
                let urls = &self.entries[i].urls;
                let mut k: usize = 0;
                while k < urls.len()
                    invariant
                        k <= urls.len(),
                        r@.len() == k,
                        views(r@) == views(urls@).take(k as int),
                    decreases urls.len() - k,
                {
                    let u = urls[k].clone();
                    assert(u@ == urls@[k as int]@);
                    let ghost before = r@;
                    r.push(u);
                    assert(r@ == before.push(u));
                    assert(views(r@).len() == k + 1);
                    assert forall|j: int| 0 <= j < k + 1 implies views(r@)[j] == views(urls@)[j] by {
                        if j < k {
                            assert(views(before)[j] == views(urls@).take(k as int)[j]);
                        }
                    }
                    assert(views(r@) =~= views(urls@).take(k + 1));
                    k += 1;
                }
                assert(views(urls@).take(urls.len() as int) =~= views(urls@));
            },
            None => {
                assert(views(r@) =~= Seq::empty());
            },
        }
        r
    }

    /// How many URLs are known for `host`; zero for an unseen host.
    pub fn count(&self, host: &str) -> (r: usize)
        requires
            self.wf(),
        ensures
            r == self.known(host@).len(),
    {
        match self.find(&host.to_owned()) {
            Some(i) => self.entries[i].urls.len(),
            None => 0,
        }
    }

    /// Offers `candidates` for `host`: those not known yet are added, and
    /// returned, each once and in the order of the candidates.
    pub fn insert_unique(&mut self, host: &str, candidates: Vec<String>) -> (fresh: Vec<String>)
        requires
            old(self).wf(),
        ensures
            final(self).wf(),
            final(self)@ == after_insert(old(self)@, host@, views(candidates@)),
            views(fresh@) == fresh_from(old(self).known(host@), views(candidates@)),
    {
        let host_s = host.to_owned();
        let ghost known = self.known(host@);
        let ghost cands = views(candidates@);
        let ghost pre = self.entries@;
        let ghost m0 = self.model@;
        let found = self.find(&host_s);
        let mut urls: Vec<String> = match found {
            Some(i) => self.entries.remove(i).urls,
            None => Vec::new(),
        };
        assert(views(urls@) =~= known);
        let mut fresh: Vec<String> = Vec::new();
        let mut i: usize = 0;
        while i < candidates.len()
            invariant
                i <= candidates.len(),
                cands == views(candidates@),
                known.no_duplicates(),
                views(fresh@) == fresh_from(known, cands.take(i as int)),
                views(urls@) == known + views(fresh@),
            decreases candidates.len() - i,
        {
            let c = candidates[i].clone();
            assert(cands.take(i + 1).drop_last() =~= cands.take(i as int));
            if push_new(&mut urls, c.clone()) {
                fresh.push(c);
            }
            assert(views(fresh@) =~= fresh_from(known, cands.take(i + 1)));
            assert(views(urls@) =~= known + views(fresh@));
            i += 1;
        }
        assert(cands.take(candidates.len() as int) =~= cands);
        proof {
            lemma_fresh_from(known, cands);
        }
        let ghost new_urls = views(urls@);
        self.entries.push(HostUrls { host: host_s, urls });
        self.model = Ghost(after_insert(self.model@, host@, cands));
        let ghost n = self.entries.len() as int;
        assert forall|h: Seq<char>| #[trigger] self.model@.contains_key(h) implies exists|k: int|
            0 <= k < self.entries.len() && self.entries[k].host@ == h by {
            if h == host@ {
                assert(self.entries[n - 1].host@ == h);
            } else {
                let j = choose|j: int| 0 <= j < pre.len() && pre[j].host@ == h;
                match found {
                    Some(i) => {
                        if j < i {
                            assert(self.entries[j].host@ == h);
                        } else {
                            assert(self.entries[j - 1].host@ == h);
                        }
                    },
                    None => {
                        assert(self.entries[j].host@ == h);
                    },
                }
            }
        }
        assert(forall|a: int, b: int|
            0 <= a < b < self.entries.len() ==> self.entries[a].host@ != self.entries[b].host@);
        assert forall|a: int| 0 <= a < self.entries.len() implies #[trigger] self.model@.contains_key(
            self.entries[a].host@,
        ) && self.model@[self.entries[a].host@] == views(self.entries[a].urls@) by {
            if a < n - 1 {
                match found {
                    Some(i) => {
                        let j = if a < i {
                            a
                        } else {
                            a + 1
                        };
                        assert(self.entries[a] == pre[j]);
                        assert(pre[j].host@ != pre[i as int].host@);
                        assert(m0.contains_key(pre[j].host@));
                    },
                    None => {
                        assert(self.entries[a] == pre[a]);
                        assert(m0.contains_key(pre[a].host@));
                    },
                }
            } else {
                assert(self.entries[a].host@ == host@);
                assert(views(self.entries[a].urls@) == new_urls);
            }
        }
        assert(forall|h: Seq<char>| #[trigger]
            self.model@.contains_key(h) ==> self.model@[h].no_duplicates());
        fresh
    }
}

} // verus!
