//! Link extraction: the same-host URLs that a fetched page points to.

use vstd::prelude::*;
use crate::strings::{views, push_new};
use crate::weburl::{
    anchor_hrefs, hrefs_of, opt_view, parse_url, replace_path, url_parse, url_with_path,
};

verus! {

/// What an anchor's `href` on the page at `source` contributes for `host`: an
/// absolute URL is kept as parsed when its host is exactly `host` and dropped
/// otherwise; anything that does not parse as an absolute URL replaces the
/// path of `source` (so `../`, a query or a fragment in it is not resolved).
pub open spec fn resolve_href(host: Seq<char>, source: Seq<char>, href: Seq<char>) -> Option<
    Seq<char>,
> {
    match url_parse(href) {
        Some((text, h)) => if h == Some(host) {
            Some(text)
        } else {
            None
        },
        None => url_with_path(source, href),
    }
}

/// Whether `u` is learned from the page at `source` whose anchors carry `hrefs`:
/// the page itself, or what one of its anchors contributes.
pub open spec fn learned(
    host: Seq<char>,
    source: Seq<char>,
    hrefs: Seq<Option<Seq<char>>>,
    u: Seq<char>,
) -> bool {
    u == source || exists|i: int| 0 <= i < hrefs.len() && #[trigger] contributes(host, source, hrefs[i], u)
}

/// Whether the anchor whose `href` is `href` contributes `u`.
pub open spec fn contributes(
    host: Seq<char>,
    source: Seq<char>,
    href: Option<Seq<char>>,
    u: Seq<char>,
) -> bool {
    match href {
        Some(h) => resolve_href(host, source, h) == Some(u),
        None => false,
    }
}

/// An absolute link whose host is not exactly `host` contributes nothing,
/// whatever page it stands on.
pub proof fn lemma_foreign_link_ignored(
    host: Seq<char>,
    source: Seq<char>,
    href: Seq<char>,
    u: Seq<char>,
)
    requires
        url_parse(href) matches Some((_, h)) && h != Some(host),
    ensures
        !contributes(host, source, Some(href), u),
        resolve_href(host, source, href) is None,
{
}

pub open spec fn href_views(hrefs: Seq<Option<String>>) -> Seq<Option<Seq<char>>> {
    hrefs.map_values(|h: Option<String>| opt_view(h))
}

/// What one `href` on the page at `source` contributes for `host`.
pub fn resolve_link(host: &str, source: &str, href: &str) -> (r: Option<String>)
    ensures
        opt_view(r) == resolve_href(host@, source@, href@),
{
    match parse_url(href) {
        Some(u) => {
            let host_owned = host.to_owned();
            match u.host {
                Some(h) => {
                    if h == host_owned {
                        Some(u.text)
                    } else {
                        None
                    }
                },
                None => None,
            }
        },
        None => replace_path(source, href),
    }
}

/// The URLs learned from the page at `source` for `host`, given the `href` of
/// each of its anchors: each once. Nothing when `source` is not a URL.
pub fn links_from_hrefs(host: &str, source: &str, hrefs: &Vec<Option<String>>) -> (r: Option<
    Vec<String>,
>)
    ensures
        r is Some <==> url_parse(source@) is Some,
        r matches Some(v) ==> views(v@).no_duplicates() && forall|u: Seq<char>|
            views(v@).contains(u) <==> learned(host@, source@, href_views(hrefs@), u),
{
    if parse_url(source).is_none() {
        return None;
    }
    let ghost hv = href_views(hrefs@);
    let mut out: Vec<String> = Vec::new();
    push_new(&mut out, source.to_owned());
    assert(views(out@) =~= seq![source@]);
    assert forall|u: Seq<char>| views(out@).contains(u) <==> u == source@ by {
        if u == source@ {
            assert(views(out@)[0] == u);
        }
    }
    let mut i: usize = 0;
    while i < hrefs.len()
        invariant
            i <= hrefs.len(),
            hv == href_views(hrefs@),
            views(out@).no_duplicates(),
            forall|u: Seq<char>|
                views(out@).contains(u) <==> (u == source@ || exists|j: int|
                    0 <= j < i && #[trigger] contributes(host@, source@, hv[j], u)),
        decreases hrefs.len() - i,
    {
        let ghost before = views(out@);
        let contributed = match &hrefs[i] {
            Some(href) => resolve_link(host, source, href.as_str()),
            None => None,
        };
        assert(hv[i as int] == opt_view(hrefs@[i as int]));
        assert(forall|u: Seq<char>|
            contributes(host@, source@, hv[i as int], u) <==> opt_view(contributed) == Some(u));
        match contributed {
            Some(link) => {
                push_new(&mut out, link);
            },
            None => {},
        }
        assert forall|u: Seq<char>|
            views(out@).contains(u) <==> (u == source@ || exists|j: int|
                0 <= j < i + 1 && #[trigger] contributes(host@, source@, hv[j], u)) by {
            if views(out@).contains(u) && !before.contains(u) {
                let k = choose|k: int| 0 <= k < views(out@).len() && views(out@)[k] == u;
                if k < before.len() {
                    assert(before[k] == u);
                }
                assert(contributes(host@, source@, hv[i as int], u));
            }
            if before.contains(u) {
                let k = choose|k: int| 0 <= k < before.len() && before[k] == u;
                assert(views(out@)[k] == u);
            }
            if contributes(host@, source@, hv[i as int], u) && !before.contains(u) {
                assert(views(out@)[before.len() as int] == u);
            }
            if exists|j: int| 0 <= j < i + 1 && #[trigger] contributes(host@, source@, hv[j], u) {
                let j = choose|j: int|
                    0 <= j < i + 1 && #[trigger] contributes(host@, source@, hv[j], u);
                if j < i {
                    assert(before.contains(u));
                }
            }
        }
        i += 1;
    }
    Some(out)
}

/// The URLs learned for `host` from the page at `source` whose body is `body`,
/// each once; always `source` itself. Nothing exactly when `source` is not a URL.
pub fn extract_links(host: &str, source: &str, body: &str) -> (r: Option<Vec<String>>)
    ensures
        r is Some <==> url_parse(source@) is Some,
        r matches Some(v) ==> views(v@).no_duplicates() && forall|u: Seq<char>|
            views(v@).contains(u) <==> learned(host@, source@, anchor_hrefs(body@), u),
{
    match hrefs_of(body) {
        Some(hrefs) => links_from_hrefs(host, source, &hrefs),
        None => None,
    }
}

} // verus!
