//! The calls into the `url` and `scraper` crates that the crawler relies on.
//! Their results are named, not restated: URL parsing and HTML parsing are
//! functions of their inputs alone.

use vstd::prelude::*;

verus! {

/// What parsing `s` as an absolute URL yields: its serialization and its host,
/// or nothing when `s` is not an absolute URL.
pub uninterp spec fn url_parse(s: Seq<char>) -> Option<(Seq<char>, Option<Seq<char>>)>;

/// The serialization of the URL `base` once its path is replaced by `path`.
pub uninterp spec fn url_with_path(base: Seq<char>, path: Seq<char>) -> Option<Seq<char>>;

/// The `href` attribute of each anchor element of an HTML document, in the
/// order in which the parsed tree holds them (`None` for an anchor that has
/// none).
pub uninterp spec fn anchor_hrefs(body: Seq<char>) -> Seq<Option<Seq<char>>>;

pub open spec fn opt_view(o: Option<String>) -> Option<Seq<char>> {
    match o {
        Some(s) => Some(s@),
        None => None,
    }
}

/// A URL that parsed: its serialization and its host, if it has one.
pub struct ParsedUrl {
    pub text: String,
    pub host: Option<String>,
}

impl ParsedUrl {
    pub open spec fn parts(&self) -> (Seq<char>, Option<Seq<char>>) {
        (self.text@, opt_view(self.host))
    }
}

/// Relies on `url::Url::parse`, read through `Url::as_str` and `Url::host_str`.
#[verifier::external_body]
pub(crate) fn parse_url(s: &str) -> (r: Option<ParsedUrl>)
    ensures
        match r {
            Some(u) => url_parse(s@) == Some(u.parts()),
            None => url_parse(s@) is None,
        },
{
    match url::Url::parse(s) {
        Ok(u) => Some(ParsedUrl {
            text: u.as_str().to_string(),
            host: u.host_str().map(|h| h.to_string()),
        }),
        Err(_) => None,
    }
}

/// Relies on `url::Url::set_path`, applied to `base` as `url::Url::parse` reads
/// it: scheme, host, port, query and fragment stay, the path is replaced.
/// Nothing comes back when `base` does not parse.
#[verifier::external_body]
pub(crate) fn replace_path(base: &str, path: &str) -> (r: Option<String>)
    ensures
        opt_view(r) == url_with_path(base@, path@),
        r is None <==> url_parse(base@) is None,
{
    match url::Url::parse(base) {
        Ok(mut u) => {
            u.set_path(path);
            Some(u.as_str().to_string())
        },
        Err(_) => None,
    }
}

/// Relies on `scraper::Html::parse_document`, `scraper::Selector::parse("a")`,
/// `Html::select` and `Element::attr("href")`: the `href` of every anchor of the
/// document. The plain element selector `a` always parses, so a list always
/// comes back.
#[verifier::external_body]
pub(crate) fn hrefs_of(body: &str) -> (r: Option<Vec<Option<String>>>)
    ensures
        r is Some,
        r matches Some(v) ==> v@.map_values(|h: Option<String>| opt_view(h)) == anchor_hrefs(
            body@,
        ),
{
    let dom = scraper::Html::parse_document(body);
    let selector = scraper::Selector::parse("a").ok()?;
    Some(dom.select(&selector).map(|node| node.value().attr("href").map(|h| h.to_string())).collect())
}

} // verus!
