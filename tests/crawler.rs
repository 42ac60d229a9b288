use site_crawler::api::{accept_request, count, list, start_traversal, UrlCount, UrlToCrawl};
use site_crawler::links::{extract_links, links_from_hrefs, resolve_link};
use site_crawler::store::UrlStore;
use site_crawler::traversal::{Traversal, MAX_PAGES_PER_REQUEST};

fn strings(v: &[&str]) -> Vec<String> {
    v.iter().map(|s| s.to_string()).collect()
}

fn sorted(mut v: Vec<String>) -> Vec<String> {
    v.sort();
    v
}

#[test]
fn unseen_host_lists_nothing_and_counts_zero() {
    let mut store = UrlStore::new();
    assert_eq!(list(&store, "example.com".to_string()), Vec::<String>::new());
    assert_eq!(count(&store, "example.com".to_string()).count, 0);
    store.insert_unique("a.org", strings(&["http://a.org/"]));
    assert!(store.list("example.com").is_empty());
    assert_eq!(store.count("example.com"), 0);
}

#[test]
fn inserting_same_url_twice_reports_it_once() {
    let mut store = UrlStore::new();
    let first = store.insert_unique("h.com", strings(&["http://h.com/x"]));
    assert_eq!(first, strings(&["http://h.com/x"]));
    assert_eq!(store.count("h.com"), 1);
    let second = store.insert_unique("h.com", strings(&["http://h.com/x"]));
    assert!(second.is_empty());
    assert_eq!(store.count("h.com"), 1);
}

#[test]
fn insert_reports_only_new_candidates_in_order() {
    let mut store = UrlStore::new();
    store.insert_unique("h.com", strings(&["http://h.com/a", "http://h.com/b"]));
    let fresh = store.insert_unique(
        "h.com",
        strings(&["http://h.com/c", "http://h.com/a", "http://h.com/c", "http://h.com/d"]),
    );
    assert_eq!(fresh, strings(&["http://h.com/c", "http://h.com/d"]));
    assert_eq!(
        store.list("h.com"),
        strings(&["http://h.com/a", "http://h.com/b", "http://h.com/c", "http://h.com/d"])
    );
}

#[test]
fn insert_for_one_host_leaves_others_alone() {
    let mut store = UrlStore::new();
    store.insert_unique("a.com", strings(&["http://a.com/1"]));
    store.insert_unique("b.com", strings(&["http://b.com/1", "http://b.com/2"]));
    assert_eq!(store.list("a.com"), strings(&["http://a.com/1"]));
    assert_eq!(store.count("b.com"), 2);
}

#[test]
fn traversal_fetches_at_most_sixteen_pages() {
    let mut store = UrlStore::new();
    let mut t = start_traversal("http://chain.test/p0").expect("seed is a URL with a host");
    let mut fetched: u32 = 0;
    while let Some(url) = t.next_url() {
        fetched += 1;
        let body = format!("<a href=\"/p{}\">next</a><a href=\"/q{}\">side</a>", fetched, fetched);
        t.visit_page(&mut store, &url, Some(body));
    }
    assert_eq!(fetched, MAX_PAGES_PER_REQUEST);
    assert_eq!(fetched, 16);
    assert!(store.count("chain.test") > 16);
}

#[test]
fn traversal_stops_when_frontier_is_empty() {
    let mut store = UrlStore::new();
    let mut t = Traversal::new("http://one.test/".to_string(), "one.test".to_string());
    let mut fetched = 0;
    while let Some(url) = t.next_url() {
        fetched += 1;
        t.visit_page(&mut store, &url, Some("<p>no links</p>".to_string()));
    }
    // The seed is only recorded once its own page was read, so it is new then
    // and goes back on the frontier once.
    assert_eq!(fetched, 2);
    assert_eq!(store.list("one.test"), strings(&["http://one.test/"]));
}

#[test]
fn traversal_visits_most_recent_discovery_first() {
    let mut store = UrlStore::new();
    let mut t = Traversal::new("http://d.test/".to_string(), "d.test".to_string());
    let seed = t.next_url().unwrap();
    t.record(&mut store, Some(strings(&["http://d.test/", "http://d.test/a", "http://d.test/b"])));
    assert_eq!(seed, "http://d.test/");
    assert_eq!(t.next_url().unwrap(), "http://d.test/b");
    assert_eq!(t.next_url().unwrap(), "http://d.test/a");
    assert_eq!(t.next_url().unwrap(), "http://d.test/");
    assert!(t.next_url().is_none());
}

#[test]
fn failed_fetch_changes_nothing() {
    let mut store = UrlStore::new();
    let mut t = Traversal::new("http://down.test/".to_string(), "down.test".to_string());
    let url = t.next_url().unwrap();
    t.visit_page(&mut store, &url, None);
    assert_eq!(store.count("down.test"), 0);
    assert!(t.next_url().is_none());
}

#[test]
fn foreign_links_are_not_recorded() {
    let mut store = UrlStore::new();
    let mut t = start_traversal("http://example.com/").unwrap();
    let url = t.next_url().unwrap();
    let body = "<a href=\"http://other.com/x\">x</a><a href=\"https://sub.example.com/y\">y</a>";
    t.visit_page(&mut store, &url, Some(body.to_string()));
    assert_eq!(store.list("example.com"), strings(&["http://example.com/"]));
    assert_eq!(store.count("other.com"), 0);
    assert_eq!(store.count("sub.example.com"), 0);
    assert_eq!(resolve_link("example.com", "http://example.com/", "http://other.com/x"), None);
}

#[test]
fn relative_href_replaces_only_the_path() {
    assert_eq!(
        resolve_link("example.com", "http://example.com/a/b", "c"),
        Some("http://example.com/c".to_string())
    );
    assert_eq!(
        resolve_link("example.com", "http://example.com/a/b", "/about"),
        Some("http://example.com/about".to_string())
    );
}

#[test]
fn relative_href_keeps_scheme_port_and_query_of_source() {
    assert_eq!(
        resolve_link("example.com", "https://example.com:8080/a?q=1", "x/y"),
        Some("https://example.com:8080/x/y?q=1".to_string())
    );
}

#[test]
fn absolute_same_host_href_is_kept_as_parsed() {
    assert_eq!(
        resolve_link("example.com", "http://example.com/", "HTTP://example.com/Page"),
        Some("http://example.com/Page".to_string())
    );
}

#[test]
fn end_to_end_scenario() {
    let mut store = UrlStore::new();
    let mut t = start_traversal("http://example.com").unwrap();
    while let Some(url) = t.next_url() {
        let body = if url == "http://example.com/" {
            Some(
                "<html><body><a href=\"http://example.com/page1\">1</a>\
                 <a href=\"http://example.com/page1\">again</a>\
                 <a href=\"http://other.com/x\">x</a></body></html>"
                    .to_string(),
            )
        } else {
            Some("<html></html>".to_string())
        };
        t.visit_page(&mut store, &url, body);
    }
    assert_eq!(
        sorted(list(&store, "example.com".to_string())),
        strings(&["http://example.com/", "http://example.com/page1"])
    );
    assert_eq!(count(&store, "example.com".to_string()).count, 2);
    assert_eq!(count(&store, "other.com".to_string()).count, 0);
}

#[test]
fn count_never_decreases_during_a_crawl() {
    let mut store = UrlStore::new();
    let mut t = start_traversal("http://grow.test/").unwrap();
    let mut last = store.count("grow.test");
    let mut n = 0;
    while let Some(url) = t.next_url() {
        n += 1;
        let body = format!("<a href=\"/{}\">a</a><a href=\"/\">home</a>", n % 5);
        t.visit_page(&mut store, &url, Some(body));
        let now = store.count("grow.test");
        assert!(now >= last);
        last = now;
    }
    assert_eq!(store.count("grow.test"), 6);
}

#[test]
fn extract_links_includes_source_and_skips_anchors_without_href() {
    let body = "<a name=\"top\">t</a><a href=\"page.html\">p</a><a href=\"http://s.test/q\">q</a>";
    let found = extract_links("s.test", "http://s.test/dir/", body).unwrap();
    assert_eq!(
        sorted(found),
        strings(&["http://s.test/dir/", "http://s.test/page.html", "http://s.test/q"])
    );
}

#[test]
fn extract_links_from_unparsable_source_gives_nothing() {
    assert_eq!(extract_links("s.test", "not a url", "<a href=\"/x\">x</a>"), None);
}

#[test]
fn links_from_hrefs_removes_duplicates() {
    let hrefs = vec![Some("/a".to_string()), None, Some("/a".to_string()), Some("mailto:x@s.test".to_string())];
    let found = links_from_hrefs("s.test", "http://s.test/", &hrefs).unwrap();
    assert_eq!(found, strings(&["http://s.test/", "http://s.test/a"]));
}

#[test]
fn accept_request_needs_a_url_with_a_host() {
    assert_eq!(
        accept_request("http://example.com/a"),
        Some(("http://example.com/a".to_string(), "example.com".to_string()))
    );
    assert_eq!(accept_request("not a url"), None);
    assert_eq!(accept_request("mailto:someone@example.com"), None);
    assert!(start_traversal("/relative/only").is_none());
}

#[test]
fn api_types_carry_their_values() {
    let c = UrlCount { count: 3 };
    let r = UrlToCrawl { url: "http://x.test/".to_string() };
    assert_eq!(c.count, 3);
    assert_eq!(r.url, "http://x.test/");
}
