use webspider::crawler::{Crawler, DELAY_MAX_MS, DELAY_MIN_MS};
use webspider::extract::SelectorSpec;

fn sel(name: &str, pattern: &str) -> SelectorSpec {
    SelectorSpec::new(name.to_string(), pattern.to_string()).unwrap()
}

fn default_selectors() -> Vec<SelectorSpec> {
    vec![
        sel("li.product", "li.product"),
        sel("h2", "h2"),
        sel("img", "img"),
        sel(".price", ".price"),
        sel("a", "a"),
    ]
}

const PRODUCTS_PAGE: &str = "<html><body><ul>\
    <li class=\"product\"><a href=\"/item/1\"><img src=\"/img/1.png\">\
    <h2>Name 1</h2><span class=\"price\">$1.00</span></a></li>\
    <li class=\"product\"><a href=\"/item/2\"><img src=\"/img/2.png\">\
    <h2>Name 2</h2><span class=\"price\">$2.00</span></a></li>\
    <li class=\"product\"><a href=\"/item/3\"><img src=\"/img/3.png\">\
    <h2>Name 3</h2><span class=\"price\">$3.00</span></a></li>\
    </ul></body></html>";

#[test]
fn zero_budget_visits_nothing() {
    let mut c = Crawler::new(
        "http://seed.example/".to_string(),
        default_selectors(),
        true,
        0,
        false,
    );
    assert_eq!(c.next_url(), None);
    assert_eq!(c.visited(), 0);
    assert_eq!(c.frontier().len(), 1);
}

#[test]
fn empty_frontier_ends_the_run() {
    let mut c = Crawler::new(
        "http://seed.example/".to_string(),
        default_selectors(),
        true,
        3,
        false,
    );
    assert_eq!(
        c.next_url(),
        Some("http://seed.example/".to_string())
    );
    assert_eq!(c.next_url(), None);
    assert_eq!(c.visited(), 1);
}

#[test]
fn failed_fetch_consumes_budget_and_run_ends_cleanly() {
    // The seed fetch fails: the entry was popped and consumed, no page was
    // processed, and the next pop reports the run as over.
    let mut c = Crawler::new(
        "http://refused.example/".to_string(),
        default_selectors(),
        true,
        3,
        false,
    );
    let first = c.next_url();
    assert_eq!(first, Some("http://refused.example/".to_string()));
    // Fetch fails here; the loop simply continues.
    assert_eq!(c.next_url(), None);
    assert_eq!(c.visited(), 1);
    assert!(c.frontier().is_empty());
}

#[test]
fn no_follow_visits_at_most_one_page() {
    let mut c = Crawler::new(
        "http://seed.example/".to_string(),
        default_selectors(),
        false,
        5,
        false,
    );
    let url = c.next_url();
    assert!(url.is_some());
    let recs = c.process_page(PRODUCTS_PAGE);
    assert!(!recs.is_empty());
    assert!(c.frontier().is_empty());
    assert_eq!(c.next_url(), None);
    assert_eq!(c.visited(), 1);
}

#[test]
fn visits_never_exceed_budget() {
    let mut c = Crawler::new(
        "http://seed.example/".to_string(),
        default_selectors(),
        true,
        2,
        false,
    );
    let mut fetched: u32 = 0;
    while let Some(_url) = c.next_url() {
        fetched += 1;
        c.process_page(PRODUCTS_PAGE);
        assert!(c.frontier().len() <= 2);
    }
    assert!(fetched <= 2);
    assert_eq!(fetched, 2);
    assert_eq!(c.visited(), 2);
}

#[test]
fn frontier_pops_most_recent_link_first() {
    let mut c = Crawler::new(
        "http://seed.example/".to_string(),
        vec![sel("a", "a")],
        true,
        3,
        false,
    );
    assert_eq!(
        c.next_url(),
        Some("http://seed.example/".to_string())
    );
    let html = "<html><body>\
        <a href=\"/first\">one</a><a href=\"/second\">two</a>\
        </body></html>";
    c.process_page(html);
    assert_eq!(c.frontier(), &vec!["/first".to_string(), "/second".to_string()]);
    assert_eq!(c.next_url(), Some("/second".to_string()));
    assert_eq!(c.next_url(), Some("/first".to_string()));
    assert_eq!(c.next_url(), None);
}

#[test]
fn products_scenario_with_budget_one() {
    let mut c = Crawler::new(
        "http://shop.example/".to_string(),
        default_selectors(),
        true,
        1,
        false,
    );
    let url = c.next_url();
    assert_eq!(url, Some("http://shop.example/".to_string()));
    let recs = c.process_page(PRODUCTS_PAGE);

    let products: Vec<_> = recs.iter().filter(|r| r.name == "li.product").collect();
    assert_eq!(products.len(), 3);
    for (i, p) in products.iter().enumerate() {
        let n = i + 1;
        assert_eq!(p.text, format!("Name {} ${}.00", n, n));
        assert_eq!(p.href, format!("/item/{}", n));
        assert_eq!(p.src, format!("/img/{}.png", n));
    }

    let heads: Vec<_> = recs.iter().filter(|r| r.name == "h2").collect();
    assert_eq!(heads.len(), 3);
    for (i, h) in heads.iter().enumerate() {
        assert_eq!(h.text, format!("Name {}", i + 1));
        assert_eq!(h.href, "N/A");
        assert_eq!(h.src, "N/A");
    }

    let imgs: Vec<_> = recs.iter().filter(|r| r.name == "img").collect();
    assert_eq!(imgs.len(), 3);
    for (i, m) in imgs.iter().enumerate() {
        assert_eq!(m.src, format!("/img/{}.png", i + 1));
        assert_eq!(m.text, "");
        assert_eq!(m.href, "N/A");
    }

    let prices: Vec<_> = recs.iter().filter(|r| r.name == ".price").collect();
    assert_eq!(prices.len(), 3);
    for (i, p) in prices.iter().enumerate() {
        assert_eq!(p.text, format!("${}.00", i + 1));
    }

    let anchors: Vec<_> = recs.iter().filter(|r| r.name == "a").collect();
    assert_eq!(anchors.len(), 3);
    for (i, a) in anchors.iter().enumerate() {
        let n = i + 1;
        assert_eq!(a.href, format!("/item/{}", n));
        assert_eq!(a.src, format!("/img/{}.png", n));
    }

    // Budget is one, so the frontier keeps at most one unvisited href and
    // nothing more is ever fetched.
    assert!(c.frontier().len() <= 3);
    assert_eq!(c.frontier(), &vec!["/item/1".to_string()]);
    assert_eq!(c.next_url(), None);
    assert_eq!(c.visited(), 1);
}

#[test]
fn delay_is_only_offered_when_randomization_is_on() {
    let quiet = Crawler::new(
        "http://seed.example/".to_string(),
        default_selectors(),
        false,
        1,
        false,
    );
    assert_eq!(quiet.next_delay(), None);

    let jittery = Crawler::new(
        "http://seed.example/".to_string(),
        default_selectors(),
        false,
        1,
        true,
    );
    for _ in 0..50 {
        let d = jittery.next_delay().unwrap();
        assert!(DELAY_MIN_MS <= d && d < DELAY_MAX_MS);
    }
}
