use webspider::extract::{extract, SelectorSpec};
use webspider::text::normalize_whitespace;
use webspider::CrawlError;

fn make_sel(name: &str, pattern: &str) -> SelectorSpec {
    SelectorSpec::new(name.to_string(), pattern.to_string()).unwrap()
}

#[test]
fn whitespace_is_collapsed_and_trimmed() {
    assert_eq!(normalize_whitespace("  a\n\tb  c "), "a b c");
}

#[test]
fn whitespace_edge_cases() {
    assert_eq!(normalize_whitespace(""), "");
    assert_eq!(normalize_whitespace(" \t\n"), "");
    assert_eq!(normalize_whitespace("abc"), "abc");
    assert_eq!(normalize_whitespace("a\u{a0}b"), "a b");
}

#[test]
fn invalid_selector_is_a_configuration_error() {
    let r = SelectorSpec::new("bad".to_string(), "".to_string());
    assert_eq!(r.unwrap_err(), CrawlError::ConfigurationError);
    let r2 = SelectorSpec::new("bad".to_string(), ":::".to_string());
    assert_eq!(r2.unwrap_err(), CrawlError::ConfigurationError);
}

#[test]
fn valid_selector_keeps_name_and_pattern() {
    let s = make_sel("prod", "li.product");
    assert_eq!(s.name(), "prod");
    assert_eq!(s.pattern(), "li.product");
}

#[test]
fn configuration_error_is_fatal_fetch_and_decode_are_not() {
    assert!(CrawlError::ConfigurationError.is_fatal());
    assert!(!CrawlError::FetchError.is_fatal());
    assert!(!CrawlError::DecodeError.is_fatal());
}

#[test]
fn element_without_href_or_src_yields_sentinels() {
    let html = "<html><body><p>hello</p></body></html>";
    let recs = extract(html, &vec![make_sel("para", "p")]);
    assert_eq!(recs.len(), 1);
    assert_eq!(recs[0].name, "para");
    assert_eq!(recs[0].text, "hello");
    assert_eq!(recs[0].href, "N/A");
    assert_eq!(recs[0].src, "N/A");
}

#[test]
fn extract_is_idempotent() {
    let html = "<html><body><ul>\
        <li class=\"item\"><a href=\"/a\">first</a></li>\
        <li class=\"item\"><a href=\"/b\">second</a></li>\
        </ul></body></html>";
    let specs = vec![make_sel("item", "li.item"), make_sel("link", "a")];
    let once = extract(html, &specs);
    let twice = extract(html, &specs);
    assert_eq!(once, twice);
}

#[test]
fn matched_text_is_whitespace_normalized() {
    let html = "<html><body><p>  a\n\tb  c </p></body></html>";
    let recs = extract(html, &vec![make_sel("para", "p")]);
    assert_eq!(recs.len(), 1);
    assert_eq!(recs[0].text, "a b c");
}

#[test]
fn attributes_come_from_element_or_first_descendant() {
    let html = "<html><body>\
        <div class=\"card\"><a href=\"/go\"><img src=\"/pic.png\">label</a></div>\
        </body></html>";
    let recs = extract(html, &vec![make_sel("card", "div.card")]);
    assert_eq!(recs.len(), 1);
    assert_eq!(recs[0].href, "/go");
    assert_eq!(recs[0].src, "/pic.png");
}

#[test]
fn no_match_is_a_silent_outcome() {
    let html = "<html><body><p>text</p></body></html>";
    let recs = extract(html, &vec![make_sel("missing", "li.product")]);
    assert_eq!(recs.len(), 0);
}

#[test]
fn empty_selector_set_extracts_nothing() {
    let html = "<html><body><p>text</p></body></html>";
    let recs = extract(html, &Vec::new());
    assert_eq!(recs.len(), 0);
}

#[test]
fn records_follow_selector_then_document_order() {
    let html = "<html><body>\
        <h2>one</h2><p>alpha</p><h2>two</h2><p>beta</p>\
        </body></html>";
    let recs = extract(html, &vec![make_sel("head", "h2"), make_sel("para", "p")]);
    let got: Vec<(String, String)> = recs
        .iter()
        .map(|r| (r.name.clone(), r.text.clone()))
        .collect();
    assert_eq!(
        got,
        vec![
            ("head".to_string(), "one".to_string()),
            ("head".to_string(), "two".to_string()),
            ("para".to_string(), "alpha".to_string()),
            ("para".to_string(), "beta".to_string()),
        ]
    );
}
