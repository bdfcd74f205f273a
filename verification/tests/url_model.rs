//! URL model behavior: parsing through the engine constructor,
//! normalization, classification, depth and HTML sniffing.

use linkcheck::engine::ConfigError;
use linkcheck::engine::Crawler;
use linkcheck::html::looks_like_html;
use linkcheck::site_url::SiteUrl;
use linkcheck::visited::Visited;

fn url(s: &str) -> SiteUrl {
    let c = Crawler::new(s.as_bytes(), s.as_bytes(), false).expect("absolute URL");
    c.base
}

#[test]
fn parse_fills_the_parts() {
    let u = url("https://Ex.COM/A/b?q=1#frag");
    assert_eq!(u.scheme, b"https".to_vec());
    assert_eq!(u.host, Some(b"ex.com".to_vec()));
    assert_eq!(u.port, None);
    assert_eq!(u.path, b"/A/b".to_vec());
    assert_eq!(u.query, Some(b"q=1".to_vec()));
    assert_eq!(u.fragment, Some(b"frag".to_vec()));
    assert_eq!(u.serial, b"https://ex.com/A/b?q=1#frag".to_vec());
}

#[test]
fn parse_drops_default_port() {
    let u = url("https://ex.com:443/x");
    assert_eq!(u.port, None);
    let v = url("https://ex.com:8443/x");
    assert_eq!(v.port, Some(8443));
}

#[test]
fn normalization_equivalence() {
    let a = url("https://a.com/x/");
    let b = url("https://a.com/x");
    let c = url("https://a.com/x?q=1#f");
    assert!(a.normalize().key_eq(&b.normalize()));
    assert!(b.normalize().key_eq(&c.normalize()));
    assert!(a.normalize().key_eq(&c.normalize()));
}

#[test]
fn normalization_keeps_root_slash() {
    let a = url("https://a.com/");
    let b = url("https://a.com");
    assert!(a.normalize().key_eq(&b.normalize()));
    assert_eq!(a.normalize().path, b"/".to_vec());
}

#[test]
fn normalization_distinguishes_paths() {
    let a = url("https://a.com/x");
    let b = url("https://a.com/y");
    assert!(!a.normalize().key_eq(&b.normalize()));
}

#[test]
fn classification_same_origin_prefixed_is_internal() {
    let base = url("https://ex.com/docs");
    assert!(url("https://ex.com/docs/guide").is_internal(&base));
    assert!(url("https://ex.com/docs").is_internal(&base));
    // Textual prefix matching: a sibling path sharing the prefix counts.
    assert!(url("https://ex.com/docs-archive").is_internal(&base));
}

#[test]
fn classification_other_origin_is_external() {
    let base = url("https://ex.com/docs");
    assert!(!url("https://other.com/docs/guide").is_internal(&base));
    assert!(!url("http://ex.com/docs/guide").is_internal(&base));
    assert!(!url("https://ex.com:8443/docs/guide").is_internal(&base));
    assert!(!url("https://ex.com/blog").is_internal(&base));
}

#[test]
fn visited_guard_dedups() {
    let mut visited = Visited::new();
    let first = url("https://a.com/x/");
    let second = url("https://a.com/x?q=1#f");
    assert!(!visited.mark_visited(&first));
    assert!(visited.mark_visited(&first));
    assert!(visited.mark_visited(&second));
    assert_eq!(visited.len(), 1);
}

#[test]
fn segment_counting() {
    assert_eq!(url("https://a.com/").path_segment_count(), 0);
    assert_eq!(url("https://a.com/x/y/z").path_segment_count(), 3);
    assert_eq!(url("https://a.com/x//y/").path_segment_count(), 2);
}

#[test]
fn html_sniffing_by_extension() {
    let png = url("https://a.com/logo.PNG");
    assert!(!looks_like_html(&png.path, &None));
    let css = url("https://a.com/site.css");
    assert!(!looks_like_html(&css.path, &None));
    let page = url("https://a.com/guide");
    assert!(looks_like_html(&page.path, &None));
}

#[test]
fn html_sniffing_by_content_type() {
    let page = url("https://a.com/guide");
    assert!(looks_like_html(&page.path, &Some(b"text/html; charset=utf-8".to_vec())));
    assert!(!looks_like_html(&page.path, &Some(b"application/json".to_vec())));
}

#[test]
fn config_error_bad_base() {
    let r = Crawler::new(b"not a url", b"https://ex.com", false);
    assert_eq!(r.err(), Some(ConfigError::BadBaseUrl));
}

#[test]
fn config_error_bad_start() {
    let r = Crawler::new(b"https://ex.com", b"relative/path", false);
    assert_eq!(r.err(), Some(ConfigError::BadStartUrl));
}

#[test]
fn config_error_origin_mismatch() {
    let r = Crawler::new(b"https://ex.com", b"https://other.com", false);
    assert_eq!(r.err(), Some(ConfigError::OriginMismatch));
}
