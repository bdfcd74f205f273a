//! Whole-crawl scenarios driven against the engine, with simulated
//! network outcomes.

use linkcheck::engine::Crawler;
use linkcheck::engine::Directive;
use linkcheck::engine::FetchOutcome;

fn ok_html() -> FetchOutcome {
    FetchOutcome::Response(200, Some(b"text/html".to_vec()))
}

/// Drive one crawl to completion. Internal fetches succeed and serve the
/// HTML document that `pages` maps the URL's serialization to (an empty
/// page when unmapped); external checks return `external_status`.
fn run_crawl(crawler: &mut Crawler, pages: &[(&str, &str)], external_status: u16) -> usize {
    let mut waves: usize = 0;
    loop {
        let batch = crawler.drain_wave();
        if batch.is_empty() {
            return waves;
        }
        waves += 1;
        assert!(waves <= 1000, "crawl did not terminate");
        for entry in &batch {
            match crawler.classify(&entry.url) {
                Directive::FetchInternal => {
                    let parse_body = crawler.on_internal_response(&entry.url, &ok_html());
                    if parse_body {
                        let serial = String::from_utf8(entry.url.serial.clone()).unwrap();
                        let document = pages
                            .iter()
                            .find(|(u, _)| *u == serial)
                            .map(|(_, d)| *d)
                            .unwrap_or("");
                        let links = crawler.extract_links(&entry.url, document);
                        crawler.enqueue(links);
                    }
                }
                Directive::CheckExternal => {
                    crawler.on_external_response(&FetchOutcome::Response(external_status, None));
                }
                _ => {}
            }
        }
    }
}

#[test]
fn scenario_empty_start_page_passes() {
    let mut c = Crawler::new(b"https://ex.com", b"https://ex.com", false).unwrap();
    run_crawl(&mut c, &[("https://ex.com/", "<html><body>nothing</body></html>")], 200);
    let (total, successful, failed) = c.summary();
    assert_eq!((total, successful, failed), (1, 1, 0));
    assert!(!c.crawl_failed());
}

#[test]
fn scenario_failing_external_link_fails_the_crawl() {
    let mut c = Crawler::new(b"https://ex.com", b"https://ex.com", false).unwrap();
    run_crawl(
        &mut c,
        &[("https://ex.com/", "<a href=\"https://other.com/gone\">dead</a>")],
        404,
    );
    let (total, successful, failed) = c.summary();
    assert_eq!((total, successful, failed), (2, 1, 1));
    assert!(c.crawl_failed());
}

#[test]
fn scenario_origin_mismatch_stops_before_any_dispatch() {
    let r = Crawler::new(b"https://ex.com", b"https://other.com", false);
    assert!(r.is_err());
}

#[test]
fn scenario_self_link_terminates() {
    let mut c = Crawler::new(b"https://ex.com", b"https://ex.com", false).unwrap();
    let waves = run_crawl(&mut c, &[("https://ex.com/", "<a href=\"/\">home</a>")], 200);
    assert!(waves <= 2);
    let (total, successful, failed) = c.summary();
    assert_eq!((total, successful, failed), (1, 1, 0));
    assert!(!c.crawl_failed());
}

#[test]
fn transport_failure_is_contained() {
    let mut c = Crawler::new(b"https://ex.com", b"https://ex.com", false).unwrap();
    let batch = c.drain_wave();
    assert_eq!(batch.len(), 1);
    assert_eq!(c.classify(&batch[0].url), Directive::FetchInternal);
    let parse_body = c.on_internal_response(&batch[0].url, &FetchOutcome::TransportFailure);
    assert!(!parse_body);
    let (total, successful, failed) = c.summary();
    assert_eq!((total, successful, failed), (1, 0, 1));
    assert!(c.crawl_failed());
}

#[test]
fn non_html_internal_url_goes_to_the_external_checker() {
    let mut c = Crawler::new(b"https://ex.com", b"https://ex.com/logo.png", false).unwrap();
    let batch = c.drain_wave();
    assert_eq!(c.classify(&batch[0].url), Directive::CheckExternal);
}

#[test]
fn html_answer_with_non_html_content_type_is_not_parsed() {
    let mut c = Crawler::new(b"https://ex.com", b"https://ex.com", false).unwrap();
    let batch = c.drain_wave();
    assert_eq!(c.classify(&batch[0].url), Directive::FetchInternal);
    let outcome = FetchOutcome::Response(200, Some(b"application/pdf".to_vec()));
    assert!(!c.on_internal_response(&batch[0].url, &outcome));
    let (_, successful, failed) = c.summary();
    assert_eq!((successful, failed), (1, 0));
}

#[test]
fn scheme_rejection_is_uncounted() {
    let mut c = Crawler::new(b"https://ex.com", b"https://ex.com", false).unwrap();
    let links = c.extract_links(
        &c.base.duplicate(),
        "<a href=\"ftp://files.ex.com/x\">ftp</a>",
    );
    assert_eq!(links.len(), 1);
    assert_eq!(c.classify(&links[0].url), Directive::SchemeRejected);
    let (total, _, _) = c.summary();
    assert_eq!(total, 0);
}

#[test]
fn depth_cap_rejects_before_dispatch_and_at_extraction() {
    let mut c = Crawler::new(b"https://ex.com", b"https://ex.com", false).unwrap();
    let deep = "/a".repeat(21);
    let start = Crawler::new(
        format!("https://ex.com{deep}").as_bytes(),
        format!("https://ex.com{deep}").as_bytes(),
        false,
    )
    .unwrap();
    assert_eq!(start.base.path, deep.as_bytes().to_vec());
    assert_eq!(c.classify(&start.base), Directive::DepthRejected);
    let (total, _, _) = c.summary();
    assert_eq!(total, 0);

    let document = format!("<a href=\"{deep}\">deep</a><a href=\"/ok\">ok</a>");
    let links = c.extract_links(&c.base.duplicate(), &document);
    assert_eq!(links.len(), 1);
    assert_eq!(links[0].url.path, b"/ok".to_vec());
}

#[test]
fn internal_only_drops_external_urls_everywhere() {
    let mut c = Crawler::new(b"https://ex.com", b"https://ex.com", true).unwrap();
    let document = "<a href=\"https://other.com/x\">out</a><a href=\"/in\">in</a>";
    let links = c.extract_links(&c.base.duplicate(), document);
    assert_eq!(links.len(), 1);
    assert_eq!(links[0].url.host, Some(b"ex.com".to_vec()));

    let external = Crawler::new(b"https://other.com/x", b"https://other.com/x", false)
        .unwrap()
        .base;
    assert_eq!(c.classify(&external), Directive::InternalOnlyRejected);
    let (total, _, _) = c.summary();
    assert_eq!(total, 0);
}

#[test]
fn relative_links_resolve_against_page_and_host_root() {
    let c = Crawler::new(b"https://ex.com", b"https://ex.com", false).unwrap();
    let page = Crawler::new(b"https://ex.com/docs/guide/", b"https://ex.com", false)
        .unwrap()
        .base;
    let document = "<a href=\"intro.html\">rel</a><a href=\"/top\">root</a>";
    let links = c.extract_links(&page, document);
    assert_eq!(links.len(), 2);
    let serials: Vec<String> = links
        .iter()
        .map(|e| String::from_utf8(e.url.serial.clone()).unwrap())
        .collect();
    assert!(serials.contains(&"https://ex.com/docs/guide/intro.html".to_string()));
    assert!(serials.contains(&"https://ex.com/top".to_string()));
    for e in &links {
        let r = e.referrer.as_ref().expect("referrer set");
        assert_eq!(r.serial, page.serial);
    }
}

#[test]
fn host_root_resolution_drops_explicit_port() {
    let c = Crawler::new(b"https://ex.com:8080", b"https://ex.com:8080", false).unwrap();
    let page = c.base.duplicate();
    let links = c.extract_links(&page, "<a href=\"/x\">root</a>");
    assert_eq!(links.len(), 1);
    // A `/`-prefixed token resolves against `scheme://host`, without the
    // page's explicit port.
    assert_eq!(links[0].url.serial, b"https://ex.com/x".to_vec());
    assert_eq!(links[0].url.port, None);
}

#[test]
fn mailto_link_is_discovered_but_scheme_rejected() {
    let mut c = Crawler::new(b"https://ex.com", b"https://ex.com", false).unwrap();
    let links = c.extract_links(&c.base.duplicate(), "<a href=\"mailto:docs@ex.com\">mail</a>");
    assert_eq!(links.len(), 1);
    assert_eq!(links[0].url.scheme, b"mailto".to_vec());
    assert_eq!(c.classify(&links[0].url), Directive::SchemeRejected);
    let (total, _, _) = c.summary();
    assert_eq!(total, 0);
}

#[test]
fn wave_drain_is_fifo_and_bounded() {
    let mut c = Crawler::new(b"https://ex.com", b"https://ex.com", false).unwrap();
    let mut document = String::new();
    for i in 0..12 {
        document.push_str(&format!("<a href=\"/p{i}\">l</a>"));
    }
    let links = c.extract_links(&c.base.duplicate(), &document);
    assert_eq!(links.len(), 12);
    c.enqueue(links);
    let wave = c.drain_wave();
    assert_eq!(wave.len(), 10);
    assert_eq!(wave[0].url.path, b"/".to_vec());
    assert_eq!(wave[1].url.path, b"/p0".to_vec());
    let rest = c.drain_wave();
    assert_eq!(rest.len(), 3);
    assert_eq!(rest[2].url.path, b"/p11".to_vec());
}
