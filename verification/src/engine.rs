//! The crawl engine: frontier, dispatcher decisions, and aggregation.
//!
//! The engine is a sequential state machine. A driver seeds it with a
//! start URL, then repeatedly drains one wave of frontier entries,
//! classifies each entry, performs the network operation the returned
//! directive calls for, and reports the outcome back; links extracted
//! from fetched internal pages refill the frontier for later waves. All
//! decisions — which URLs are dispatched, how outcomes are counted, which
//! discovered links enter the frontier — are made here and verified; the
//! driver only moves bytes.

use vstd::prelude::*;

use crate::html::is_html_spec;
use crate::html::looks_like_html;
use crate::services::html_tokens;
use crate::services::html_tokens_of;
use crate::services::join_url;
use crate::services::parse_url;
use crate::services::url_join_of;
use crate::services::url_parse_of;
use crate::services::ParseAttempt;
use crate::services::ParseForm;
use crate::site_url::copy_bytes;
use crate::site_url::eligible_scheme_spec;
use crate::site_url::is_internal_spec;
use crate::site_url::normalize_spec;
use crate::site_url::origin_eq_spec;
use crate::site_url::segment_count;
use crate::site_url::SiteUrl;
use crate::site_url::UrlSpec;
use crate::visited::Visited;

verus! {

/// Default bound on parallel network operations in one wave.
pub const DEFAULT_MAX_CONCURRENCY: usize = 10;

/// Default bound on the number of non-empty path segments of a URL.
pub const DEFAULT_MAX_PATH_DEPTH: usize = 20;

/// A discovered URL awaiting processing, with the page it was found on.
pub struct FrontierEntry {
    pub url: SiteUrl,
    pub referrer: Option<SiteUrl>,
}

/// The mathematical view of a `FrontierEntry`.
#[verifier::ext_equal]
pub ghost struct EntrySpec {
    pub url: UrlSpec,
    pub referrer: Option<UrlSpec>,
}

impl View for FrontierEntry {
    type V = EntrySpec;

    open spec fn view(&self) -> EntrySpec {
        EntrySpec {
            url: self.url@,
            referrer: match self.referrer {
                Some(r) => Some(r@),
                None => None,
            },
        }
    }
}

/// Why the engine was not created.
#[derive(Clone, Copy, PartialEq, Eq, Structural, Debug)]
pub enum ConfigError {
    /// The base URL does not parse as an absolute URL.
    BadBaseUrl,
    /// The start URL does not parse as an absolute URL.
    BadStartUrl,
    /// The start URL's origin differs from the base URL's origin.
    OriginMismatch,
}

/// What must happen to one frontier entry.
#[derive(Clone, Copy, PartialEq, Eq, Structural, Debug)]
pub enum Directive {
    /// Dropped, uncounted: the scheme is neither `http` nor `https`.
    SchemeRejected,
    /// Dropped, uncounted: the path exceeds the depth cap.
    DepthRejected,
    /// Dropped, uncounted: this normalized URL was dispatched before.
    AlreadyVisited,
    /// Dropped, uncounted: external, and only internal URLs are checked.
    InternalOnlyRejected,
    /// Fetch the page; report with `on_internal_response`.
    FetchInternal,
    /// Delegate to the external link validator; report with
    /// `on_external_response`.
    CheckExternal,
}

/// The outcome of one network operation.
pub enum FetchOutcome {
    /// The transfer itself failed (connection, DNS, TLS, timeout).
    TransportFailure,
    /// An HTTP response arrived, with its status code and its
    /// content-type header if one was present.
    Response(u16, Option<Vec<u8>>),
}

/// The mathematical view of a `FetchOutcome`.
#[verifier::ext_equal]
pub ghost enum FetchOutcomeSpec {
    TransportFailure,
    Response(u16, Option<Seq<u8>>),
}

impl View for FetchOutcome {
    type V = FetchOutcomeSpec;

    open spec fn view(&self) -> FetchOutcomeSpec {
        match self {
            FetchOutcome::TransportFailure => FetchOutcomeSpec::TransportFailure,
            FetchOutcome::Response(status, ct) => FetchOutcomeSpec::Response(
                *status,
                match ct {
                    Some(c) => Some(c@),
                    None => None,
                },
            ),
        }
    }
}

/// A status code that counts as success.
pub open spec fn success_status(status: u16) -> bool {
    200 <= status < 300
}

/// An outcome that counts as a successful check.
pub open spec fn outcome_success(o: FetchOutcomeSpec) -> bool {
    match o {
        FetchOutcomeSpec::TransportFailure => false,
        FetchOutcomeSpec::Response(status, _) => success_status(status),
    }
}

/// How one URL must be handled, given the configuration and the set of
/// already-visited keys. Checks run in this order: scheme, depth, the
/// visited guard, the internal-only policy; a URL that passes them all is
/// dispatched, internally when it is internal and looks like HTML, and to
/// the external validator otherwise.
pub open spec fn classify_decision(
    base: UrlSpec,
    internal_only: bool,
    max_depth: nat,
    visited: Set<crate::site_url::VisitKeySpec>,
    u: UrlSpec,
) -> Directive {
    if !eligible_scheme_spec(u) {
        Directive::SchemeRejected
    } else if segment_count(u.path) > max_depth {
        Directive::DepthRejected
    } else if visited.contains(normalize_spec(u)) {
        Directive::AlreadyVisited
    } else if internal_only && !is_internal_spec(u, base) {
        Directive::InternalOnlyRejected
    } else if is_internal_spec(u, base) && is_html_spec(u.path, Option::<Seq<u8>>::None) {
        Directive::FetchInternal
    } else {
        Directive::CheckExternal
    }
}

/// Whether classifying `u` marks its key as visited: it does exactly when
/// the scheme and depth checks pass.
pub open spec fn classify_marks(max_depth: nat, u: UrlSpec) -> bool {
    eligible_scheme_spec(u) && segment_count(u.path) <= max_depth
}

/// The serialization `scheme://host` against which tokens that start with
/// `/` are resolved: the host root, without port, path or query.
pub open spec fn origin_serial(scheme: Seq<u8>, host: Seq<u8>) -> Seq<u8> {
    scheme + seq![':' as u8, '/' as u8, '/' as u8] + host
}

/// The URL a raw link token resolves to, if any: an absolute token stands
/// for itself; a token starting with `/` is resolved against the page's
/// host root; any other relative token is resolved against the page
/// itself; anything else is dropped.
pub open spec fn resolve_token(page: UrlSpec, t: Seq<u8>) -> Option<UrlSpec> {
    match url_parse_of(t) {
        ParseForm::Absolute(u) => Some(u),
        ParseForm::RelativeRef => if t.len() > 0 && t[0] == '/' as u8 {
            match page.host {
                Some(h) => url_join_of(origin_serial(page.scheme, h), t.skip(1)),
                None => None,
            }
        } else {
            url_join_of(page.serial, t)
        },
        ParseForm::Unparseable => None,
    }
}

/// Whether a resolved candidate may enter the frontier: it must respect
/// the depth cap and, under the internal-only policy, be internal.
pub open spec fn keep_candidate(
    u: UrlSpec,
    base: UrlSpec,
    internal_only: bool,
    max_depth: nat,
) -> bool {
    segment_count(u.path) <= max_depth && (!internal_only || is_internal_spec(u, base))
}

/// The frontier entries extracted from a page: each token resolved, the
/// failures dropped, the candidates filtered, each survivor carrying the
/// page as referrer, in token order.
pub open spec fn extract_links_spec(
    page: UrlSpec,
    tokens: Seq<Seq<u8>>,
    base: UrlSpec,
    internal_only: bool,
    max_depth: nat,
) -> Seq<EntrySpec>
    decreases tokens.len(),
{
    if tokens.len() == 0 {
        Seq::empty()
    } else {
        let rest = extract_links_spec(page, tokens.drop_last(), base, internal_only, max_depth);
        match resolve_token(page, tokens.last()) {
            Some(u) => if keep_candidate(u, base, internal_only, max_depth) {
                rest.push(EntrySpec { url: u, referrer: Some(page) })
            } else {
                rest
            },
            None => rest,
        }
    }
}

/// The crawl engine's whole state: configuration, frontier, visited
/// guard, and the two outcome counters.
pub struct Crawler {
    /// The base URL: internal URLs share its origin and path prefix.
    pub base: SiteUrl,
    /// When set, external URLs are dropped before dispatch.
    pub internal_only: bool,
    /// Bound on parallel network operations per wave.
    pub max_concurrency: usize,
    /// Bound on non-empty path segments of a dispatched URL.
    pub max_path_depth: usize,
    /// Discovered entries not yet drained into a wave.
    pub frontier: Vec<FrontierEntry>,
    /// The deduplication guard.
    pub visited: Visited,
    /// Checks that succeeded.
    pub successful: u64,
    /// Checks that failed.
    pub failed: u64,
}

/// The fields fixed for the lifetime of one crawl.
pub open spec fn same_config(a: Crawler, b: Crawler) -> bool {
    &&& a.base == b.base
    &&& a.internal_only == b.internal_only
    &&& a.max_concurrency == b.max_concurrency
    &&& a.max_path_depth == b.max_path_depth
}

impl Crawler {
    /// The engine's invariant: the visited guard holds each key once.
    pub open spec fn wf(&self) -> bool {
        self.visited.wf()
    }

    /// Build an engine for one crawl: parse the base and start URLs,
    /// refuse a start URL whose origin differs from the base's, and seed
    /// the frontier with the start URL.
    pub fn new(base_url: &[u8], start_url: &[u8], internal_only: bool) -> (r: Result<
        Crawler,
        ConfigError,
    >)
        ensures
            match r {
                Ok(c) => {
                    &&& url_parse_of(base_url@) matches ParseForm::Absolute(b) && c.base@ == b
                    &&& url_parse_of(start_url@) matches ParseForm::Absolute(s) && {
                        &&& origin_eq_spec(s, c.base@)
                        &&& c.frontier@.len() == 1
                        &&& c.frontier@[0].url@ == s
                        &&& c.frontier@[0].referrer is None
                    }
                    &&& c.internal_only == internal_only
                    &&& c.max_concurrency == DEFAULT_MAX_CONCURRENCY
                    &&& c.max_path_depth == DEFAULT_MAX_PATH_DEPTH
                    &&& c.visited@ == Set::<crate::site_url::VisitKeySpec>::empty()
                    &&& c.successful == 0
                    &&& c.failed == 0
                    &&& c.wf()
                },
                Err(e) => {
                    &&& e == ConfigError::BadBaseUrl <==> !(url_parse_of(base_url@)
                        is Absolute)
                    &&& e == ConfigError::BadStartUrl <==> (url_parse_of(base_url@) is Absolute
                        && !(url_parse_of(start_url@) is Absolute))
                    &&& e == ConfigError::OriginMismatch <==> (url_parse_of(base_url@)
                        matches ParseForm::Absolute(b) && url_parse_of(start_url@)
                        matches ParseForm::Absolute(s) && !origin_eq_spec(s, b))
                },
            },
    {
        let base = match parse_url(base_url) {
            ParseAttempt::Absolute(u) => u,
            _ => {
                return Err(ConfigError::BadBaseUrl);
            },
        };
        let start = match parse_url(start_url) {
            ParseAttempt::Absolute(u) => u,
            _ => {
                return Err(ConfigError::BadStartUrl);
            },
        };
        if !start.origin_eq(&base) {
            return Err(ConfigError::OriginMismatch);
        }
        let mut frontier: Vec<FrontierEntry> = Vec::new();
        frontier.push(FrontierEntry { url: start, referrer: None });
        Ok(
            Crawler {
                base,
                internal_only,
                max_concurrency: DEFAULT_MAX_CONCURRENCY,
                max_path_depth: DEFAULT_MAX_PATH_DEPTH,
                frontier,
                visited: Visited::new(),
                successful: 0,
                failed: 0,
            },
        )
    }

    /// Drain the next wave: up to `max_concurrency` entries, in discovery
    /// order, removed from the front of the frontier. An empty wave means
    /// the crawl is over.
    pub fn drain_wave(&mut self) -> (batch: Vec<FrontierEntry>)
        requires
            old(self).wf(),
        ensures
            final(self).wf(),
            same_config(*old(self), *final(self)),
            final(self).visited@ == old(self).visited@,
            final(self).successful == old(self).successful,
            final(self).failed == old(self).failed,
            batch@.len() == if old(self).frontier@.len() <= old(self).max_concurrency {
                old(self).frontier@.len() as int
            } else {
                old(self).max_concurrency as int
            },
            batch@ == old(self).frontier@.take(batch@.len() as int),
            final(self).frontier@ == old(self).frontier@.skip(batch@.len() as int),
    {
        let n = if self.frontier.len() <= self.max_concurrency {
            self.frontier.len()
        } else {
            self.max_concurrency
        };
        let ghost orig = self.frontier@;
        let mut batch: Vec<FrontierEntry> = Vec::new();
        let mut i: usize = 0;
        while i < n
            invariant
                0 <= i <= n,
                n <= orig.len(),
                batch@.len() == i,
                batch@ == orig.take(i as int),
                self.frontier@ == orig.skip(i as int),
                self.base == old(self).base,
                self.internal_only == old(self).internal_only,
                self.max_concurrency == old(self).max_concurrency,
                self.max_path_depth == old(self).max_path_depth,
                self.visited == old(self).visited,
                self.successful == old(self).successful,
                self.failed == old(self).failed,
            decreases n - i,
        {
            let e = self.frontier.remove(0);
            batch.push(e);
            proof {
                assert(orig.skip(i as int).remove(0) =~= orig.skip(i + 1));
                assert(orig.skip(i as int)[0] == orig[i as int]);
                assert(batch@ =~= orig.take(i + 1));
            }
            i += 1;
        }
        batch
    }

    /// Decide what must happen to one drained entry's URL, marking its
    /// key as visited when the scheme and depth checks pass. The returned
    /// directive is the only place the fetch-or-check strategy is chosen.
    pub fn classify(&mut self, url: &SiteUrl) -> (d: Directive)
        requires
            old(self).wf(),
        ensures
            final(self).wf(),
            same_config(*old(self), *final(self)),
            final(self).frontier == old(self).frontier,
            final(self).successful == old(self).successful,
            final(self).failed == old(self).failed,
            d == classify_decision(
                old(self).base@,
                old(self).internal_only,
                old(self).max_path_depth as nat,
                old(self).visited@,
                url@,
            ),
            final(self).visited@ == if classify_marks(old(self).max_path_depth as nat, url@) {
                old(self).visited@.insert(normalize_spec(url@))
            } else {
                old(self).visited@
            },
    {
        if !url.eligible_scheme() {
            return Directive::SchemeRejected;
        }
        if url.path_segment_count() > self.max_path_depth {
            return Directive::DepthRejected;
        }
        if self.visited.mark_visited(url) {
            return Directive::AlreadyVisited;
        }
        let internal = url.is_internal(&self.base);
        if self.internal_only && !internal {
            return Directive::InternalOnlyRejected;
        }
        let no_header: Option<Vec<u8>> = None;
        if internal && looks_like_html(url.path.as_slice(), &no_header) {
            Directive::FetchInternal
        } else {
            Directive::CheckExternal
        }
    }

    /// Record the outcome of fetching an internal URL: a transport
    /// failure or a non-success status counts one failure, anything else
    /// one success. Returns whether the driver must hand the response
    /// body to `extract_links`: only after a success whose content-type
    /// and path say the page is HTML.
    pub fn on_internal_response(&mut self, url: &SiteUrl, outcome: &FetchOutcome) -> (parse_body:
        bool)
        requires
            old(self).wf(),
            old(self).successful < u64::MAX,
            old(self).failed < u64::MAX,
        ensures
            final(self).wf(),
            same_config(*old(self), *final(self)),
            final(self).frontier == old(self).frontier,
            final(self).visited@ == old(self).visited@,
            outcome_success(outcome@) ==> {
                &&& final(self).successful == old(self).successful + 1
                &&& final(self).failed == old(self).failed
                &&& parse_body == (outcome@ matches FetchOutcomeSpec::Response(_, ct)
                    && is_html_spec(url@.path, ct))
            },
            !outcome_success(outcome@) ==> {
                &&& final(self).failed == old(self).failed + 1
                &&& final(self).successful == old(self).successful
                &&& !parse_body
            },
    {
        match outcome {
            FetchOutcome::TransportFailure => {
                self.failed = self.failed + 1;
                false
            },
            FetchOutcome::Response(status, content_type) => {
                if !(200 <= *status && *status < 300) {
                    self.failed = self.failed + 1;
                    false
                } else {
                    self.successful = self.successful + 1;
                    looks_like_html(url.path.as_slice(), content_type)
                }
            },
        }
    }

    /// Record the outcome of delegating an external URL to the link
    /// validator: exactly one counter is incremented.
    pub fn on_external_response(&mut self, outcome: &FetchOutcome)
        requires
            old(self).wf(),
            old(self).successful < u64::MAX,
            old(self).failed < u64::MAX,
        ensures
            final(self).wf(),
            same_config(*old(self), *final(self)),
            final(self).frontier == old(self).frontier,
            final(self).visited@ == old(self).visited@,
            outcome_success(outcome@) ==> {
                &&& final(self).successful == old(self).successful + 1
                &&& final(self).failed == old(self).failed
            },
            !outcome_success(outcome@) ==> {
                &&& final(self).failed == old(self).failed + 1
                &&& final(self).successful == old(self).successful
            },
    {
        match outcome {
            FetchOutcome::TransportFailure => {
                self.failed = self.failed + 1;
            },
            FetchOutcome::Response(status, _) => {
                if 200 <= *status && *status < 300 {
                    self.successful = self.successful + 1;
                } else {
                    self.failed = self.failed + 1;
                }
            },
        }
    }

    /// Extract the frontier entries of a fetched page: tokenize the
    /// document, resolve every token, and keep the candidates that pass
    /// the depth cap and the internal-only policy, each with the page as
    /// referrer.
    pub fn extract_links(&self, page: &SiteUrl, document: &str) -> (r: Vec<FrontierEntry>)
        ensures
            r@.map_values(|e: FrontierEntry| e@) == extract_links_spec(
                page@,
                html_tokens_of(document@),
                self.base@,
                self.internal_only,
                self.max_path_depth as nat,
            ),
    {
        let tokens = html_tokens(document);
        let ghost toks = tokens.deep_view();
        let mut out: Vec<FrontierEntry> = Vec::new();
        let mut i: usize = 0;
        proof {
            assert(toks.take(0) =~= Seq::<Seq<u8>>::empty());
        }
        while i < tokens.len()
            invariant
                0 <= i <= tokens@.len(),
                toks == tokens.deep_view(),
                toks.len() == tokens@.len(),
                out@.map_values(|e: FrontierEntry| e@) == extract_links_spec(
                    page@,
                    toks.take(i as int),
                    self.base@,
                    self.internal_only,
                    self.max_path_depth as nat,
                ),
            decreases tokens@.len() - i,
        {
            let t = &tokens[i];
            proof {
                assert(toks[i as int] == tokens@[i as int].deep_view());
                assert(tokens@[i as int].deep_view() =~= t@);
            }
            let resolved: Option<SiteUrl> = match parse_url(t.as_slice()) {
                ParseAttempt::Absolute(u) => Some(u),
                ParseAttempt::RelativeRef => {
                    if t.len() > 0 && t[0] == '/' as u8 {
                        match &page.host {
                            Some(h) => {
                                let origin = origin_serial_bytes(
                                    page.scheme.as_slice(),
                                    h.as_slice(),
                                );
                                let stripped = copy_byte_range(t.as_slice(), 1, t.len());
                                proof {
                                    assert(stripped@ =~= t@.skip(1));
                                }
                                join_url(origin.as_slice(), stripped.as_slice())
                            },
                            None => None,
                        }
                    } else {
                        join_url(page.serial.as_slice(), t.as_slice())
                    }
                },
                ParseAttempt::Unparseable => None,
            };
            assert(match resolved {
                Some(u) => resolve_token(page@, toks[i as int]) == Some(u@),
                None => resolve_token(page@, toks[i as int]) is None,
            });
            let ghost before = out@;
            match resolved {
                Some(u) => {
                    let deep_ok = u.path_segment_count() <= self.max_path_depth;
                    let keep = deep_ok && (!self.internal_only || u.is_internal(&self.base));
                    if keep {
                        out.push(FrontierEntry { url: u, referrer: Some(page.duplicate()) });
                    }
                },
                None => {},
            }
            proof {
                let f = |e: FrontierEntry| e@;
                assert(toks.take(i + 1).drop_last() =~= toks.take(i as int));
                assert(toks.take(i + 1).last() == toks[i as int]);
                if out@.len() > before.len() {
                    assert(out@.map_values(f) =~= before.map_values(f).push(out@.last()@));
                }
                assert(out@.map_values(f) =~= extract_links_spec(
                    page@,
                    toks.take(i + 1),
                    self.base@,
                    self.internal_only,
                    self.max_path_depth as nat,
                ));
            }
            i += 1;
        }
        proof {
            assert(toks.take(toks.len() as int) =~= toks);
        }
        out
    }

    /// Append extracted entries to the frontier, in order.
    pub fn enqueue(&mut self, entries: Vec<FrontierEntry>)
        requires
            old(self).wf(),
        ensures
            final(self).wf(),
            same_config(*old(self), *final(self)),
            final(self).visited@ == old(self).visited@,
            final(self).successful == old(self).successful,
            final(self).failed == old(self).failed,
            final(self).frontier@ == old(self).frontier@ + entries@,
    {
        let mut entries = entries;
        let ghost added = entries@;
        let ghost total = added.len();
        proof {
            assert(self.frontier@ =~= old(self).frontier@ + added.take(0));
            assert(entries@ =~= added.skip(0));
        }
        while entries.len() > 0
            invariant
                entries@.len() <= total,
                added.len() == total,
                entries@ == added.skip(total - entries@.len()),
                self.frontier@ == old(self).frontier@ + added.take(total - entries@.len()),
                self.base == old(self).base,
                self.internal_only == old(self).internal_only,
                self.max_concurrency == old(self).max_concurrency,
                self.max_path_depth == old(self).max_path_depth,
                self.visited == old(self).visited,
                self.successful == old(self).successful,
                self.failed == old(self).failed,
            decreases entries@.len(),
        {
            let ghost k = total - entries@.len();
            let e = entries.remove(0);
            self.frontier.push(e);
            proof {
                assert(e == added[k]);
                assert(entries@ =~= added.skip(k + 1));
                assert(self.frontier@ =~= old(self).frontier@ + added.take(k + 1));
            }
        }
        proof {
            assert(added.take(total as int) =~= added);
        }
    }

    /// The crawl fails exactly when at least one check failed;
    /// zero checks is a success.
    pub fn crawl_failed(&self) -> (r: bool)
        ensures
            r == (self.failed > 0),
    {
        self.failed > 0
    }

    /// The final counts: total, successful, failed, with the total the
    /// sum of the other two.
    pub fn summary(&self) -> (r: (u64, u64, u64))
        requires
            self.successful + self.failed <= u64::MAX,
        ensures
            r.0 == self.successful + self.failed,
            r.1 == self.successful,
            r.2 == self.failed,
    {
        (self.successful + self.failed, self.successful, self.failed)
    }
}

/// The bytes `scheme://host`.
fn origin_serial_bytes(scheme: &[u8], host: &[u8]) -> (r: Vec<u8>)
    ensures
        r@ == origin_serial(scheme@, host@),
{
    let mut out = copy_bytes(scheme);
    out.push(':' as u8);
    out.push('/' as u8);
    out.push('/' as u8);
    let mut i: usize = 0;
    while i < host.len()
        invariant
            0 <= i <= host.len(),
            out@ =~= scheme@ + seq![':' as u8, '/' as u8, '/' as u8] + host@.take(i as int),
        decreases host.len() - i,
    {
        out.push(host[i]);
        i += 1;
    }
    proof {
        assert(host@.take(host@.len() as int) =~= host@);
    }
    out
}

/// A fresh copy of `v[from..to]`.
fn copy_byte_range(v: &[u8], from: usize, to: usize) -> (r: Vec<u8>)
    requires
        0 <= from <= to <= v@.len(),
    ensures
        r@ == v@.subrange(from as int, to as int),
{
    let mut out: Vec<u8> = Vec::new();
    let mut i: usize = from;
    while i < to
        invariant
            from <= i <= to <= v@.len(),
            out@ =~= v@.subrange(from as int, i as int),
        decreases to - i,
    {
        out.push(v[i]);
        proof {
            assert(v@.subrange(from as int, i + 1) =~= v@.subrange(from as int, i as int).push(
                v@[i as int],
            ));
        }
        i += 1;
    }
    out
}

} // verus!
