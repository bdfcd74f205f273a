//! Trusted boundary to the outside collaborators.
//!
//! URL parsing and relative-reference resolution are done by the `url`
//! crate, and HTML tokenization by `lychee_lib`'s extractor. All three are
//! deterministic functions of their text arguments, so each result is
//! given a name here, and the wrappers' contracts tie the returned values
//! to those names. Everything the engine then does with the values is
//! verified.

use vstd::prelude::*;

use crate::site_url::SiteUrl;
use crate::site_url::UrlSpec;

verus! {

/// The outcome of attempting to parse a string as an absolute URL.
pub enum ParseAttempt {
    /// The string is an absolute URL with these parts.
    Absolute(SiteUrl),
    /// The string is a relative reference, resolvable against a base.
    RelativeRef,
    /// The string is not a URL at all.
    Unparseable,
}

/// The mathematical view of a `ParseAttempt`.
#[verifier::ext_equal]
pub ghost enum ParseForm {
    Absolute(UrlSpec),
    RelativeRef,
    Unparseable,
}

impl View for ParseAttempt {
    type V = ParseForm;

    open spec fn view(&self) -> ParseForm {
        match self {
            ParseAttempt::Absolute(u) => ParseForm::Absolute(u@),
            ParseAttempt::RelativeRef => ParseForm::RelativeRef,
            ParseAttempt::Unparseable => ParseForm::Unparseable,
        }
    }
}

/// What parsing a given byte string as an absolute URL yields.
pub uninterp spec fn url_parse_of(s: Seq<u8>) -> ParseForm;

/// What resolving the reference `rel` against the URL serialized as `base`
/// yields, or `None` when `base` does not parse or `rel` cannot be
/// resolved against it.
pub uninterp spec fn url_join_of(base: Seq<u8>, rel: Seq<u8>) -> Option<UrlSpec>;

/// The raw link tokens that the HTML tokenizer finds in a document.
pub uninterp spec fn html_tokens_of(document: Seq<char>) -> Seq<Seq<u8>>;

#[verifier::external_type_specification]
#[verifier::external_body]
pub struct ExUrl(url::Url);

/// Relies on the `url` crate's accessors — `scheme`, `host_str`, `port`,
/// `path`, `query`, `fragment`, `as_str` — to copy a parsed URL's parts
/// into the engine's model; only the parse and join wrappers call it, and
/// their contracts say what the parts are. Every parsed URL has a
/// non-empty scheme.
#[verifier::external_body]
fn absorb(u: &url::Url) -> (r: SiteUrl)
    ensures
        r@.scheme.len() > 0,
{
    SiteUrl {
        scheme: u.scheme().as_bytes().to_vec(),
        host: u.host_str().map(|h| h.as_bytes().to_vec()),
        port: u.port(),
        path: u.path().as_bytes().to_vec(),
        query: u.query().map(|q| q.as_bytes().to_vec()),
        fragment: u.fragment().map(|f| f.as_bytes().to_vec()),
        serial: u.as_str().as_bytes().to_vec(),
    }
}

/// Relies on `url::Url::parse`: WHATWG parsing of an absolute URL, a pure
/// function of the input string. `Err(RelativeUrlWithoutBase)` is returned
/// exactly when the input is a relative reference.
#[verifier::external_body]
pub(crate) fn parse_url(s: &[u8]) -> (r: ParseAttempt)
    ensures
        r@ == url_parse_of(s@),
{
    let text = match std::str::from_utf8(s) {
        Ok(t) => t,
        Err(_) => return ParseAttempt::Unparseable,
    };
    match url::Url::parse(text) {
        Ok(u) => ParseAttempt::Absolute(absorb(&u)),
        Err(url::ParseError::RelativeUrlWithoutBase) => ParseAttempt::RelativeRef,
        Err(_) => ParseAttempt::Unparseable,
    }
}

/// Relies on `url::Url::parse` and `url::Url::join`: parses `base` and
/// resolves `rel` against it by the WHATWG algorithm, a pure function of
/// the two strings.
#[verifier::external_body]
pub(crate) fn join_url(base: &[u8], rel: &[u8]) -> (r: Option<SiteUrl>)
    ensures
        r is Some ==> url_join_of(base@, rel@) == Some(r.unwrap()@),
        r is None ==> url_join_of(base@, rel@) is None,
{
    let (b, rl) = match (std::str::from_utf8(base), std::str::from_utf8(rel)) {
        (Ok(b), Ok(rl)) => (b, rl),
        _ => return None,
    };
    url::Url::parse(b).ok().and_then(|bu| bu.join(rl).ok()).map(|u| absorb(&u))
}

/// Relies on `lychee_lib`'s `Extractor` in its default configuration: it
/// tokenizes an HTML document into the raw link-attribute strings it
/// holds, a pure function of the document text.
#[verifier::external_body]
pub(crate) fn html_tokens(document: &str) -> (r: Vec<Vec<u8>>)
    ensures
        r.deep_view() == html_tokens_of(document@),
{
    let input = lychee_lib::InputContent::from_string(document, lychee_lib::FileType::Html);
    let raw = lychee_lib::extract::Extractor::default().extract(&input);
    raw.into_iter().map(|t| t.text.into_bytes()).collect()
}

} // verus!
