//! The URL model of the crawl engine.
//!
//! A `SiteUrl` holds, as plain byte strings, the parts of an absolute URL
//! that the engine reads: scheme, host, port, path, query and fragment,
//! plus the full serialization used when the URL is fetched or used as a
//! base for resolving relative references. Classification (origin equality,
//! internal/external, scheme eligibility, path depth) and normalization
//! into a deduplication key are all defined and verified here.

use vstd::prelude::*;

use crate::bytestr::eq_bytes;
use crate::bytestr::is_prefix;

verus! {

/// The mathematical view of a `SiteUrl`.
#[verifier::ext_equal]
pub ghost struct UrlSpec {
    pub scheme: Seq<u8>,
    pub host: Option<Seq<u8>>,
    pub port: Option<u16>,
    pub path: Seq<u8>,
    pub query: Option<Seq<u8>>,
    pub fragment: Option<Seq<u8>>,
    pub serial: Seq<u8>,
}

/// The mathematical view of a `VisitKey`: what survives normalization.
#[verifier::ext_equal]
pub ghost struct VisitKeySpec {
    pub scheme: Seq<u8>,
    pub host: Option<Seq<u8>>,
    pub port: Option<u16>,
    pub path: Seq<u8>,
}

pub open spec fn opt_bytes_view(o: Option<Vec<u8>>) -> Option<Seq<u8>> {
    match o {
        Some(v) => Some(v@),
        None => None,
    }
}

/// An absolute URL, decomposed into the parts the engine reads.
///
/// `port` is the explicit port only: the parser of the outside `url` crate
/// already drops a port equal to the scheme's default, so two URLs of the
/// same origin carry equal `port` fields. `serial` is the URL's full
/// serialization.
pub struct SiteUrl {
    pub scheme: Vec<u8>,
    pub host: Option<Vec<u8>>,
    pub port: Option<u16>,
    pub path: Vec<u8>,
    pub query: Option<Vec<u8>>,
    pub fragment: Option<Vec<u8>>,
    pub serial: Vec<u8>,
}

impl View for SiteUrl {
    type V = UrlSpec;

    open spec fn view(&self) -> UrlSpec {
        UrlSpec {
            scheme: self.scheme@,
            host: opt_bytes_view(self.host),
            port: self.port,
            path: self.path@,
            query: opt_bytes_view(self.query),
            fragment: opt_bytes_view(self.fragment),
            serial: self.serial@,
        }
    }
}

/// A deduplication key: a URL with fragment and query removed and a
/// trailing slash dropped unless the path is the root.
pub struct VisitKey {
    pub scheme: Vec<u8>,
    pub host: Option<Vec<u8>>,
    pub port: Option<u16>,
    pub path: Vec<u8>,
}

impl View for VisitKey {
    type V = VisitKeySpec;

    open spec fn view(&self) -> VisitKeySpec {
        VisitKeySpec {
            scheme: self.scheme@,
            host: opt_bytes_view(self.host),
            port: self.port,
            path: self.path@,
        }
    }
}

pub open spec fn scheme_http() -> Seq<u8> {
    seq!['h' as u8, 't' as u8, 't' as u8, 'p' as u8]
}

pub open spec fn scheme_https() -> Seq<u8> {
    scheme_http().push('s' as u8)
}

pub open spec fn scheme_ws() -> Seq<u8> {
    seq!['w' as u8, 's' as u8]
}

pub open spec fn scheme_wss() -> Seq<u8> {
    scheme_ws().push('s' as u8)
}

pub open spec fn scheme_ftp() -> Seq<u8> {
    seq!['f' as u8, 't' as u8, 'p' as u8]
}

/// The schemes whose origin is a (scheme, host, port) tuple; any other
/// scheme has an opaque origin, equal to no other.
pub open spec fn tuple_origin_scheme(s: Seq<u8>) -> bool {
    s == scheme_http() || s == scheme_https() || s == scheme_ws() || s == scheme_wss() || s
        == scheme_ftp()
}

/// Origin equality: both URLs have a tuple origin and agree on scheme,
/// host and port.
pub open spec fn origin_eq_spec(a: UrlSpec, b: UrlSpec) -> bool {
    &&& tuple_origin_scheme(a.scheme)
    &&& a.scheme == b.scheme
    &&& a.host == b.host
    &&& a.port == b.port
}

/// A URL is internal when it shares the base's origin and its path has the
/// base's path as a textual prefix.
pub open spec fn is_internal_spec(u: UrlSpec, base: UrlSpec) -> bool {
    origin_eq_spec(u, base) && base.path.is_prefix_of(u.path)
}

/// Only `http` and `https` URLs are eligible for checking at all.
pub open spec fn eligible_scheme_spec(u: UrlSpec) -> bool {
    u.scheme == scheme_http() || u.scheme == scheme_https()
}

/// A path, with its trailing slash dropped unless it is the root path.
pub open spec fn normal_path(p: Seq<u8>) -> Seq<u8> {
    if p.len() > 1 && p.last() == '/' as u8 {
        p.drop_last()
    } else {
        p
    }
}

/// The deduplication key of a URL: fragment removed, query removed,
/// trailing slash removed unless the path is the root.
pub open spec fn normalize_spec(u: UrlSpec) -> VisitKeySpec {
    VisitKeySpec { scheme: u.scheme, host: u.host, port: u.port, path: normal_path(u.path) }
}

/// The number of non-empty `/`-separated segments of a path, counted as
/// the number of positions where a non-`/` byte follows a `/` or starts
/// the path.
pub open spec fn segment_count(p: Seq<u8>) -> nat
    decreases p.len(),
{
    if p.len() == 0 {
        0
    } else {
        segment_count(p.drop_last()) + (if p.last() != '/' as u8 && (p.len() == 1 || p[p.len()
            - 2] == '/' as u8) {
            1nat
        } else {
            0nat
        })
    }
}

impl SiteUrl {
    /// Whether `self` and `other` have equal origins.
    pub fn origin_eq(&self, other: &SiteUrl) -> (r: bool)
        ensures
            r == origin_eq_spec(self@, other@),
    {
        if !self.is_tuple_origin_scheme() {
            return false;
        }
        if !eq_bytes(self.scheme.as_slice(), other.scheme.as_slice()) {
            return false;
        }
        let hosts_eq = match (&self.host, &other.host) {
            (Some(a), Some(b)) => eq_bytes(a.as_slice(), b.as_slice()),
            (None, None) => true,
            _ => false,
        };
        if !hosts_eq {
            return false;
        }
        match (self.port, other.port) {
            (Some(a), Some(b)) => a == b,
            (None, None) => true,
            _ => false,
        }
    }

    fn is_tuple_origin_scheme(&self) -> (r: bool)
        ensures
            r == tuple_origin_scheme(self@.scheme),
    {
        let http: Vec<u8> = vec!['h' as u8, 't' as u8, 't' as u8, 'p' as u8];
        let https: Vec<u8> = vec!['h' as u8, 't' as u8, 't' as u8, 'p' as u8, 's' as u8];
        let ws: Vec<u8> = vec!['w' as u8, 's' as u8];
        let wss: Vec<u8> = vec!['w' as u8, 's' as u8, 's' as u8];
        let ftp: Vec<u8> = vec!['f' as u8, 't' as u8, 'p' as u8];
        proof {
            assert(http@ =~= scheme_http());
            assert(https@ =~= scheme_https());
            assert(ws@ =~= scheme_ws());
            assert(wss@ =~= scheme_wss());
            assert(ftp@ =~= scheme_ftp());
        }
        let s = self.scheme.as_slice();
        eq_bytes(s, http.as_slice()) || eq_bytes(s, https.as_slice()) || eq_bytes(
            s,
            ws.as_slice(),
        ) || eq_bytes(s, wss.as_slice()) || eq_bytes(s, ftp.as_slice())
    }

    /// Whether `self` is internal with respect to `base`.
    pub fn is_internal(&self, base: &SiteUrl) -> (r: bool)
        ensures
            r == is_internal_spec(self@, base@),
    {
        self.origin_eq(base) && is_prefix(base.path.as_slice(), self.path.as_slice())
    }

    /// Whether `self` has a scheme the crawl checks at all.
    pub fn eligible_scheme(&self) -> (r: bool)
        ensures
            r == eligible_scheme_spec(self@),
    {
        let http: Vec<u8> = vec!['h' as u8, 't' as u8, 't' as u8, 'p' as u8];
        let https: Vec<u8> = vec!['h' as u8, 't' as u8, 't' as u8, 'p' as u8, 's' as u8];
        proof {
            assert(http@ =~= scheme_http());
            assert(https@ =~= scheme_https());
        }
        eq_bytes(self.scheme.as_slice(), http.as_slice()) || eq_bytes(
            self.scheme.as_slice(),
            https.as_slice(),
        )
    }

    /// The number of non-empty path segments of `self`.
    pub fn path_segment_count(&self) -> (r: usize)
        ensures
            r == segment_count(self@.path),
    {
        let p = self.path.as_slice();
        let mut i: usize = 0;
        let mut count: usize = 0;
        proof {
            assert(p@.take(0) =~= Seq::<u8>::empty());
        }
        while i < p.len()
            invariant
                0 <= i <= p.len(),
                count == segment_count(p@.take(i as int)),
                count <= i,
            decreases p.len() - i,
        {
            let starts_segment = p[i] != '/' as u8 && (i == 0 || p[i - 1] == '/' as u8);
            proof {
                let t = p@.take(i + 1);
                assert(t.drop_last() =~= p@.take(i as int));
                assert(t.last() == p@[i as int]);
                if i > 0 {
                    assert(t[t.len() - 2] == p@[i - 1]);
                }
            }
            if starts_segment {
                count += 1;
            }
            i += 1;
        }
        proof {
            assert(p@.take(p@.len() as int) =~= p@);
        }
        count
    }

    /// A fresh copy of `self`.
    pub fn duplicate(&self) -> (r: SiteUrl)
        ensures
            r@ == self@,
    {
        let r = SiteUrl {
            scheme: copy_bytes(self.scheme.as_slice()),
            host: match &self.host {
                Some(h) => Some(copy_bytes(h.as_slice())),
                None => None,
            },
            port: self.port,
            path: copy_bytes(self.path.as_slice()),
            query: match &self.query {
                Some(q) => Some(copy_bytes(q.as_slice())),
                None => None,
            },
            fragment: match &self.fragment {
                Some(f) => Some(copy_bytes(f.as_slice())),
                None => None,
            },
            serial: copy_bytes(self.serial.as_slice()),
        };
        proof {
            assert(r@ =~= self@);
        }
        r
    }

    /// The deduplication key of `self`.
    pub fn normalize(&self) -> (r: VisitKey)
        ensures
            r@ == normalize_spec(self@),
    {
        let path_len = self.path.len();
        let trimmed: Vec<u8> = if path_len > 1 && self.path[path_len - 1] == '/' as u8 {
            let mut t: Vec<u8> = Vec::new();
            let mut i: usize = 0;
            while i < path_len - 1
                invariant
                    0 <= i <= path_len - 1,
                    path_len == self.path.len(),
                    t@ =~= self.path@.take(i as int),
                decreases path_len - 1 - i,
            {
                t.push(self.path[i]);
                i += 1;
            }
            proof {
                assert(t@ =~= self.path@.drop_last());
            }
            t
        } else {
            copy_bytes(self.path.as_slice())
        };
        let r = VisitKey {
            scheme: copy_bytes(self.scheme.as_slice()),
            host: match &self.host {
                Some(h) => Some(copy_bytes(h.as_slice())),
                None => None,
            },
            port: self.port,
            path: trimmed,
        };
        proof {
            assert(r@ =~= normalize_spec(self@));
        }
        r
    }
}

impl VisitKey {
    /// Whether two keys are equal.
    pub fn key_eq(&self, other: &VisitKey) -> (r: bool)
        ensures
            r == (self@ == other@),
    {
        let scheme_eq = eq_bytes(self.scheme.as_slice(), other.scheme.as_slice());
        let host_eq = match (&self.host, &other.host) {
            (Some(a), Some(b)) => eq_bytes(a.as_slice(), b.as_slice()),
            (None, None) => true,
            _ => false,
        };
        let port_eq = match (self.port, other.port) {
            (Some(a), Some(b)) => a == b,
            (None, None) => true,
            _ => false,
        };
        let path_eq = eq_bytes(self.path.as_slice(), other.path.as_slice());
        let r = scheme_eq && host_eq && port_eq && path_eq;
        proof {
            if r {
                assert(self@ =~= other@);
            }
        }
        r
    }
}

/// A fresh copy of a byte slice.
pub fn copy_bytes(v: &[u8]) -> (r: Vec<u8>)
    ensures
        r@ == v@,
{
    let mut out: Vec<u8> = Vec::new();
    let mut i: usize = 0;
    while i < v.len()
        invariant
            0 <= i <= v.len(),
            out@ =~= v@.take(i as int),
        decreases v.len() - i,
    {
        out.push(v[i]);
        i += 1;
    }
    proof {
        assert(v@.take(v@.len() as int) =~= v@);
    }
    out
}

} // verus!
