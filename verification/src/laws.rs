//! The engine's crawl-wide guarantees, proved from the contracts of its
//! operations.

use vstd::prelude::*;

use crate::engine::classify_decision;
use crate::engine::classify_marks;
use crate::engine::extract_links_spec;
use crate::engine::keep_candidate;
use crate::engine::Directive;
use crate::site_url::is_internal_spec;
use crate::site_url::normal_path;
use crate::site_url::normalize_spec;
use crate::site_url::segment_count;
use crate::site_url::UrlSpec;
use crate::site_url::VisitKeySpec;

verus! {

/// Normalization preserves the segment count: the slash it may drop ends
/// the path, so it starts no segment.
proof fn lemma_segment_count_of_normal_path(p: Seq<u8>)
    ensures
        segment_count(normal_path(p)) == segment_count(p),
{
}

/// Law: dispatches are always fresh. A URL is dispatched — fetched or
/// delegated to the external validator — only when its deduplication key
/// was absent from the visited set, and classification inserts the key in
/// the same indivisible step.
pub proof fn lemma_dispatch_fresh(
    base: UrlSpec,
    internal_only: bool,
    max_depth: nat,
    visited: Set<VisitKeySpec>,
    u: UrlSpec,
)
    requires
        classify_decision(base, internal_only, max_depth, visited, u) == Directive::FetchInternal
            || classify_decision(base, internal_only, max_depth, visited, u)
            == Directive::CheckExternal,
    ensures
        !visited.contains(normalize_spec(u)),
        classify_marks(max_depth, u),
{
}

/// Law: at most one dispatch per deduplication key. Once classifying `u`
/// dispatched it, any URL `v` with the same key — `u` itself, or a URL
/// differing only in fragment, query, or a trailing slash — is refused as
/// already visited, so its network side effect never fires.
pub proof fn lemma_dispatch_at_most_once(
    base: UrlSpec,
    internal_only: bool,
    max_depth: nat,
    visited: Set<VisitKeySpec>,
    u: UrlSpec,
    v: UrlSpec,
)
    requires
        classify_decision(base, internal_only, max_depth, visited, u) == Directive::FetchInternal
            || classify_decision(base, internal_only, max_depth, visited, u)
            == Directive::CheckExternal,
        normalize_spec(v) == normalize_spec(u),
    ensures
        classify_decision(
            base,
            internal_only,
            max_depth,
            visited.insert(normalize_spec(u)),
            v,
        ) == Directive::AlreadyVisited,
{
    assert(v.scheme == normalize_spec(v).scheme);
    lemma_segment_count_of_normal_path(v.path);
    lemma_segment_count_of_normal_path(u.path);
    assert(segment_count(v.path) == segment_count(normal_path(u.path)));
}

/// Law: the crawl terminates. The keys of a crawl's dispatches are
/// pairwise distinct (`lemma_dispatch_fresh`: each was absent when it was
/// inserted), so when every discovered URL draws its key from a finite
/// universe, the number of dispatches is bounded by that universe's size;
/// since each wave consumes at least one frontier entry and only
/// dispatched pages add new ones, the waves, too, come to an end.
pub proof fn lemma_dispatches_bounded(keys: Seq<VisitKeySpec>, universe: Set<VisitKeySpec>)
    requires
        keys.no_duplicates(),
        forall|i: int| 0 <= i < keys.len() ==> universe.contains(#[trigger] keys[i]),
        universe.finite(),
    ensures
        keys.len() <= universe.len(),
{
    keys.unique_seq_to_set();
    assert forall|x: VisitKeySpec| keys.to_set().contains(x) implies universe.contains(x) by {
        let i = choose|i: int| 0 <= i < keys.len() && keys[i] == x;
        assert(universe.contains(keys[i]));
    }
    vstd::set_lib::lemma_len_subset(keys.to_set(), universe);
}

/// Law: the depth cap is absolute. A URL with more non-empty path
/// segments than the cap is never dispatched, so it is never counted.
pub proof fn lemma_depth_capped(
    base: UrlSpec,
    internal_only: bool,
    max_depth: nat,
    visited: Set<VisitKeySpec>,
    u: UrlSpec,
)
    requires
        segment_count(u.path) > max_depth,
    ensures
        classify_decision(base, internal_only, max_depth, visited, u) != Directive::FetchInternal,
        classify_decision(base, internal_only, max_depth, visited, u) != Directive::CheckExternal,
{
}

/// Law: every extracted frontier entry passed the filters — it respects
/// the depth cap, under the internal-only policy it is internal, and it
/// carries the page it was found on as its referrer.
pub proof fn lemma_extracted_entries_filtered(
    page: UrlSpec,
    tokens: Seq<Seq<u8>>,
    base: UrlSpec,
    internal_only: bool,
    max_depth: nat,
)
    ensures
        forall|i: int|
            0 <= i < extract_links_spec(page, tokens, base, internal_only, max_depth).len() ==> {
                let e = #[trigger] extract_links_spec(
                    page,
                    tokens,
                    base,
                    internal_only,
                    max_depth,
                )[i];
                keep_candidate(e.url, base, internal_only, max_depth) && e.referrer == Some(page)
            },
    decreases tokens.len(),
{
    if tokens.len() > 0 {
        lemma_extracted_entries_filtered(page, tokens.drop_last(), base, internal_only, max_depth);
    }
}

/// Law: under the internal-only policy, no external URL is dispatched:
/// whatever directive a dispatch got — an internal fetch, or a delegated
/// check of an internal non-HTML resource — its URL is internal.
pub proof fn lemma_internal_only_dispatches_internal(
    base: UrlSpec,
    max_depth: nat,
    visited: Set<VisitKeySpec>,
    u: UrlSpec,
)
    requires
        classify_decision(base, true, max_depth, visited, u) == Directive::FetchInternal
            || classify_decision(base, true, max_depth, visited, u) == Directive::CheckExternal,
    ensures
        is_internal_spec(u, base),
{
}

} // verus!
