//! The visited guard: at most one dispatch per normalized URL.
//!
//! The guard owns the set of deduplication keys seen so far in one crawl.
//! `mark_visited` checks and inserts in one step, so a caller that sees
//! `false` is the only caller that will ever see `false` for that key.

use vstd::prelude::*;

use crate::site_url::normalize_spec;
use crate::site_url::SiteUrl;
use crate::site_url::VisitKey;
use crate::site_url::VisitKeySpec;

verus! {

/// The keys of every URL marked so far, each held once.
pub struct Visited {
    keys: Vec<VisitKey>,
}

impl View for Visited {
    type V = Set<VisitKeySpec>;

    closed spec fn view(&self) -> Set<VisitKeySpec> {
        self.keys@.map_values(|k: VisitKey| k@).to_set()
    }
}

impl Visited {
    /// No key is held twice.
    pub closed spec fn wf(&self) -> bool {
        forall|i: int, j: int|
            0 <= i < j < self.keys@.len() ==> #[trigger] self.keys@[i]@ != #[trigger] self.keys@[j]@
    }

    /// An empty guard.
    pub fn new() -> (r: Visited)
        ensures
            r@ == Set::<VisitKeySpec>::empty(),
            r.wf(),
    {
        let r = Visited { keys: Vec::new() };
        proof {
            assert(r@ =~= Set::<VisitKeySpec>::empty());
        }
        r
    }

    /// The number of keys held.
    pub fn len(&self) -> (r: usize)
        requires
            self.wf(),
        ensures
            r == self@.len(),
    {
        proof {
            let mapped = self.keys@.map_values(|k: VisitKey| k@);
            assert(mapped.no_duplicates());
            mapped.unique_seq_to_set();
        }
        self.keys.len()
    }

    fn contains_key(&self, k: &VisitKey) -> (r: bool)
        ensures
            r == self@.contains(k@),
    {
        let ghost mapped = self.keys@.map_values(|q: VisitKey| q@);
        let mut i: usize = 0;
        while i < self.keys.len()
            invariant
                0 <= i <= self.keys@.len(),
                mapped == self.keys@.map_values(|q: VisitKey| q@),
                forall|j: int| 0 <= j < i ==> self.keys@[j]@ != k@,
            decreases self.keys@.len() - i,
        {
            if self.keys[i].key_eq(k) {
                assert(mapped[i as int] == k@);
                assert(self@.contains(k@));
                return true;
            }
            i += 1;
        }
        assert(!self@.contains(k@)) by {
            if self@.contains(k@) {
                let idx = choose|idx: int| 0 <= idx < mapped.len() && mapped[idx] == k@;
                assert(self.keys@[idx]@ == k@);
            }
        }
        false
    }

    /// Mark a URL as visited.
    ///
    /// Computes the URL's deduplication key, and checks and inserts it in
    /// one indivisible step. Returns `true` when the key was already
    /// present — the caller must skip the URL — and `false` after
    /// inserting it, in which case this caller is the unique caller told
    /// to proceed for this key.
    pub fn mark_visited(&mut self, url: &SiteUrl) -> (already: bool)
        requires
            old(self).wf(),
        ensures
            already == old(self)@.contains(normalize_spec(url@)),
            final(self)@ == old(self)@.insert(normalize_spec(url@)),
            final(self).wf(),
    {
        let k = url.normalize();
        if self.contains_key(&k) {
            proof {
                assert(self@ =~= self@.insert(k@));
            }
            true
        } else {
            let ghost before = self.keys@;
            self.keys.push(k);
            proof {
                let f = |q: VisitKey| q@;
                assert(self.keys@ == before.push(k));
                assert(self.keys@.map_values(f) =~= before.map_values(f).push(k@));
                before.map_values(f).lemma_push_to_set_commute(k@);
                assert(self.keys@.map_values(f).to_set() =~= before.map_values(f).to_set().insert(
                    k@,
                ));
                assert forall|i: int, j: int| 0 <= i < j < self.keys@.len() implies #[trigger] self
                    .keys@[i]@ != #[trigger] self.keys@[j]@ by {
                    if j == self.keys@.len() - 1 {
                        assert(before.map_values(f)[i] == self.keys@[i]@);
                    }
                }
            }
            false
        }
    }
}

} // verus!
