//! Verified helpers over byte strings.
//!
//! URL components are held as byte strings, so prefix, suffix, substring
//! and case-folding questions about them reduce to the functions here.

use vstd::prelude::*;

verus! {

/// One byte, ASCII-lowercased.
pub open spec fn lower_byte(b: u8) -> u8 {
    if ('A' as u8) <= b && b <= ('Z' as u8) {
        (b + 32) as u8
    } else {
        b
    }
}

/// A byte string, ASCII-lowercased.
pub open spec fn lower_bytes(s: Seq<u8>) -> Seq<u8> {
    s.map_values(|b: u8| lower_byte(b))
}

/// `needle` occurs as a contiguous run somewhere in `hay`.
pub open spec fn contains_bytes(hay: Seq<u8>, needle: Seq<u8>) -> bool {
    exists|i: int|
        0 <= i && i + needle.len() <= hay.len() && #[trigger] hay.subrange(i, i + needle.len())
            == needle
}

/// Whether the bytes of `a` and `b` are equal.
pub fn eq_bytes(a: &[u8], b: &[u8]) -> (r: bool)
    ensures
        r == (a@ == b@),
{
    if a.len() != b.len() {
        assert(a@ != b@) by {
            assert(a@.len() != b@.len());
        }
        return false;
    }
    let mut i: usize = 0;
    while i < a.len()
        invariant
            0 <= i <= a.len(),
            a.len() == b.len(),
            forall|j: int| 0 <= j < i ==> a@[j] == b@[j],
        decreases a.len() - i,
    {
        if a[i] != b[i] {
            return false;
        }
        i += 1;
    }
    assert(a@ =~= b@);
    true
}

/// Whether `p` is a prefix of `v`.
pub fn is_prefix(p: &[u8], v: &[u8]) -> (r: bool)
    ensures
        r == p@.is_prefix_of(v@),
{
    if p.len() > v.len() {
        return false;
    }
    let mut i: usize = 0;
    while i < p.len()
        invariant
            0 <= i <= p.len(),
            p.len() <= v.len(),
            forall|j: int| 0 <= j < i ==> p@[j] == v@[j],
        decreases p.len() - i,
    {
        if p[i] != v[i] {
            assert(!p@.is_prefix_of(v@)) by {
                assert(p@[i as int] != v@.subrange(0, p@.len() as int)[i as int]);
            }
            return false;
        }
        i += 1;
    }
    assert(p@ =~= v@.subrange(0, p@.len() as int));
    true
}

/// Whether `s` is a suffix of `v`.
pub fn is_suffix(s: &[u8], v: &[u8]) -> (r: bool)
    ensures
        r == s@.is_suffix_of(v@),
{
    if s.len() > v.len() {
        return false;
    }
    let offset: usize = v.len() - s.len();
    let mut i: usize = 0;
    while i < s.len()
        invariant
            0 <= i <= s.len(),
            s.len() <= v.len(),
            offset == v.len() - s.len(),
            forall|j: int| 0 <= j < i ==> s@[j] == v@[offset + j],
        decreases s.len() - i,
    {
        if s[i] != v[offset + i] {
            assert(!s@.is_suffix_of(v@)) by {
                assert(s@[i as int] != v@.subrange(
                    v@.len() - s@.len(),
                    v@.len() as int,
                )[i as int]);
            }
            return false;
        }
        i += 1;
    }
    assert(s@ =~= v@.subrange(v@.len() - s@.len(), v@.len() as int));
    true
}

/// Whether `needle` occurs anywhere in `hay`.
pub fn contains_sub(hay: &[u8], needle: &[u8]) -> (r: bool)
    ensures
        r == contains_bytes(hay@, needle@),
{
    if needle.len() > hay.len() {
        return false;
    }
    let last: usize = hay.len() - needle.len();
    let mut start: usize = 0;
    loop
        invariant
            0 <= start <= last,
            last == hay.len() - needle.len(),
            needle.len() <= hay.len(),
            forall|i: int|
                0 <= i < start ==> #[trigger] hay@.subrange(i, i + needle@.len()) != needle@,
        decreases last - start,
    {
        let mut i: usize = 0;
        let mut matched: bool = true;
        while i < needle.len()
            invariant
                0 <= i <= needle.len(),
                0 <= start <= last,
                last == hay.len() - needle.len(),
                needle.len() <= hay.len(),
                matched ==> forall|j: int| 0 <= j < i ==> hay@[start + j] == needle@[j],
                !matched ==> hay@.subrange(start as int, start + needle@.len()) != needle@,
            decreases needle.len() - i,
        {
            if hay[start + i] != needle[i] {
                assert(hay@.subrange(start as int, start + needle@.len()) != needle@) by {
                    assert(hay@.subrange(start as int, start + needle@.len())[i as int]
                        != needle@[i as int]);
                }
                matched = false;
                i = needle.len();
            } else {
                i += 1;
            }
        }
        if matched {
            assert(hay@.subrange(start as int, start + needle@.len()) =~= needle@);
            return true;
        }
        if start == last {
            assert(!contains_bytes(hay@, needle@));
            return false;
        }
        start += 1;
    }
}

/// A copy of `v` with every ASCII upper-case letter lowered.
pub fn to_ascii_lower(v: &[u8]) -> (r: Vec<u8>)
    ensures
        r@ == lower_bytes(v@),
{
    let mut out: Vec<u8> = Vec::new();
    let mut i: usize = 0;
    while i < v.len()
        invariant
            0 <= i <= v.len(),
            out@ =~= lower_bytes(v@.take(i as int)),
        decreases v.len() - i,
    {
        let b = v[i];
        if ('A' as u8) <= b && b <= ('Z' as u8) {
            out.push(b + 32);
        } else {
            out.push(b);
        }
        assert(lower_bytes(v@.take(i + 1)) =~= lower_bytes(v@.take(i as int)).push(
            lower_byte(v@[i as int]),
        ));
        i += 1;
    }
    assert(v@.take(v@.len() as int) =~= v@);
    out
}

} // verus!
