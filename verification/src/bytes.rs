//! Helpers for the opaque binary identifiers that key the cache and the
//! record store: byte-for-byte equality and membership in a list of keys.

use vstd::prelude::*;

verus! {

/// The views of a list of byte vectors, element by element.
pub open spec fn views_of_bytes(l: Seq<Vec<u8>>) -> Seq<Seq<u8>> {
    l.map_values(|v: Vec<u8>| v@)
}

/// Whether `x` occurs in `l`, compared as byte sequences.
pub open spec fn has_bytes(l: Seq<Seq<u8>>, x: Seq<u8>) -> bool {
    exists|i: int| 0 <= i < l.len() && l[i] == x
}

/// Byte-for-byte equality of two byte vectors.
pub fn bytes_eq(a: &Vec<u8>, b: &Vec<u8>) -> (r: bool)
    ensures
        r == (a@ == b@),
{
    if a.len() != b.len() {
        assert(a@ != b@) by {
            assert(a@.len() != b@.len());
        }
        return false;
    }
    let n = a.len();
    let mut i: usize = 0;
    while i < n
        invariant
            n == a@.len() == b@.len(),
            0 <= i <= n,
            forall|j: int| 0 <= j < i ==> a@[j] == b@[j],
        decreases n - i,
    {
        if a[i] != b[i] {
            return false;
        }
        i += 1;
    }
    assert(a@ =~= b@);
    true
}

/// Whether `x` occurs in `l`, compared as byte sequences.
pub fn contains_bytes(l: &Vec<Vec<u8>>, x: &Vec<u8>) -> (r: bool)
    ensures
        r == has_bytes(views_of_bytes(l@), x@),
{
    let n = l.len();
    let mut i: usize = 0;
    while i < n
        invariant
            n == l@.len(),
            0 <= i <= n,
            forall|j: int| 0 <= j < i ==> views_of_bytes(l@)[j] != x@,
        decreases n - i,
    {
        if bytes_eq(&l[i], x) {
            assert(views_of_bytes(l@)[i as int] == x@);
            return true;
        }
        i += 1;
    }
    false
}

/// Copy a byte vector; the copy has the same bytes.
pub fn clone_bytes(v: &Vec<u8>) -> (r: Vec<u8>)
    ensures
        r@ == v@,
{
    let n = v.len();
    let mut r: Vec<u8> = Vec::new();
    let mut i: usize = 0;
    while i < n
        invariant
            n == v@.len(),
            0 <= i <= n,
            r@ =~= v@.subrange(0, i as int),
        decreases n - i,
    {
        r.push(v[i]);
        assert(r@ =~= v@.subrange(0, i + 1 as int));
        i += 1;
    }
    assert(r@ =~= v@);
    r
}

} // verus!
