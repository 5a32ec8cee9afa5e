//! The order of ids.
//!
//! Ids are ordered as their UTF-8 bytes are, lexicographically. This is the
//! order in which the entries of one snapshot are queued.

use vstd::prelude::*;
use vstd::string::StringSliceAdditionalSpecFns;
use vstd::utf8::{encode_utf8, encode_utf8_decode_utf8};

verus! {

/// `a` comes before `b` in lexicographic order: at the first place where they
/// differ `a` has the smaller byte, or `a` ends first.
pub open spec fn bytes_lt(a: Seq<u8>, b: Seq<u8>) -> bool {
    exists|k: int| #[trigger] differ_at(a, b, k) && (k == a.len() || a[k] < b[k])
}

/// `a` and `b` agree on their first `k` bytes, and `k` is a place of `b` at
/// which `a` ends or holds another byte.
pub open spec fn differ_at(a: Seq<u8>, b: Seq<u8>, k: int) -> bool {
    &&& 0 <= k <= a.len()
    &&& k < b.len()
    &&& forall|j: int| 0 <= j < k ==> a[j] == b[j]
    &&& k < a.len() ==> a[k] != b[k]
}

/// The id `a` comes before the id `b`.
pub open spec fn id_lt(a: Seq<char>, b: Seq<char>) -> bool {
    bytes_lt(encode_utf8(a), encode_utf8(b))
}

/// No sequence comes before itself.
pub proof fn lemma_bytes_lt_irreflexive(a: Seq<u8>)
    ensures
        !bytes_lt(a, a),
{
}

/// Of two sequences that differ, exactly one comes before the other.
pub proof fn lemma_bytes_lt_total(a: Seq<u8>, b: Seq<u8>)
    ensures
        a != b ==> (bytes_lt(a, b) <==> !bytes_lt(b, a)),
        a == b ==> !bytes_lt(a, b) && !bytes_lt(b, a),
{
    if a != b {
        let k = first_difference(a, b, 0);
        lemma_first_difference(a, b, 0);
        if k < b.len() && (k == a.len() || a[k] < b[k]) {
            assert(differ_at(a, b, k));
            assert forall|m: int| #[trigger] differ_at(b, a, m) implies !(m == b.len() || b[m] < a[m]) by {
                if m < k {
                } else if m > k {
                }
            }
        } else {
            assert(differ_at(b, a, k));
            assert forall|m: int| #[trigger] differ_at(a, b, m) implies !(m == a.len() || a[m] < b[m]) by {
                if m < k {
                } else if m > k {
                }
            }
        }
    }
}

/// The first place from `i` on at which `a` and `b` differ or one of them ends.
pub open spec fn first_difference(a: Seq<u8>, b: Seq<u8>, i: int) -> int
    decreases a.len() - i,
{
    if 0 <= i < a.len() && i < b.len() && a[i] == b[i] {
        first_difference(a, b, i + 1)
    } else {
        i
    }
}

proof fn lemma_first_difference(a: Seq<u8>, b: Seq<u8>, i: int)
    requires
        0 <= i <= a.len(),
        i <= b.len(),
        forall|j: int| 0 <= j < i ==> a[j] == b[j],
    ensures
        i <= first_difference(a, b, i) <= a.len(),
        first_difference(a, b, i) <= b.len(),
        forall|j: int| 0 <= j < first_difference(a, b, i) ==> a[j] == b[j],
        first_difference(a, b, i) < a.len() && first_difference(a, b, i) < b.len() ==> a[first_difference(a, b, i)] != b[first_difference(a, b, i)],
        a != b ==> first_difference(a, b, i) < a.len() || first_difference(a, b, i) < b.len(),
    decreases a.len() - i,
{
    if i < a.len() && i < b.len() && a[i] == b[i] {
        lemma_first_difference(a, b, i + 1);
    } else {
        if i == a.len() && i == b.len() {
            assert(a =~= b);
        }
    }
}

/// The order is transitive.
pub proof fn lemma_bytes_lt_transitive(a: Seq<u8>, b: Seq<u8>, c: Seq<u8>)
    requires
        bytes_lt(a, b),
        bytes_lt(b, c),
    ensures
        bytes_lt(a, c),
{
    let k = choose|k: int| #[trigger] differ_at(a, b, k) && (k == a.len() || a[k] < b[k]);
    let m = choose|m: int| #[trigger] differ_at(b, c, m) && (m == b.len() || b[m] < c[m]);
    let n = if k <= m { k } else { m };
    assert(differ_at(a, c, n));
}

/// Two ids that neither come before the other are the same id.
pub proof fn lemma_id_lt_total(a: Seq<char>, b: Seq<char>)
    ensures
        a != b ==> (id_lt(a, b) <==> !id_lt(b, a)),
        a == b ==> !id_lt(a, b) && !id_lt(b, a),
{
    encode_utf8_decode_utf8(a);
    encode_utf8_decode_utf8(b);
    lemma_bytes_lt_total(encode_utf8(a), encode_utf8(b));
}

/// The order of ids is transitive.
pub proof fn lemma_id_lt_transitive(a: Seq<char>, b: Seq<char>, c: Seq<char>)
    requires
        id_lt(a, b),
        id_lt(b, c),
    ensures
        id_lt(a, c),
{
    lemma_bytes_lt_transitive(encode_utf8(a), encode_utf8(b), encode_utf8(c));
}

/// How two ids stand to each other.
#[derive(Debug, Clone, Copy, PartialEq, Eq, Structural)]
pub enum IdOrder {
    Before,
    Same,
    After,
}

/// Compares two ids byte by byte.
pub fn compare_ids(a: &str, b: &str) -> (r: IdOrder)
    ensures
        r == IdOrder::Before <==> id_lt(a@, b@),
        r == IdOrder::Same <==> a@ == b@,
        r == IdOrder::After <==> id_lt(b@, a@),
{
    let x = a.as_bytes();
    let y = b.as_bytes();
    let mut i: usize = 0;
    while i < x.len() && i < y.len() && x[i] == y[i]
        invariant
            i <= x@.len(),
            i <= y@.len(),
            forall|j: int| 0 <= j < i ==> x@[j] == y@[j],
        decreases x@.len() - i,
    {
        i += 1;
    }
    proof {
        lemma_id_lt_total(a@, b@);
        encode_utf8_decode_utf8(a@);
        encode_utf8_decode_utf8(b@);
    }
    if i == x.len() && i == y.len() {
        assert(x@ =~= y@);
        IdOrder::Same
    } else if i == x.len() || (i < y.len() && x[i] < y[i]) {
        assert(differ_at(x@, y@, i as int));
        IdOrder::Before
    } else {
        assert(differ_at(y@, x@, i as int));
        IdOrder::After
    }
}

/// Whether two ids are the same.
pub fn same_id(a: &str, b: &str) -> (r: bool)
    ensures
        r == (a@ == b@),
{
    match compare_ids(a, b) {
        IdOrder::Same => true,
        _ => false,
    }
}

} // verus!
