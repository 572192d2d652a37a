//! The order in which entry names are listed: by the bytes of their UTF-8
//! encoding, compared from the left.

use vstd::prelude::*;
use vstd::utf8::*;

verus! {

/// `a` and `b` agree on their first `k` bytes, and at byte `k` either `a` has
/// ended or `a` holds the smaller byte.
pub open spec fn le_at(a: Seq<u8>, b: Seq<u8>, k: int) -> bool {
    &&& 0 <= k <= a.len()
    &&& k <= b.len()
    &&& forall|i: int| 0 <= i < k ==> a[i] == b[i]
    &&& (k == a.len() || (k < b.len() && a[k] < b[k]))
}

/// `a` comes before `b`, or equals it, in lexicographic order.
pub open spec fn bytes_le(a: Seq<u8>, b: Seq<u8>) -> bool {
    exists|k: int| le_at(a, b, k)
}

/// The name `a` is listed before the name `b`, or is the same name.
pub open spec fn name_le(a: Seq<char>, b: Seq<char>) -> bool {
    bytes_le(encode_utf8(a), encode_utf8(b))
}

/// Every pair of positions in `names` is in listing order.
pub open spec fn is_sorted(names: Seq<Seq<char>>) -> bool {
    forall|i: int, j: int| 0 <= i < j < names.len() ==> name_le(names[i], names[j])
}

/// The listing order as a relation, for the lemmas of `vstd` that take one.
pub open spec fn name_order() -> spec_fn(Seq<char>, Seq<char>) -> bool {
    |a: Seq<char>, b: Seq<char>| name_le(a, b)
}

/// Every byte string comes before or equals itself.
pub proof fn lemma_bytes_le_reflexive(a: Seq<u8>)
    ensures
        bytes_le(a, a),
{
    assert(le_at(a, a, a.len() as int));
}

/// Of two byte strings one comes before the other, or they are equal.
pub proof fn lemma_bytes_le_total(a: Seq<u8>, b: Seq<u8>)
    ensures
        bytes_le(a, b) || bytes_le(b, a),
{
    lemma_total_from(a, b, 0);
}

/// The same of two byte strings that agree on their first `k` bytes.
proof fn lemma_total_from(a: Seq<u8>, b: Seq<u8>, k: int)
    requires
        0 <= k <= a.len(),
        k <= b.len(),
        forall|i: int| 0 <= i < k ==> a[i] == b[i],
    ensures
        bytes_le(a, b) || bytes_le(b, a),
    decreases a.len() - k,
{
    if k == a.len() {
        assert(le_at(a, b, k));
    } else if k == b.len() {
        assert(le_at(b, a, k));
    } else if a[k] < b[k] {
        assert(le_at(a, b, k));
    } else if b[k] < a[k] {
        assert(le_at(b, a, k));
    } else {
        lemma_total_from(a, b, k + 1);
    }
}

/// What comes before something that comes before `c` comes before `c`.
pub proof fn lemma_bytes_le_transitive(a: Seq<u8>, b: Seq<u8>, c: Seq<u8>)
    requires
        bytes_le(a, b),
        bytes_le(b, c),
    ensures
        bytes_le(a, c),
{
    let k1 = choose|k: int| le_at(a, b, k);
    let k2 = choose|k: int| le_at(b, c, k);
    if k1 <= k2 {
        assert(le_at(a, c, k1));
    } else {
        assert(a[k2] == b[k2]);
        assert(le_at(a, c, k2));
    }
}

/// Two byte strings that come before each other are the same string.
pub proof fn lemma_bytes_le_antisymmetric(a: Seq<u8>, b: Seq<u8>)
    requires
        bytes_le(a, b),
        bytes_le(b, a),
    ensures
        a == b,
{
    let k1 = choose|k: int| le_at(a, b, k);
    let k2 = choose|k: int| le_at(b, a, k);
    if k1 < a.len() {
        if k2 < k1 {
            assert(a[k2] == b[k2]);
        } else if k2 > k1 {
            assert(b[k1] == a[k1]);
        }
        assert(false);
    }
    if k2 < b.len() {
        if k1 < k2 {
            assert(a[k1] == b[k1]);
        } else if k1 > k2 {
            assert(a[k2] == b[k2]);
        }
        assert(false);
    }
    assert(a =~= b);
}

/// Two names with the same bytes are the same name.
pub proof fn lemma_name_bytes_injective(a: Seq<char>, b: Seq<char>)
    requires
        encode_utf8(a) == encode_utf8(b),
    ensures
        a == b,
{
    encode_utf8_decode_utf8(a);
    encode_utf8_decode_utf8(b);
}

/// Of two names one is listed before the other, or they are the same name.
pub proof fn lemma_name_le_total(a: Seq<char>, b: Seq<char>)
    ensures
        name_le(a, b) || name_le(b, a),
{
    lemma_bytes_le_total(encode_utf8(a), encode_utf8(b));
}

/// A name listed before one that is listed before `c` is listed before `c`.
pub proof fn lemma_name_le_transitive(a: Seq<char>, b: Seq<char>, c: Seq<char>)
    requires
        name_le(a, b),
        name_le(b, c),
    ensures
        name_le(a, c),
{
    lemma_bytes_le_transitive(encode_utf8(a), encode_utf8(b), encode_utf8(c));
}

/// The listing order is a total order on names: reflexive, antisymmetric,
/// transitive, and any two names are comparable.
pub proof fn lemma_name_order_total()
    ensures
        vstd::relations::total_ordering(name_order()),
{
    let r = name_order();
    assert forall|x: Seq<char>| #[trigger] r(x, x) by {
        lemma_bytes_le_reflexive(encode_utf8(x));
    }
    assert forall|x: Seq<char>, y: Seq<char>| #[trigger] r(x, y) && #[trigger] r(y, x) implies x
        == y by {
        lemma_bytes_le_antisymmetric(encode_utf8(x), encode_utf8(y));
        lemma_name_bytes_injective(x, y);
    }
    assert forall|x: Seq<char>, y: Seq<char>, z: Seq<char>| #[trigger]
        r(x, y) && #[trigger] r(y, z) implies r(x, z) by {
        lemma_bytes_le_transitive(encode_utf8(x), encode_utf8(y), encode_utf8(z));
    }
    assert forall|x: Seq<char>, y: Seq<char>| #[trigger] r(x, y) || #[trigger] r(y, x) by {
        lemma_bytes_le_total(encode_utf8(x), encode_utf8(y));
    }
}

/// Two sorted listings of the same names, each as often as in the other, are
/// the same listing: the order leaves nothing open.
pub proof fn lemma_sorted_listing_unique(x: Seq<Seq<char>>, y: Seq<Seq<char>>)
    requires
        is_sorted(x),
        is_sorted(y),
        x.to_multiset() == y.to_multiset(),
    ensures
        x == y,
{
    lemma_name_order_total();
    assert(vstd::relations::sorted_by(x, name_order()));
    assert(vstd::relations::sorted_by(y, name_order()));
    vstd::seq_lib::lemma_sorted_unique(x, y, name_order());
}

/// Where two byte strings agree on their first `k` bytes and one of them
/// ends there, or they differ there, byte `k` decides their order.
proof fn lemma_differ_at(a: Seq<u8>, b: Seq<u8>, k: int)
    requires
        0 <= k <= a.len(),
        k <= b.len(),
        forall|i: int| 0 <= i < k ==> a[i] == b[i],
    ensures
        k == a.len() ==> bytes_le(a, b),
        k < a.len() && k == b.len() ==> !bytes_le(a, b),
        k < a.len() && k < b.len() && a[k] != b[k] ==> (bytes_le(a, b) <==> a[k] < b[k]),
{
    if k == a.len() {
        assert(le_at(a, b, k));
    } else if k == b.len() {
        assert forall|j: int| !le_at(a, b, j) by {
            if le_at(a, b, j) {
                if j < k {
                    assert(a[j] == b[j]);
                }
            }
        }
    } else if a[k] != b[k] {
        if a[k] < b[k] {
            assert(le_at(a, b, k));
        } else {
            assert forall|j: int| !le_at(a, b, j) by {
                if le_at(a, b, j) {
                    if j < k {
                        assert(a[j] == b[j]);
                    } else if j > k {
                        assert(a[k] == b[k]);
                    }
                }
            }
        }
    }
}

/// Compares two names by their bytes.
pub fn name_precedes(a: &str, b: &str) -> (r: bool)
    ensures
        r == name_le(a@, b@),
{
    let x = a.as_bytes();
    let y = b.as_bytes();
    let mut i: usize = 0;
    while i < x.len() && i < y.len() && x[i] == y[i]
        invariant
            i <= x.len(),
            i <= y.len(),
            forall|j: int| 0 <= j < i ==> x@[j] == y@[j],
        decreases x.len() - i,
    {
        i += 1;
    }
    proof {
        lemma_differ_at(x@, y@, i as int);
    }
    if i == x.len() {
        true
    } else if i == y.len() {
        false
    } else {
        x[i] < y[i]
    }
}

} // verus!
