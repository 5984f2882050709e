//! Account addresses: 32 raw bytes, ordered lexicographically.
use vstd::prelude::*;

verus! {

/// The address of an account (a mint, a configuration account, a signer).
#[derive(Clone, Copy, Debug, PartialEq, Eq)]
pub struct Key(pub [u8; 32]);

impl View for Key {
    type V = Seq<u8>;

    open spec fn view(&self) -> Seq<u8> {
        self.0@
    }
}

/// `a` and `b` agree on their first `i` bytes.
pub open spec fn same_prefix(a: Seq<u8>, b: Seq<u8>, i: int) -> bool {
    forall|j: int| 0 <= j < i ==> #[trigger] a[j] == b[j]
}

/// `a` comes strictly before `b` in lexicographic byte order: at the first
/// byte where they differ, `a` holds the smaller byte.
pub open spec fn key_lt(a: Seq<u8>, b: Seq<u8>) -> bool {
    exists|i: int|
        0 <= i < a.len() && i < b.len() && same_prefix(a, b, i) && #[trigger] a[i] < b[i]
}

impl Key {
    /// Whether `self` comes strictly before `other` in byte order.
    pub fn lt(&self, other: &Key) -> (r: bool)
        ensures
            r == key_lt(self@, other@),
    {
        let mut i: usize = 0;
        while i < 32
            invariant
                0 <= i <= 32,
                self@.len() == 32,
                other@.len() == 32,
                same_prefix(self@, other@, i as int),
            decreases 32 - i,
        {
            let x = self.0[i];
            let y = other.0[i];
            if x < y {
                assert(self@[i as int] < other@[i as int]);
                return true;
            }
            if x > y {
                assert forall|k: int|
                    0 <= k < 32 && same_prefix(self@, other@, k) implies !(#[trigger] self@[k]
                    < other@[k]) by {
                    if k < i {
                        assert(self@[k] == other@[k]);
                    } else if k > i {
                        assert(self@[i as int] == other@[i as int]);
                    }
                }
                return false;
            }
            assert(self@[i as int] == other@[i as int]);
            i = i + 1;
        }
        assert(self@ =~= other@);
        false
    }
}

/// Two byte strings of one length that differ have a first differing byte.
proof fn lemma_first_difference(a: Seq<u8>, b: Seq<u8>, k: int)
    requires
        a.len() == b.len(),
        0 <= k <= a.len(),
        exists|j: int| 0 <= j < k && a[j] != b[j],
    ensures
        exists|i: int| 0 <= i < k && same_prefix(a, b, i) && #[trigger] a[i] != b[i],
    decreases k,
{
    if exists|j: int| 0 <= j < k - 1 && a[j] != b[j] {
        lemma_first_difference(a, b, k - 1);
        let i = choose|i: int| 0 <= i < k - 1 && same_prefix(a, b, i) && #[trigger] a[i] != b[i];
        assert(0 <= i < k && same_prefix(a, b, i) && a[i] != b[i]);
    } else {
        assert(a[k - 1] != b[k - 1]);
        assert(same_prefix(a, b, k - 1));
    }
}

/// Byte order on keys is a strict total order: no key precedes itself, and
/// of two different keys exactly one precedes the other.
pub proof fn lemma_key_order_total(a: Key, b: Key)
    ensures
        !key_lt(a@, a@),
        a@ != b@ ==> (key_lt(a@, b@) <==> !key_lt(b@, a@)),
        a@ == b@ ==> !key_lt(a@, b@) && !key_lt(b@, a@),
{
    assert(a@.len() == 32 && b@.len() == 32);
    if a@ != b@ {
        assert(exists|j: int| 0 <= j < 32 && a@[j] != b@[j]) by {
            if forall|j: int| 0 <= j < 32 ==> a@[j] == b@[j] {
                assert(a@ =~= b@);
            }
        }
        lemma_first_difference(a@, b@, 32);
        let i = choose|i: int| 0 <= i < 32 && same_prefix(a@, b@, i) && #[trigger] a@[i] != b@[i];
        if key_lt(a@, b@) && key_lt(b@, a@) {
            let p = choose|p: int|
                0 <= p < a@.len() && p < b@.len() && same_prefix(a@, b@, p) && #[trigger] a@[p]
                    < b@[p];
            let q = choose|q: int|
                0 <= q < b@.len() && q < a@.len() && same_prefix(b@, a@, q) && #[trigger] b@[q]
                    < a@[q];
            if p < q {
                assert(b@[p] == a@[p]);
            } else if q < p {
                assert(a@[q] == b@[q]);
            }
        }
        if !key_lt(a@, b@) && !key_lt(b@, a@) {
            assert(same_prefix(b@, a@, i));
            if a@[i] < b@[i] {
                assert(key_lt(a@, b@));
            } else {
                assert(b@[i] < a@[i]);
                assert(key_lt(b@, a@));
            }
        }
    }
}

} // verus!
