//! Sets of small numbers held in the bits of a word.

use vstd::prelude::*;
use vstd::std_specs::bits::axiom_u64_leading_zeros;

verus! {

/// Whether number `p` is in the set.
pub open spec fn holds(set: u128, p: int) -> bool {
    0 <= p < 128 && (set >> (p as u128)) & 1 == 1
}

/// Whether `top` is the greatest number in the set, or 0 where the set is empty.
pub open spec fn is_top(set: u128, top: int) -> bool {
    ||| top == 0 && forall|q: int| !holds(set, q)
    ||| holds(set, top) && forall|q: int| q > top ==> !holds(set, q)
}

/// The empty set holds nothing.
pub proof fn lemma_empty()
    ensures
        forall|q: int| !holds(0, q),
{
    assert forall|q: int| !holds(0, q) by {
        let b = q as u128;
        assert((0u128 >> b) & 1 == 0) by (bit_vector);
    }
}

/// Inserting `p` adds `p` and nothing else.
pub proof fn lemma_insert(set: u128, p: u128)
    requires
        p < 128,
    ensures
        forall|q: int| #[trigger] holds(set | (1u128 << p), q) == (q == p || holds(set, q)),
{
    assert forall|q: int| #[trigger] holds(set | (1u128 << p), q) == (q == p || holds(set, q)) by {
        if 0 <= q < 128 {
            let b = q as u128;
            assert(((set | (1u128 << p)) >> b) & 1 == 1 <==> (b == p || (set >> b) & 1 == 1))
                by (bit_vector)
                requires
                    b < 128,
                    p < 128,
            ;
        }
    }
}

/// Removing `p` removes `p` and nothing else.
pub proof fn lemma_remove(set: u128, p: u128)
    requires
        p < 128,
    ensures
        forall|q: int| #[trigger] holds(set & !(1u128 << p), q) == (q != p && holds(set, q)),
{
    assert forall|q: int| #[trigger] holds(set & !(1u128 << p), q) == (q != p && holds(set, q)) by {
        if 0 <= q < 128 {
            let b = q as u128;
            assert(((set & !(1u128 << p)) >> b) & 1 == 1 <==> (b != p && (set >> b) & 1 == 1))
                by (bit_vector)
                requires
                    b < 128,
                    p < 128,
            ;
        }
    }
}

/// Masking keeps the numbers below `p` and nothing else.
pub proof fn lemma_below(set: u128, p: u128)
    requires
        p < 128,
    ensures
        1u128 << p >= 1,
        forall|q: int| #[trigger] holds(set & ((1u128 << p) - 1) as u128, q) == (q < p && holds(set, q)),
{
    assert(1u128 << p >= 1) by (bit_vector)
        requires
            p < 128,
    ;
    let mask = ((1u128 << p) - 1) as u128;
    assert forall|q: int| #[trigger] holds(set & mask, q) == (q < p && holds(set, q)) by {
        if 0 <= q < 128 {
            let b = q as u128;
            assert(((set & mask) >> b) & 1 == 1 <==> (b < p && (set >> b) & 1 == 1))
                by (bit_vector)
                requires
                    b < 128,
                    p < 128,
                    mask == ((1u128 << p) - 1) as u128,
            ;
        }
    }
}

proof fn lemma_same_below(a: u128, b: u128, n: u128)
    requires
        n < 128,
        forall|q: int| #[trigger] holds(a, q) == holds(b, q),
    ensures
        a & ((1u128 << n) - 1) as u128 == b & ((1u128 << n) - 1) as u128,
    decreases n,
{
    if n == 0 {
        assert(a & ((1u128 << 0u128) - 1) as u128 == b & ((1u128 << 0u128) - 1) as u128)
            by (bit_vector);
    } else {
        let m = (n - 1) as u128;
        lemma_same_below(a, b, m);
        assert(holds(a, m as int) == holds(b, m as int));
        assert(a & ((1u128 << n) - 1) as u128 == b & ((1u128 << n) - 1) as u128) by (bit_vector)
            requires
                0 < n < 128,
                m == n - 1,
                a & ((1u128 << m) - 1) as u128 == b & ((1u128 << m) - 1) as u128,
                ((a >> m) & 1 == 1) == ((b >> m) & 1 == 1),
        ;
    }
}

/// Sets that hold the same numbers are the same.
pub proof fn lemma_same_set(a: u128, b: u128)
    requires
        forall|q: int| #[trigger] holds(a, q) == holds(b, q),
    ensures
        a == b,
{
    lemma_same_below(a, b, 127);
    assert(holds(a, 127) == holds(b, 127));
    assert(a == b) by (bit_vector)
        requires
            a & ((1u128 << 127u128) - 1) as u128 == b & ((1u128 << 127u128) - 1) as u128,
            ((a >> 127u128) & 1 == 1) == ((b >> 127u128) & 1 == 1),
    ;
}

/// The greatest number in a set that is not empty.
pub fn highest(set: u128) -> (r: i64)
    requires
        set != 0,
    ensures
        holds(set, r as int),
        is_top(set, r as int),
{
    let high: u64 = (set >> 64u128) as u64;
    if high != 0 {
        let z: u32 = high.leading_zeros();
        proof {
            axiom_u64_leading_zeros(high);
            let t = (63 - z) as u64;
            assert((high >> t) & 1u64 != 0u64);
            let u = (64 + t) as u128;
            assert((set >> u) & 1 == 1) by (bit_vector)
                requires
                    u == 64 + t,
                    high == (set >> 64u128) as u64,
                    t < 64,
                    (high >> t) & 1u64 != 0u64,
            ;
            assert forall|q: int| q > 64 + t implies !holds(set, q) by {
                if q < 128 {
                    let j = (q - 64) as u64;
                    assert((high >> j) & 1u64 == 0u64);
                    let b = q as u128;
                    assert((set >> b) & 1 == 0) by (bit_vector)
                        requires
                            b == 64 + j,
                            high == (set >> 64u128) as u64,
                            j < 64,
                            (high >> j) & 1u64 == 0u64,
                    ;
                }
            }
        }
        127 - z as i64
    } else {
        let low: u64 = set as u64;
        assert(low != 0 && set >> 64u128 == 0) by (bit_vector)
            requires
                high == (set >> 64u128) as u64,
                high == 0,
                low == set as u64,
                set != 0,
        ;
        let z: u32 = low.leading_zeros();
        proof {
            axiom_u64_leading_zeros(low);
            let t = (63 - z) as u64;
            assert((low >> t) & 1u64 != 0u64);
            assert((set >> (t as u128)) & 1 == 1) by (bit_vector)
                requires
                    low == set as u64,
                    t < 64,
                    (low >> t) & 1u64 != 0u64,
            ;
            assert forall|q: int| q > t implies !holds(set, q) by {
                if q < 64 {
                    let j = q as u64;
                    assert((low >> j) & 1u64 == 0u64);
                    assert((set >> (j as u128)) & 1 == 0) by (bit_vector)
                        requires
                            low == set as u64,
                            j < 64,
                            (low >> j) & 1u64 == 0u64,
                    ;
                } else if q < 128 {
                    let b = q as u128;
                    assert((set >> b) & 1 == 0) by (bit_vector)
                        requires
                            set >> 64u128 == 0,
                            64 <= b < 128,
                    ;
                }
            }
        }
        63 - z as i64
    }
}

} // verus!
