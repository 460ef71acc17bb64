use vstd::prelude::*;

verus! {

/// Bit `j` (counting from the least significant) of `m` is set.
pub open spec fn bit_at(m: u16, j: u16) -> bool {
    (m >> j) & 1u16 == 1u16
}

pub proof fn lemma_bit_shl(a: u16, d: u16, j: u16)
    requires
        d < 16,
        j < 16,
    ensures
        bit_at(a << d, j) == (j >= d && bit_at(a, (j - d) as u16)),
{
    if j >= d {
        let i = (j - d) as u16;
        assert(((a << d) >> j) & 1u16 == (a >> i) & 1u16) by (bit_vector)
            requires
                d < 16,
                j < 16,
                i + d == j,
        ;
    } else {
        assert(((a << d) >> j) & 1u16 == 0u16) by (bit_vector)
            requires
                d < 16,
                j < d,
        ;
    }
}

pub proof fn lemma_bit_shr(a: u16, d: u16, j: u16)
    requires
        d < 16,
        j < 16,
    ensures
        bit_at(a >> d, j) == (j + d < 16 && bit_at(a, (j + d) as u16)),
{
    if j + d < 16 {
        let i = (j + d) as u16;
        assert(((a >> d) >> j) & 1u16 == (a >> i) & 1u16) by (bit_vector)
            requires
                d < 16,
                j < 16,
                i == j + d,
        ;
    } else {
        assert(((a >> d) >> j) & 1u16 == 0u16) by (bit_vector)
            requires
                d < 16,
                j < 16,
                j + d >= 16,
        ;
    }
}

pub proof fn lemma_bit_and(a: u16, b: u16, j: u16)
    requires
        j < 16,
    ensures
        bit_at(a & b, j) == (bit_at(a, j) && bit_at(b, j)),
        a & b <= b,
        a & b <= a,
{
    assert(((a & b) >> j) & 1u16 == 1u16 <==> ((a >> j) & 1u16 == 1u16 && (b >> j) & 1u16
        == 1u16)) by (bit_vector);
    assert(a & b <= b) by (bit_vector);
    assert(a & b <= a) by (bit_vector);
}

/// `1 << k` is at least 1 when `k < 16`.
pub proof fn lemma_pow_pos(k: u16)
    requires
        k < 16,
    ensures
        1u16 << k >= 1,
{
    assert(1u16 << k >= 1) by (bit_vector)
        requires
            k < 16,
    ;
}

/// The mask of the `k` lowest bits.
pub proof fn lemma_low_mask(m: u16, k: u16, j: u16)
    requires
        k < 16,
        j < 16,
        m + 1 == 1u16 << k,
    ensures
        bit_at(m, j) == (j < k),
{
    assert((((m >> j) & 1u16) == 1u16) <==> j < k) by (bit_vector)
        requires
            k < 16,
            j < 16,
            m + 1 == 1u16 << k,
    ;
}

pub proof fn lemma_clear_bit(a: u16, i: u16, j: u16)
    requires
        i < 16,
        j < 16,
    ensures
        bit_at(a & !(1u16 << i), j) == (bit_at(a, j) && j != i),
        a & !(1u16 << i) <= a,
{
    assert((((a & !(1u16 << i)) >> j) & 1u16 == 1u16) <==> ((a >> j) & 1u16 == 1u16 && j != i))
        by (bit_vector)
        requires
            i < 16,
            j < 16,
    ;
    assert(a & !(1u16 << i) <= a) by (bit_vector);
}

/// A mask below 1024 uses only the ten lowest bits.
pub proof fn lemma_below_1024(a: u16, j: u16)
    requires
        a < 1024,
        10 <= j < 16,
    ensures
        !bit_at(a, j),
{
    assert((a >> j) & 1u16 == 0u16) by (bit_vector)
        requires
            a < 1024,
            10 <= j < 16,
    ;
}

pub proof fn lemma_shr_le(a: u16, d: u16)
    ensures
        a >> d <= a,
{
    assert(a >> d <= a) by (bit_vector);
}

pub proof fn lemma_one_bit(j: u16)
    requires
        j < 16,
    ensures
        bit_at(1u16, j) == (j == 0),
{
    assert(((1u16 >> j) & 1u16 == 1u16) <==> j == 0) by (bit_vector)
        requires
            j < 16,
    ;
}

pub proof fn lemma_zero_bits(j: u16)
    ensures
        !bit_at(0u16, j),
{
    assert((0u16 >> j) & 1u16 == 0u16) by (bit_vector);
}

/// A mask is nonzero exactly when some bit is set.
pub proof fn lemma_nonzero_has_bit(a: u16)
    requires
        a != 0,
    ensures
        exists|j: u16| j < 16 && #[trigger] bit_at(a, j),
{
    let t = a.trailing_zeros();
    broadcast use vstd::std_specs::bits::axiom_u16_trailing_zeros;

    assert(bit_at(a, t as u16));
}

/// Two masks with the same bits are equal.
pub proof fn lemma_bits_ext(a: u16, b: u16)
    requires
        forall|j: u16| j < 16 ==> #[trigger] bit_at(a, j) == bit_at(b, j),
    ensures
        a == b,
{
    assert(bit_at(a, 0) == bit_at(b, 0));
    assert(bit_at(a, 1) == bit_at(b, 1));
    assert(bit_at(a, 2) == bit_at(b, 2));
    assert(bit_at(a, 3) == bit_at(b, 3));
    assert(bit_at(a, 4) == bit_at(b, 4));
    assert(bit_at(a, 5) == bit_at(b, 5));
    assert(bit_at(a, 6) == bit_at(b, 6));
    assert(bit_at(a, 7) == bit_at(b, 7));
    assert(bit_at(a, 8) == bit_at(b, 8));
    assert(bit_at(a, 9) == bit_at(b, 9));
    assert(bit_at(a, 10) == bit_at(b, 10));
    assert(bit_at(a, 11) == bit_at(b, 11));
    assert(bit_at(a, 12) == bit_at(b, 12));
    assert(bit_at(a, 13) == bit_at(b, 13));
    assert(bit_at(a, 14) == bit_at(b, 14));
    assert(bit_at(a, 15) == bit_at(b, 15));
    assert(a == b) by (bit_vector)
        requires
            ((a >> 0u16) & 1u16 == 1u16) == ((b >> 0u16) & 1u16 == 1u16),
            ((a >> 1u16) & 1u16 == 1u16) == ((b >> 1u16) & 1u16 == 1u16),
            ((a >> 2u16) & 1u16 == 1u16) == ((b >> 2u16) & 1u16 == 1u16),
            ((a >> 3u16) & 1u16 == 1u16) == ((b >> 3u16) & 1u16 == 1u16),
            ((a >> 4u16) & 1u16 == 1u16) == ((b >> 4u16) & 1u16 == 1u16),
            ((a >> 5u16) & 1u16 == 1u16) == ((b >> 5u16) & 1u16 == 1u16),
            ((a >> 6u16) & 1u16 == 1u16) == ((b >> 6u16) & 1u16 == 1u16),
            ((a >> 7u16) & 1u16 == 1u16) == ((b >> 7u16) & 1u16 == 1u16),
            ((a >> 8u16) & 1u16 == 1u16) == ((b >> 8u16) & 1u16 == 1u16),
            ((a >> 9u16) & 1u16 == 1u16) == ((b >> 9u16) & 1u16 == 1u16),
            ((a >> 10u16) & 1u16 == 1u16) == ((b >> 10u16) & 1u16 == 1u16),
            ((a >> 11u16) & 1u16 == 1u16) == ((b >> 11u16) & 1u16 == 1u16),
            ((a >> 12u16) & 1u16 == 1u16) == ((b >> 12u16) & 1u16 == 1u16),
            ((a >> 13u16) & 1u16 == 1u16) == ((b >> 13u16) & 1u16 == 1u16),
            ((a >> 14u16) & 1u16 == 1u16) == ((b >> 14u16) & 1u16 == 1u16),
            ((a >> 15u16) & 1u16 == 1u16) == ((b >> 15u16) & 1u16 == 1u16),
    ;
}

} // verus!

verus! {

/// The set bits of `m` at position `from` and above, in increasing order.
pub open spec fn bit_list(m: u16, from: int) -> Seq<int>
    decreases 16 - from,
{
    if from < 0 || from >= 16 {
        Seq::empty()
    } else {
        let rest = bit_list(m, from + 1);
        if bit_at(m, from as u16) {
            seq![from] + rest
        } else {
            rest
        }
    }
}

pub proof fn lemma_bit_list(m: u16, from: int)
    requires
        0 <= from <= 16,
    ensures
        forall|x: int| #[trigger] bit_list(m, from).contains(x) <==> (from <= x < 16 && bit_at(m, x as u16)),
        forall|i: int, j: int|
            0 <= i < j < bit_list(m, from).len() ==> bit_list(m, from)[i] < bit_list(m, from)[j],
        forall|i: int|
            0 <= i < bit_list(m, from).len() ==> from <= #[trigger] bit_list(m, from)[i] < 16,
        bit_list(m, from).len() <= 16 - from,
    decreases 16 - from,
{
    if from < 16 {
        lemma_bit_list(m, from + 1);
        let rest = bit_list(m, from + 1);
        if bit_at(m, from as u16) {
            let l = seq![from] + rest;
            assert forall|x: int| #[trigger] l.contains(x) <==> (from <= x < 16 && bit_at(m, x as u16)) by {
                if x == from {
                    assert(l[0] == x);
                    assert(l.contains(x));
                } else {
                    if l.contains(x) {
                        let k = choose|k: int| 0 <= k < l.len() && l[k] == x;
                        assert(k != 0);
                        assert(rest[k - 1] == x);
                        assert(rest.contains(x));
                    }
                    if rest.contains(x) {
                        let k = choose|k: int| 0 <= k < rest.len() && rest[k] == x;
                        assert(l[k + 1] == x);
                        assert(l.contains(x));
                    }
                }
            }
            assert forall|i: int, j: int| 0 <= i < j < l.len() implies l[i] < l[j] by {
                if i == 0 {
                    assert(l[j] == rest[j - 1]);
                } else {
                    assert(l[i] == rest[i - 1]);
                    assert(l[j] == rest[j - 1]);
                }
            }
            assert forall|i: int| 0 <= i < l.len() implies from <= #[trigger] l[i] < 16 by {
                if i > 0 {
                    assert(l[i] == rest[i - 1]);
                }
            }
        }
    } else {
        assert(bit_list(m, from) =~= Seq::<int>::empty());
    }
}

/// `(1 << x) & m` is nonzero exactly when bit `x` of `m` is set.
pub proof fn lemma_single_bit_and(m: u16, x: u16)
    requires
        x < 16,
    ensures
        ((1u16 << x) & m > 0) == bit_at(m, x),
{
    assert(((1u16 << x) & m > 0) == ((m >> x) & 1u16 == 1u16)) by (bit_vector)
        requires
            x < 16,
    ;
}

} // verus!
