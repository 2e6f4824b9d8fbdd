use vstd::prelude::*;

verus! {

/// Bit `i` of `b` counted from the left: `i == 0` is the most significant
/// bit, `i == 7` the least significant one.
pub open spec fn bit_at(b: u8, i: u8) -> bool {
    (b >> ((7 - i) as u8)) & 1u8 == 1u8
}

/// Two bytes with the same eight bits are equal.
pub proof fn lemma_bits_determine_byte(a: u8, b: u8)
    requires
        forall|i: u8| i < 8 ==> bit_at(a, i) == bit_at(b, i),
    ensures
        a == b,
{
    assert(bit_at(a, 0) == bit_at(b, 0));
    assert(bit_at(a, 1) == bit_at(b, 1));
    assert(bit_at(a, 2) == bit_at(b, 2));
    assert(bit_at(a, 3) == bit_at(b, 3));
    assert(bit_at(a, 4) == bit_at(b, 4));
    assert(bit_at(a, 5) == bit_at(b, 5));
    assert(bit_at(a, 6) == bit_at(b, 6));
    assert(bit_at(a, 7) == bit_at(b, 7));
    assert(a == b) by (bit_vector)
        requires
            (a >> 7u8) & 1u8 == 1u8 <==> (b >> 7u8) & 1u8 == 1u8,
            (a >> 6u8) & 1u8 == 1u8 <==> (b >> 6u8) & 1u8 == 1u8,
            (a >> 5u8) & 1u8 == 1u8 <==> (b >> 5u8) & 1u8 == 1u8,
            (a >> 4u8) & 1u8 == 1u8 <==> (b >> 4u8) & 1u8 == 1u8,
            (a >> 3u8) & 1u8 == 1u8 <==> (b >> 3u8) & 1u8 == 1u8,
            (a >> 2u8) & 1u8 == 1u8 <==> (b >> 2u8) & 1u8 == 1u8,
            (a >> 1u8) & 1u8 == 1u8 <==> (b >> 1u8) & 1u8 == 1u8,
            (a >> 0u8) & 1u8 == 1u8 <==> (b >> 0u8) & 1u8 == 1u8,
    ;
}

/// Setting bit `i` of `r` changes that bit alone.
proof fn lemma_set_bit(r: u8, i: u8, j: u8)
    requires
        i < 8,
        j < 8,
    ensures
        bit_at(r | (1u8 << ((7 - i) as u8)), j) == (bit_at(r, j) || i == j),
{
    assert(bit_at(r | (1u8 << ((7 - i) as u8)), j) == (bit_at(r, j) || i == j)) by (bit_vector)
        requires
            i < 8,
            j < 8,
    ;
}

/// Each bit of `a ^ b` is set exactly when the bits of `a` and `b` differ.
pub proof fn lemma_xor_bits(a: u8, b: u8)
    ensures
        forall|i: u8| i < 8 ==> #[trigger] bit_at(a ^ b, i) == (bit_at(a, i) != bit_at(b, i)),
{
    assert forall|i: u8| i < 8 implies #[trigger] bit_at(a ^ b, i) == (bit_at(a, i) != bit_at(
        b,
        i,
    )) by {
        assert(bit_at(a ^ b, i) == (bit_at(a, i) != bit_at(b, i))) by (bit_vector)
            requires
                i < 8,
        ;
    }
}

/// `a & b` is nonzero exactly when `a` and `b` share a set bit.
pub proof fn lemma_and_nonzero(a: u8, b: u8)
    ensures
        (a & b != 0) <==> exists|i: u8| i < 8 && #[trigger] bit_at(a, i) && bit_at(b, i),
{
    assert forall|i: u8| i < 8 implies #[trigger] bit_at(a & b, i) == (bit_at(a, i) && bit_at(
        b,
        i,
    )) by {
        assert(bit_at(a & b, i) == (bit_at(a, i) && bit_at(b, i))) by (bit_vector)
            requires
                i < 8,
        ;
    }
    assert forall|i: u8| i < 8 implies !#[trigger] bit_at(0u8, i) by {
        assert(!bit_at(0u8, i)) by (bit_vector)
            requires
                i < 8,
        ;
    }
    if a & b != 0 {
        if forall|i: u8| i < 8 ==> !#[trigger] bit_at(a & b, i) {
            lemma_bits_determine_byte(a & b, 0u8);
        }
        let i = choose|i: u8| i < 8 && #[trigger] bit_at(a & b, i);
        assert(bit_at(a, i) && bit_at(b, i));
    } else {
        assert forall|i: u8| i < 8 implies !(#[trigger] bit_at(a, i) && bit_at(b, i)) by {
            assert(bit_at(a & b, i) == bit_at(0u8, i));
        }
    }
}

/// A byte seen as eight pixels, the most significant bit first.
pub trait BitArray<T> {
    fn to_bit_array(&self) -> [bool; 8];

    fn from_bit_array(bits: [bool; 8]) -> T;
}

impl BitArray<u8> for u8 {
    /// The eight bits of the byte, the most significant first.
    fn to_bit_array(&self) -> (r: [bool; 8])
        ensures
            forall|i: u8| i < 8 ==> r[i as int] == bit_at(*self, i),
    {
        let mut result: [bool; 8] = [false; 8];
        let mut i: u8 = 0;
        while i < 8
            invariant
                i <= 8,
                forall|j: u8| j < i ==> result[j as int] == bit_at(*self, j),
            decreases 8 - i,
        {
            result[i as usize] = (*self >> (7 - i)) & 1 == 1;
            i = i + 1;
        }
        result
    }

    /// The byte whose bits, the most significant first, are `bits`.
    fn from_bit_array(bits: [bool; 8]) -> (r: u8)
        ensures
            forall|i: u8| i < 8 ==> bit_at(r, i) == bits[i as int],
    {
        let mut result: u8 = 0;
        let mut i: u8 = 0;
        assert forall|j: u8| j < 8 implies !bit_at(0u8, j) by {
            assert(!bit_at(0u8, j)) by (bit_vector)
                requires
                    j < 8,
            ;
        }
        while i < 8
            invariant
                i <= 8,
                forall|j: u8| j < i ==> bit_at(result, j) == bits[j as int],
                forall|j: u8| i <= j < 8 ==> !bit_at(result, j),
            decreases 8 - i,
        {
            let ghost prev = result;
            if bits[i as usize] {
                let mask: u8 = 1 << (7 - i);
                result = result | mask;
                proof {
                    assert forall|j: u8| j < 8 implies bit_at(result, j) == (bit_at(prev, j) || i
                        == j) by {
                        lemma_set_bit(prev, i, j);
                    }
                }
            }
            i = i + 1;
        }
        result
    }
}

} // verus!
