use vstd::prelude::*;

use crate::layers::has_layer;

verus! {

/// The most variants that a derived layer enum may have.
pub const MAX_DERIVED_LAYERS: usize = 16;

/// The bits that the derive of `PhysicsLayer` gives an enum: one bit per variant, in
/// declaration order, and the bits of all layers.
#[derive(Debug, PartialEq, Eq)]
pub struct DerivedLayerBits {
    /// `variant_bits[i]` is the bits of the `i`-th variant.
    pub variant_bits: Vec<u32>,
    /// The bits returned by `all_bits`.
    pub all_bits: u32,
}

/// The bits of the variant at `index`: the single bit at that position.
pub open spec fn variant_layer_bits(index: int) -> u32 {
    (1u32 << (index as u32)) as u32
}

/// The bits of all layers of an enum with `count` variants: the low `count` bits, and
/// bit 0 alone for an enum without variants.
pub open spec fn all_layer_bits_of(count: int) -> u32 {
    if count == 0 {
        1u32
    } else {
        ((1u32 << (count as u32)) - 1) as u32
    }
}

/// Computes the bits that the derive of `PhysicsLayer` assigns to an enum with
/// `variant_count` field-less variants, which must be at most `MAX_DERIVED_LAYERS`
/// (the derive refuses more).
pub fn derive_layer_bits(variant_count: usize) -> (bits: DerivedLayerBits)
    requires
        variant_count <= MAX_DERIVED_LAYERS,
    ensures
        bits.variant_bits@.len() == variant_count,
        forall|i: int|
            0 <= i < variant_count ==> #[trigger] bits.variant_bits@[i] == variant_layer_bits(i),
        bits.all_bits == all_layer_bits_of(variant_count as int),
{
    let mut variant_bits: Vec<u32> = Vec::new();
    let mut index: usize = 0;
    while index < variant_count
        invariant
            variant_count <= 16,
            index <= variant_count,
            variant_bits@.len() == index,
            forall|i: int| 0 <= i < index ==> #[trigger] variant_bits@[i] == variant_layer_bits(i),
        decreases variant_count - index,
    {
        let shift: u32 = index as u32;
        variant_bits.push(1u32 << shift);
        index = index + 1;
    }
    let mut all: u32 = 1;
    let mut filled: usize = 1;
    assert(1u32 == ((1u32 << 1u32) - 1) as u32) by (bit_vector);
    while filled < variant_count
        invariant
            variant_count <= 16,
            1 <= filled,
            filled <= variant_count || filled == 1,
            all == ((1u32 << (filled as u32)) - 1) as u32,
        decreases variant_count - filled,
    {
        let k: u32 = filled as u32;
        assert(((((1u32 << k) - 1) as u32) << 1u32) + 1 == ((1u32 << ((k + 1) as u32)) - 1) as u32)
            by (bit_vector)
            requires
                k < 16,
        ;
        assert((((1u32 << k) - 1) as u32) << 1u32 < 0xffff_ffffu32) by (bit_vector)
            requires
                k < 16,
        ;
        all = all << 1;
        all = all + 1;
        filled = filled + 1;
    }
    proof {
        if variant_count == 0 {
            assert(all == 1u32) by (bit_vector)
                requires
                    all == ((1u32 << 1u32) - 1) as u32,
            ;
        }
    }
    DerivedLayerBits { variant_bits, all_bits: all }
}

/// The index of the variant whose bits are `bits`, among the `variant_count` layers
/// of a derived enum; nothing when no variant has these bits.
pub fn variant_of_bits(bits: u32, variant_count: usize) -> (index: Option<usize>)
    requires
        variant_count <= MAX_DERIVED_LAYERS,
    ensures
        match index {
            Some(i) => i < variant_count && bits == variant_layer_bits(i as int),
            None => forall|i: int|
                0 <= i < variant_count ==> bits != #[trigger] variant_layer_bits(i),
        },
{
    let mut index: usize = 0;
    while index < variant_count
        invariant
            index <= variant_count,
            variant_count <= 16,
            forall|j: int| 0 <= j < index ==> bits != #[trigger] variant_layer_bits(j),
        decreases variant_count - index,
    {
        let shift: u32 = index as u32;
        if (1u32 << shift) == bits {
            return Some(index);
        }
        index = index + 1;
    }
    None
}

/// Reading a layer back from its bits gives the layer: two variants of a derived
/// enum with the same bits are the same variant.
pub proof fn lemma_bits_identify_variant(count: int, i: int, j: int)
    requires
        count <= 16,
        0 <= i < count,
        0 <= j < count,
        variant_layer_bits(i) == variant_layer_bits(j),
    ensures
        i == j,
{
    let a = i as u32;
    let b = j as u32;
    assert((1u32 << a) as u32 == (1u32 << b) as u32 ==> a == b) by (bit_vector)
        requires
            a < 16,
            b < 16,
    ;
}

/// The derived layers are single, pairwise distinct bits, and the bits of all layers
/// hold exactly the bits of the variants.
pub proof fn lemma_derived_layers_partition(count: int)
    requires
        1 <= count <= 16,
    ensures
        forall|i: int, j: int|
            0 <= i < count && 0 <= j < count && i != j ==> (#[trigger] variant_layer_bits(i)
                & #[trigger] variant_layer_bits(j)) == 0u32,
        forall|i: int|
            0 <= i < count ==> (#[trigger] variant_layer_bits(i) & all_layer_bits_of(count))
                == variant_layer_bits(i),
        forall|b: u32| #[trigger] has_layer(all_layer_bits_of(count), b) <==> b < count,
{
    assert forall|i: int, j: int|
        0 <= i < count && 0 <= j < count && i != j implies (#[trigger] variant_layer_bits(i)
        & #[trigger] variant_layer_bits(j)) == 0u32 by {
        let a = i as u32;
        let b = j as u32;
        assert(((1u32 << a) as u32 & (1u32 << b) as u32) == 0u32) by (bit_vector)
            requires
                a < 16,
                b < 16,
                a != b,
        ;
    }
    assert forall|i: int| 0 <= i < count implies (#[trigger] variant_layer_bits(i)
        & all_layer_bits_of(count)) == variant_layer_bits(i) by {
        let a = i as u32;
        let n = count as u32;
        assert(((1u32 << a) as u32 & ((1u32 << n) - 1) as u32) == (1u32 << a) as u32) by (bit_vector)
            requires
                a < n,
                n <= 16,
        ;
    }
    assert forall|b: u32| #[trigger] has_layer(all_layer_bits_of(count), b) <==> b < count by {
        let n = count as u32;
        assert(b < 32 && ((((1u32 << n) - 1) as u32) >> b) & 1u32 == 1u32 <==> b < n) by (bit_vector)
            requires
                1 <= n <= 16,
        ;
    }
}

} // verus!
