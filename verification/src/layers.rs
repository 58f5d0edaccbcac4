use vstd::prelude::*;

verus! {

/// Whether layer number `index` (a bit position) is set in `bits`.
pub open spec fn has_layer(bits: u32, index: u32) -> bool {
    index < 32 && (bits >> index) & 1u32 == 1u32
}

/// Bitwise union of the bits of every layer of `layers`.
pub open spec fn union_of_layers<L: PhysicsLayer>(layers: Seq<L>) -> u32
    decreases layers.len(),
{
    if layers.len() == 0 {
        0u32
    } else {
        union_of_layers(layers.drop_last()) | layers.last().layer_bits()
    }
}

/// Describes a collision layer.
///
/// A layer is a set of bits of a `u32`: usually a single bit per layer, as the
/// derive of this trait assigns them (see `crate::layer_derive`).
pub trait PhysicsLayer: Sized {
    /// The bits that stand for this layer.
    spec fn layer_bits(&self) -> u32;

    /// The bits of all the layers of this kind.
    spec fn all_layer_bits() -> u32;

    /// Returns the bits of this layer.
    fn to_bits(&self) -> (bits: u32)
        ensures
            bits == self.layer_bits(),
    ;

    /// Returns the bits of all the layers of this kind.
    fn all_bits() -> (bits: u32)
        ensures
            bits == Self::all_layer_bits(),
    ;
}

impl<T: PhysicsLayer> PhysicsLayer for &T {
    open spec fn layer_bits(&self) -> u32 {
        (**self).layer_bits()
    }

    open spec fn all_layer_bits() -> u32 {
        T::all_layer_bits()
    }

    fn to_bits(&self) -> (bits: u32) {
        T::to_bits(*self)
    }

    fn all_bits() -> (bits: u32) {
        T::all_bits()
    }
}

/// Component that defines the collision layers of a collision shape.
///
/// It holds two collections of layers: the "groups" (the layers the shape is in) and
/// the "masks" (the layers the shape looks at). Two shapes A and B interact iff
///  * there is a layer in the groups of A that is also in the masks of B, and
///  * there is a layer in the groups of B that is also in the masks of A.
///
/// An entity without this component is considered as having all layers in its
/// groups and masks, and interacts with everything.
#[derive(Clone, Copy, Debug, PartialEq, Eq, Structural)]
pub struct CollisionLayers {
    groups: u32,
    masks: u32,
}

/// Whether shapes with the layers `a` and `b` interact.
pub open spec fn interacts(a: CollisionLayers, b: CollisionLayers) -> bool {
    (a.groups() & b.masks()) != 0u32 && (b.groups() & a.masks()) != 0u32
}

impl CollisionLayers {
    /// The bits of the groups.
    pub closed spec fn groups(self) -> u32 {
        self.groups
    }

    /// The bits of the masks.
    pub closed spec fn masks(self) -> u32 {
        self.masks
    }

    /// The layers with the given groups and masks, in specifications.
    pub closed spec fn with_bits(groups: u32, masks: u32) -> CollisionLayers {
        CollisionLayers { groups, masks }
    }

    /// Two values are equal exactly when their groups and masks are, and `with_bits`
    /// gives the layers with the given groups and masks.
    pub proof fn lemma_eq(a: CollisionLayers, b: CollisionLayers, groups: u32, masks: u32)
        ensures
            (a == b) == (a.groups() == b.groups() && a.masks() == b.masks()),
            CollisionLayers::with_bits(groups, masks).groups() == groups,
            CollisionLayers::with_bits(groups, masks).masks() == masks,
    {
    }

    /// A configuration with a single group and a single mask.
    ///
    /// More groups and masks may be added with `with_group` and `with_mask`.
    pub fn new<L: PhysicsLayer>(group: L, mask: L) -> (layers: Self)
        ensures
            layers.groups() == group.layer_bits(),
            layers.masks() == mask.layer_bits(),
    {
        Self::from_bits(group.to_bits(), mask.to_bits())
    }

    /// Contains all groups and masks: interacts with everything, except what
    /// interacts with nothing.
    pub fn all<L: PhysicsLayer>() -> (layers: Self)
        ensures
            layers.groups() == L::all_layer_bits(),
            layers.masks() == L::all_layer_bits(),
    {
        Self::from_bits(L::all_bits(), L::all_bits())
    }

    /// Contains all groups and no masks: interacts with nothing until masks are added.
    pub fn all_groups<L: PhysicsLayer>() -> (layers: Self)
        ensures
            layers.groups() == L::all_layer_bits(),
            layers.masks() == 0,
    {
        Self::from_bits(L::all_bits(), 0)
    }

    /// Contains no groups and all masks: interacts with nothing until groups are added.
    pub fn all_masks<L: PhysicsLayer>() -> (layers: Self)
        ensures
            layers.groups() == 0,
            layers.masks() == L::all_layer_bits(),
    {
        Self::from_bits(0, L::all_bits())
    }

    /// Contains no groups and no masks: interacts with nothing.
    pub fn none() -> (layers: Self)
        ensures
            layers.groups() == 0,
            layers.masks() == 0,
    {
        Self::from_bits(0, 0)
    }

    /// The layers whose groups and masks are the given bits.
    pub fn from_bits(groups: u32, masks: u32) -> (layers: Self)
        ensures
            layers == CollisionLayers::with_bits(groups, masks),
            layers.groups() == groups,
            layers.masks() == masks,
    {
        Self { groups, masks }
    }

    /// Whether a shape with these layers interacts with a shape with the `other` layers.
    pub fn interacts_with(self, other: Self) -> (result: bool)
        ensures
            result == interacts(self, other),
    {
        (self.groups & other.masks) != 0 && (other.groups & self.masks) != 0
    }

    /// Whether the given layer shares a bit with the groups.
    pub fn contains_group(self, layer: impl PhysicsLayer) -> (result: bool)
        ensures
            result == ((self.groups() & layer.layer_bits()) != 0u32),
    {
        (self.groups & layer.to_bits()) != 0
    }

    /// Adds the given layer to the groups.
    pub fn with_group(self, layer: impl PhysicsLayer) -> (layers: Self)
        ensures
            layers.groups() == self.groups() | layer.layer_bits(),
            layers.masks() == self.masks(),
    {
        let mut result = self;
        result.groups = result.groups | layer.to_bits();
        result
    }

    /// Adds the given layers to the groups.
    pub fn with_groups<L: PhysicsLayer>(self, layers: &[L]) -> (result: Self)
        ensures
            result.groups() == self.groups() | union_of_layers(layers@),
            result.masks() == self.masks(),
    {
        let mut result = self;
        let mut i: usize = 0;
        proof {
            assert(layers@.take(0) =~= Seq::<L>::empty());
            lemma_or_zero(self.groups());
        }
        while i < layers.len()
            invariant
                i <= layers@.len(),
                result.groups() == self.groups() | union_of_layers(layers@.take(i as int)),
                result.masks() == self.masks(),
            decreases layers@.len() - i,
        {
            let bits = layers[i].to_bits();
            proof {
                lemma_union_of_layers_step(layers@, i as int);
                lemma_or_assoc(self.groups(), union_of_layers(layers@.take(i as int)), bits);
            }
            result.groups = result.groups | bits;
            i = i + 1;
        }
        assert(layers@.take(layers@.len() as int) =~= layers@);
        result
    }

    /// Removes the given layer from the groups.
    pub fn without_group(self, layer: impl PhysicsLayer) -> (layers: Self)
        ensures
            layers.groups() == self.groups() & !layer.layer_bits(),
            layers.masks() == self.masks(),
    {
        let mut result = self;
        result.groups = result.groups & !layer.to_bits();
        result
    }

    /// Whether the given layer shares a bit with the masks.
    pub fn contains_mask(self, layer: impl PhysicsLayer) -> (result: bool)
        ensures
            result == ((self.masks() & layer.layer_bits()) != 0u32),
    {
        (self.masks & layer.to_bits()) != 0
    }

    /// Adds the given layer to the masks.
    pub fn with_mask(self, layer: impl PhysicsLayer) -> (layers: Self)
        ensures
            layers.groups() == self.groups(),
            layers.masks() == self.masks() | layer.layer_bits(),
    {
        let mut result = self;
        result.masks = result.masks | layer.to_bits();
        result
    }

    /// Adds the given layers to the masks.
    pub fn with_masks<L: PhysicsLayer>(self, layers: &[L]) -> (result: Self)
        ensures
            result.groups() == self.groups(),
            result.masks() == self.masks() | union_of_layers(layers@),
    {
        let mut result = self;
        let mut i: usize = 0;
        proof {
            assert(layers@.take(0) =~= Seq::<L>::empty());
            lemma_or_zero(self.masks());
        }
        while i < layers.len()
            invariant
                i <= layers@.len(),
                result.masks() == self.masks() | union_of_layers(layers@.take(i as int)),
                result.groups() == self.groups(),
            decreases layers@.len() - i,
        {
            let bits = layers[i].to_bits();
            proof {
                lemma_union_of_layers_step(layers@, i as int);
                lemma_or_assoc(self.masks(), union_of_layers(layers@.take(i as int)), bits);
            }
            result.masks = result.masks | bits;
            i = i + 1;
        }
        assert(layers@.take(layers@.len() as int) =~= layers@);
        result
    }

    /// Removes the given layer from the masks.
    pub fn without_mask(self, layer: impl PhysicsLayer) -> (layers: Self)
        ensures
            layers.groups() == self.groups(),
            layers.masks() == self.masks() & !layer.layer_bits(),
    {
        let mut result = self;
        result.masks = result.masks & !layer.to_bits();
        result
    }

    /// The bits of the groups.
    pub fn groups_bits(self) -> (bits: u32)
        ensures
            bits == self.groups(),
    {
        self.groups
    }

    /// The bits of the masks.
    pub fn masks_bits(self) -> (bits: u32)
        ensures
            bits == self.masks(),
    {
        self.masks
    }
}

impl Default for CollisionLayers {
    /// All groups and all masks: interacts with everything that has at least one
    /// group and one mask.
    fn default() -> (layers: Self)
        ensures
            layers.groups() == 0xffff_ffffu32,
            layers.masks() == 0xffff_ffffu32,
    {
        Self { groups: 0xffff_ffff, masks: 0xffff_ffff }
    }
}

proof fn lemma_union_of_layers_step<L: PhysicsLayer>(layers: Seq<L>, i: int)
    requires
        0 <= i < layers.len(),
    ensures
        union_of_layers(layers.take(i + 1)) == union_of_layers(layers.take(i)) | layers[i].layer_bits(),
{
    assert(layers.take(i + 1).drop_last() =~= layers.take(i));
}

proof fn lemma_or_zero(a: u32)
    ensures
        a | 0u32 == a,
{
    assert(a | 0u32 == a) by (bit_vector);
}

proof fn lemma_or_assoc(a: u32, b: u32, c: u32)
    ensures
        (a | b) | c == a | (b | c),
{
    assert((a | b) | c == a | (b | c)) by (bit_vector);
}

proof fn lemma_layer_of_and(x: u32, y: u32, i: u32)
    ensures
        has_layer(x & y, i) == (has_layer(x, i) && has_layer(y, i)),
{
    if i < 32 {
        assert(((x & y) >> i) & 1u32 == 1u32 <==> ((x >> i) & 1u32 == 1u32 && (y >> i) & 1u32
            == 1u32)) by (bit_vector);
    }
}

proof fn lemma_layer_implies_nonzero(z: u32, i: u32)
    requires
        has_layer(z, i),
    ensures
        z != 0u32,
{
    assert(i < 32 && (z >> i) & 1u32 == 1u32 ==> z != 0u32) by (bit_vector);
}

proof fn lemma_nonzero_has_layer_from(z: u32, n: u32)
    requires
        n < 32,
        (z >> n) != 0u32,
    ensures
        exists|i: u32| n <= i && #[trigger] has_layer(z, i),
    decreases 32 - n,
{
    if (z >> n) & 1u32 == 1u32 {
        assert(has_layer(z, n));
    } else {
        let m: u32 = (n + 1) as u32;
        assert(n < 31 && (z >> m) != 0u32) by (bit_vector)
            requires
                n < 32,
                m == n + 1,
                (z >> n) != 0u32,
                (z >> n) & 1u32 != 1u32,
        ;
        lemma_nonzero_has_layer_from(z, m);
    }
}

/// Two sets of bits share a bit exactly when their intersection is not empty.
proof fn lemma_and_nonzero_iff_common_layer(x: u32, y: u32)
    ensures
        ((x & y) != 0u32) == (exists|i: u32| has_layer(x, i) && has_layer(y, i)),
{
    let z = x & y;
    if z != 0u32 {
        assert(z >> 0u32 == z) by (bit_vector);
        lemma_nonzero_has_layer_from(z, 0);
        let i = choose|i: u32| 0 <= i && #[trigger] has_layer(z, i);
        lemma_layer_of_and(x, y, i);
    }
    if exists|i: u32| has_layer(x, i) && has_layer(y, i) {
        let i = choose|i: u32| has_layer(x, i) && has_layer(y, i);
        lemma_layer_of_and(x, y, i);
        lemma_layer_implies_nonzero(z, i);
    }
}

/// Interaction is symmetric: A interacts with B exactly when B interacts with A.
pub proof fn lemma_interacts_symmetric(a: CollisionLayers, b: CollisionLayers)
    ensures
        interacts(a, b) == interacts(b, a),
{
}

/// Two shapes interact exactly when a layer in the groups of each is in the masks of
/// the other.
pub proof fn lemma_interacts_iff_shared_layers(a: CollisionLayers, b: CollisionLayers)
    ensures
        interacts(a, b) == ((exists|i: u32| has_layer(a.groups(), i) && has_layer(b.masks(), i))
            && (exists|j: u32| has_layer(b.groups(), j) && has_layer(a.masks(), j))),
{
    lemma_and_nonzero_iff_common_layer(a.groups(), b.masks());
    lemma_and_nonzero_iff_common_layer(b.groups(), a.masks());
}

/// Layers with no group or no mask interact with nothing, in either direction.
pub proof fn lemma_empty_interacts_with_nothing(a: CollisionLayers, b: CollisionLayers)
    requires
        a.groups() == 0 || a.masks() == 0,
    ensures
        !interacts(a, b),
        !interacts(b, a),
{
    let (g, m, bg, bm) = (a.groups(), a.masks(), b.groups(), b.masks());
    assert(g == 0u32 || m == 0u32 ==> (g & bm) == 0u32 || (bg & m) == 0u32) by (bit_vector);
    assert(g == 0u32 || m == 0u32 ==> (bm & g) == 0u32 || (m & bg) == 0u32) by (bit_vector);
}

/// Layers that have the same non-empty bits in their groups and masks (such as
/// those of `CollisionLayers::all` or `CollisionLayers::default`) interact with
/// themselves and with each other.
pub proof fn lemma_full_layers_interact(a: CollisionLayers, b: CollisionLayers)
    requires
        a.groups() == a.masks(),
        b.groups() == b.masks(),
        a.groups() == b.groups(),
        a.groups() != 0,
    ensures
        interacts(a, b),
{
    let g = a.groups();
    assert(g != 0u32 ==> (g & g) != 0u32) by (bit_vector);
}

/// Layers that hold every bit in their groups and masks (such as the default ones)
/// interact with exactly those layers that have at least one group and one mask.
pub proof fn lemma_full_layers_interact_with_any_nonempty(a: CollisionLayers, b: CollisionLayers)
    requires
        a.groups() == 0xffff_ffffu32,
        a.masks() == 0xffff_ffffu32,
    ensures
        interacts(a, b) == (b.groups() != 0 && b.masks() != 0),
        interacts(b, a) == (b.groups() != 0 && b.masks() != 0),
{
    let (g, m) = (b.groups(), b.masks());
    assert((0xffff_ffffu32 & m) == m && (g & 0xffff_ffffu32) == g) by (bit_vector);
    assert((m & 0xffff_ffffu32) == m && (0xffff_ffffu32 & g) == g) by (bit_vector);
}

/// After adding a non-empty layer, the layer is contained; after removing a layer,
/// it is not contained. This holds of groups and masks alike.
pub proof fn lemma_added_layer_contained(before: u32, layer: u32)
    ensures
        layer != 0u32 ==> ((before | layer) & layer) != 0u32,
        ((before & !layer) & layer) == 0u32,
        forall|i: u32| has_layer(layer, i) ==> #[trigger] has_layer(before | layer, i),
        forall|i: u32| has_layer(layer, i) ==> !#[trigger] has_layer(before & !layer, i),
        forall|i: u32|
            !has_layer(layer, i) ==> (#[trigger] has_layer(before | layer, i) == has_layer(
                before,
                i,
            ) && has_layer(before & !layer, i) == has_layer(before, i)),
{
    assert(layer != 0u32 ==> ((before | layer) & layer) != 0u32) by (bit_vector);
    assert(((before & !layer) & layer) == 0u32) by (bit_vector);
    assert forall|i: u32| has_layer(layer, i) implies #[trigger] has_layer(before | layer, i) by {
        assert(i < 32 && (layer >> i) & 1u32 == 1u32 ==> ((before | layer) >> i) & 1u32 == 1u32)
            by (bit_vector);
    }
    assert forall|i: u32| has_layer(layer, i) implies !#[trigger] has_layer(before & !layer, i) by {
        assert(i < 32 && (layer >> i) & 1u32 == 1u32 ==> ((before & !layer) >> i) & 1u32 != 1u32)
            by (bit_vector);
    }
    assert forall|i: u32| !has_layer(layer, i) implies (#[trigger] has_layer(before | layer, i)
        == has_layer(before, i) && has_layer(before & !layer, i) == has_layer(before, i)) by {
        if i < 32 {
            assert((layer >> i) & 1u32 != 1u32 ==> ((((before | layer) >> i) & 1u32 == 1u32) == ((
            before >> i) & 1u32 == 1u32) && (((before & !layer) >> i) & 1u32 == 1u32) == ((before
                >> i) & 1u32 == 1u32))) by (bit_vector);
        }
    }
}

/// A reference to a layer stands for the layer it refers to: it has the same bits,
/// and the same bits of all layers, so adding, removing or testing `&layer` does what
/// `layer` does.
pub proof fn lemma_reference_is_its_layer<T: PhysicsLayer>(layer: T, layers: CollisionLayers)
    ensures
        <&T as PhysicsLayer>::layer_bits(&&layer) == layer.layer_bits(),
        <&T as PhysicsLayer>::all_layer_bits() == T::all_layer_bits(),
        (layers.groups() | <&T as PhysicsLayer>::layer_bits(&&layer)) == (layers.groups()
            | layer.layer_bits()),
        (layers.masks() & <&T as PhysicsLayer>::layer_bits(&&layer)) == (layers.masks()
            & layer.layer_bits()),
{
}

} // verus!
