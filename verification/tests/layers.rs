use heron::{CollisionLayers, PhysicsLayer};

enum TestLayer {
    One,
    Two,
}

impl PhysicsLayer for TestLayer {
    fn to_bits(&self) -> u32 {
        match self {
            TestLayer::One => 1,
            TestLayer::Two => 2,
        }
    }

    fn all_bits() -> u32 {
        3
    }

    fn layer_bits(&self) -> u32 {
        self.to_bits()
    }

    fn all_layer_bits() -> u32 {
        Self::all_bits()
    }
}

#[test]
fn all_interacts_with_all() {
    assert!(
        CollisionLayers::all::<TestLayer>().interacts_with(CollisionLayers::all::<TestLayer>())
    );
}

#[test]
fn none_does_not_interact_with_any_anything() {
    for other in [
        CollisionLayers::all::<TestLayer>(),
        CollisionLayers::none(),
        CollisionLayers::all_groups::<TestLayer>(),
        CollisionLayers::all_masks::<TestLayer>(),
    ] {
        assert!(!CollisionLayers::none().interacts_with(other));
        assert!(!other.interacts_with(CollisionLayers::none()));
    }
}

#[test]
fn empty_groups_and_masks_not_interact() {
    let c1 = CollisionLayers::all_groups::<TestLayer>();
    let c2 = CollisionLayers::all_masks::<TestLayer>();

    assert!(!c1.interacts_with(c2));
    assert!(!c2.interacts_with(c1));
}

#[test]
fn with_layer_adds_interaction() {
    let c1 = CollisionLayers::none()
        .with_group(TestLayer::One)
        .with_mask(TestLayer::Two);

    let c2 = CollisionLayers::none()
        .with_group(TestLayer::Two)
        .with_mask(TestLayer::One);

    assert!(c1.interacts_with(c2));
    assert!(c2.interacts_with(c1));
    assert!(!c1.interacts_with(c1));
    assert!(!c2.interacts_with(c2));
}

#[test]
fn without_layer_removes_interaction() {
    let c1 = CollisionLayers::all::<TestLayer>()
        .without_group(TestLayer::One)
        .without_mask(TestLayer::Two);

    let c2 = CollisionLayers::all::<TestLayer>()
        .without_group(TestLayer::Two)
        .without_mask(TestLayer::One);

    println!("{:?}, {:?}", c1, c2);
    assert!(c1.interacts_with(c2));
    assert!(c2.interacts_with(c1));
    assert!(!c1.interacts_with(c1));
    assert!(!c2.interacts_with(c2));
}

#[test]
fn with_groups_and_masks_add_every_layer() {
    let layers = CollisionLayers::none()
        .with_groups(&[TestLayer::One, TestLayer::Two])
        .with_masks(&[TestLayer::Two]);
    assert_eq!(layers.groups_bits(), 3);
    assert_eq!(layers.masks_bits(), 2);
    assert!(layers.contains_group(TestLayer::One));
    assert!(layers.contains_group(&TestLayer::Two));
    assert!(!layers.contains_mask(TestLayer::One));
    assert!(layers.contains_mask(TestLayer::Two));
}

#[test]
fn new_and_from_bits_agree() {
    let a = CollisionLayers::new(TestLayer::One, TestLayer::Two);
    assert_eq!(a, CollisionLayers::from_bits(1, 2));
    assert_eq!(a.groups_bits(), 1);
    assert_eq!(a.masks_bits(), 2);
}

#[test]
fn default_has_every_bit() {
    let d = CollisionLayers::default();
    assert_eq!(d.groups_bits(), 0xffff_ffff);
    assert_eq!(d.masks_bits(), 0xffff_ffff);
    assert!(d.interacts_with(CollisionLayers::from_bits(0x8000_0000, 1)));
    assert!(!d.interacts_with(CollisionLayers::none()));
}
