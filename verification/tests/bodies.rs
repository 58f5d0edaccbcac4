use heron::layer_derive::{derive_layer_bits, variant_of_bits};
use heron::{body_status, shape_attachment, BodyStatus, RigidBody, ShapeAttachment};

#[test]
fn only_dynamic_and_velocity_based_bodies_have_velocity() {
    assert!(RigidBody::Dynamic.can_have_velocity());
    assert!(RigidBody::KinematicVelocityBased.can_have_velocity());
    assert!(!RigidBody::KinematicPositionBased.can_have_velocity());
    assert!(!RigidBody::Static.can_have_velocity());
    assert!(!RigidBody::Sensor.can_have_velocity());
    assert_eq!(RigidBody::default(), RigidBody::Dynamic);
}

#[test]
fn body_status_of_each_type() {
    assert_eq!(body_status(RigidBody::Dynamic), BodyStatus::Dynamic);
    assert_eq!(body_status(RigidBody::Static), BodyStatus::Static);
    assert_eq!(body_status(RigidBody::Sensor), BodyStatus::Static);
    assert_eq!(
        body_status(RigidBody::KinematicPositionBased),
        BodyStatus::KinematicPositionBased
    );
    assert_eq!(
        body_status(RigidBody::KinematicVelocityBased),
        BodyStatus::KinematicVelocityBased
    );
}

#[test]
fn derived_layers_are_single_bits() {
    let bits = derive_layer_bits(3);
    assert_eq!(bits.variant_bits, vec![1, 2, 4]);
    assert_eq!(bits.all_bits, 7);
    let sixteen = derive_layer_bits(16);
    assert_eq!(sixteen.variant_bits[15], 0x8000);
    assert_eq!(sixteen.all_bits, 0xffff);
    let one = derive_layer_bits(1);
    assert_eq!(one.variant_bits, vec![1]);
    assert_eq!(one.all_bits, 1);
}

#[test]
fn empty_enum_has_all_bits_one() {
    let none = derive_layer_bits(0);
    assert!(none.variant_bits.is_empty());
    assert_eq!(none.all_bits, 1);
}

#[test]
fn from_bits_is_inverse_of_to_bits() {
    let bits = derive_layer_bits(3);
    for (index, layer_bits) in bits.variant_bits.iter().enumerate() {
        assert_eq!(variant_of_bits(*layer_bits, 3), Some(index));
    }
}

#[test]
fn returns_expected_bits() {
    let bits = derive_layer_bits(3);
    assert_eq!(bits.variant_bits, vec![1, 2, 4]);
}

#[test]
fn returns_expected_layer_from_bits() {
    assert_eq!(variant_of_bits(1, 3), Some(0));
    assert_eq!(variant_of_bits(2, 3), Some(1));
    assert_eq!(variant_of_bits(4, 3), Some(2));
}

#[test]
fn bits_of_no_layer_give_nothing() {
    assert_eq!(variant_of_bits(8, 3), None);
    assert_eq!(variant_of_bits(3, 3), None);
    assert_eq!(variant_of_bits(0, 16), None);
    assert_eq!(variant_of_bits(0x8000, 16), Some(15));
}

#[test]
fn shape_is_attached_to_its_own_body_first() {
    assert_eq!(
        shape_attachment(Some(RigidBody::Dynamic), Some(RigidBody::Sensor), false),
        Some(ShapeAttachment { to_parent: false, is_sensor: false })
    );
    assert_eq!(
        shape_attachment(None, Some(RigidBody::Sensor), false),
        Some(ShapeAttachment { to_parent: true, is_sensor: true })
    );
    assert_eq!(
        shape_attachment(None, Some(RigidBody::Static), true),
        Some(ShapeAttachment { to_parent: true, is_sensor: true })
    );
    assert_eq!(
        shape_attachment(Some(RigidBody::Sensor), None, false),
        Some(ShapeAttachment { to_parent: false, is_sensor: true })
    );
    assert_eq!(shape_attachment(None, None, true), None);
}
