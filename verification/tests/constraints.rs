use heron::RotationConstraints;

#[test]
fn is_lock() {
    assert!(RotationConstraints::lock().is_lock());
}

#[test]
fn is_not_lock() {
    for constraints in [
        RotationConstraints::allow(),
        RotationConstraints { allow_x: false, ..RotationConstraints::allow() },
        RotationConstraints { allow_y: false, ..RotationConstraints::allow() },
        RotationConstraints { allow_z: false, ..RotationConstraints::allow() },
    ] {
        assert!(!constraints.is_lock());
    }
}

#[test]
fn is_allow() {
    assert!(RotationConstraints::allow().is_allow());
}

#[test]
fn is_not_allow() {
    for constraints in [
        RotationConstraints::lock(),
        RotationConstraints { allow_x: true, ..RotationConstraints::lock() },
        RotationConstraints { allow_y: true, ..RotationConstraints::lock() },
        RotationConstraints { allow_z: true, ..RotationConstraints::lock() },
    ] {
        assert!(!constraints.is_allow());
    }
}

#[test]
fn restrict_to_single_axis() {
    let x = RotationConstraints::restrict_to_x_only();
    assert!(x.allow_x && !x.allow_y && !x.allow_z);
    let y = RotationConstraints::restrict_to_y_only();
    assert!(!y.allow_x && y.allow_y && !y.allow_z);
    let z = RotationConstraints::restrict_to_z_only();
    assert!(!z.allow_x && !z.allow_y && z.allow_z);
    assert!(!x.is_lock() && !x.is_allow());
}

#[test]
fn default_allows_everything() {
    assert!(RotationConstraints::default().is_allow());
    assert_eq!(RotationConstraints::default(), RotationConstraints::allow());
}
