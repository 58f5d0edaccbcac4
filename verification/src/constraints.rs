use vstd::prelude::*;

verus! {

/// Component that restricts which rotations forces can cause.
///
/// It must be inserted on the same entity as a `RigidBody`. Angular velocity may
/// still be applied programmatically: this only restricts how rotation changes when
/// forces and torques are applied.
#[derive(Clone, Copy, Debug, PartialEq, Eq, Structural)]
pub struct RotationConstraints {
    /// Whether rotations around the x axis are allowed
    pub allow_x: bool,
    /// Whether rotations around the y axis are allowed
    pub allow_y: bool,
    /// Whether rotations around the z axis are allowed
    pub allow_z: bool,
}

impl RotationConstraints {
    /// Locks rotations around all axes.
    pub fn lock() -> (c: Self)
        ensures
            !c.allow_x && !c.allow_y && !c.allow_z,
    {
        Self { allow_x: false, allow_y: false, allow_z: false }
    }

    /// Allows rotations around all axes.
    pub fn allow() -> (c: Self)
        ensures
            c.allow_x && c.allow_y && c.allow_z,
    {
        Self { allow_x: true, allow_y: true, allow_z: true }
    }

    /// Returns true if all axes are locked.
    pub fn is_lock(&self) -> (locked: bool)
        ensures
            locked == (!self.allow_x && !self.allow_y && !self.allow_z),
    {
        !self.allow_x && !self.allow_y && !self.allow_z
    }

    /// Returns true if all axes are allowed (none is locked).
    pub fn is_allow(&self) -> (allowed: bool)
        ensures
            allowed == (self.allow_x && self.allow_y && self.allow_z),
    {
        self.allow_x && self.allow_y && self.allow_z
    }

    /// Allows rotation around the x axis only.
    pub fn restrict_to_x_only() -> (c: Self)
        ensures
            c.allow_x && !c.allow_y && !c.allow_z,
    {
        Self { allow_x: true, allow_y: false, allow_z: false }
    }

    /// Allows rotation around the y axis only.
    pub fn restrict_to_y_only() -> (c: Self)
        ensures
            !c.allow_x && c.allow_y && !c.allow_z,
    {
        Self { allow_x: false, allow_y: true, allow_z: false }
    }

    /// Allows rotation around the z axis only.
    pub fn restrict_to_z_only() -> (c: Self)
        ensures
            !c.allow_x && !c.allow_y && c.allow_z,
    {
        Self { allow_x: false, allow_y: false, allow_z: true }
    }
}

impl Default for RotationConstraints {
    /// By default every rotation is allowed.
    fn default() -> (c: Self)
        ensures
            c.allow_x && c.allow_y && c.allow_z,
    {
        Self::allow()
    }
}

/// `lock` is the one value that is locked, `allow` the one that is allowed, and no
/// value is both.
pub proof fn lemma_lock_and_allow_exclusive(c: RotationConstraints)
    ensures
        (!c.allow_x && !c.allow_y && !c.allow_z) ==> c == (RotationConstraints {
            allow_x: false,
            allow_y: false,
            allow_z: false,
        }),
        (c.allow_x && c.allow_y && c.allow_z) ==> c == (RotationConstraints {
            allow_x: true,
            allow_y: true,
            allow_z: true,
        }),
        !((!c.allow_x && !c.allow_y && !c.allow_z) && (c.allow_x && c.allow_y && c.allow_z)),
{
}

} // verus!
