# heron

The core of an ergonomic physics API for bevy, powered by rapier, with its logic
verified by Verus.

## Layout

- `src/` is the verified library:
  - `layers`: collision layers (groups and masks) and the rule by which two shapes
    interact, with the laws of that rule;
  - `layer_derive`: the bits that the layer derive assigns to an enum's variants, and
    the variant of given bits;
  - `constraints`, `body`: rotation constraints, rigid body types, the status the
    engine simulates for each, and where a collision shape is attached;
  - `entity`, `events`: entity identifiers and collision events;
  - `collisions`: the collisions and colliding entities recorded from the events;
  - `time`, `step`: durations and the scheduling of physics steps;
  - `pipeline`: turns the contacts and intersections reported by rapier into
    collision events.
- `tests/` runs the library on concrete values.
- `app/` holds the bevy plugins: ECS components and systems, the floating-point
  parts (time scale, gravity, velocity, shapes and materials) and the rapier step.

## Using the layers

Implement `PhysicsLayer` for your layer enum. Besides `to_bits` and `all_bits`, the
trait has two specification functions, `layer_bits` and `all_layer_bits`; in code
outside Verus, give them the same bodies as `to_bits` and `all_bits`. The bits of
each variant can be computed with `layer_derive::derive_layer_bits`.
