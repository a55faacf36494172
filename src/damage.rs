use vstd::prelude::*;

verus! {

/// How a blow is delivered; it selects the rule that spreads the damage over
/// the layers of a part.
#[derive(Clone, Copy, Debug, PartialEq, Eq, Structural)]
pub enum DamageType {
    /// Damages all layers. Cannot sever.
    Piercing,
    /// Damages a layer only once it and every deeper layer are at zero.
    Slashing,
    /// Spreads the amount evenly across all layers.
    Blunt,
}

/// One damage event.
#[derive(Clone, Copy, Debug, PartialEq, Eq, Structural)]
pub struct DamageInstance {
    pub amount: i32,
    pub damage_type: DamageType,
}

/// What a damage event did to a part.
#[derive(Clone, Copy, Debug, PartialEq, Eq, Structural)]
pub enum DamageResult {
    TookDamage(DamageInstance),
    Destroyed,
    Severed,
    NoDamage,
}

} // verus!
