//! Anatomy of game creatures: body parts made of tissue layers, the rules that
//! resolve a damage event against a part, and the graph that joins parts into a
//! creature.

pub mod body_part;
pub mod body_part_builder;
pub mod damage;
pub mod decimal;
pub mod mob;
pub mod paint;
